//! The positioning feed of an ultra-wideband sensor network: entity updates
//! with named data streams, their conversion into calibrated readings, and the
//! decisions of its polling and streaming transports.

use vstd::prelude::*;

use crate::decimal::{
    bounded_units, decimal_text, natural_value, parse_decimal, parse_natural, usize_text,
};
use crate::error::Error;
use crate::location::{
    within, Base, LocationMetric, LocationVectorScale, ObjectLocation, METRIC_LIMIT,
};

verus! {

/// Fractional digits kept of a position channel, which is written in metres:
/// readings are in millimetres.
pub const READING_DIGITS: u32 = 3;

/// Largest magnitude of a position reading, in millimetres: scaled by at most
/// `SCALE_LIMIT` it stays within `METRIC_LIMIT`.
pub const READING_LIMIT: u64 = 144_115_188_075_855;

/// Largest magnitude of an axis scale factor, in parts per million.
pub const SCALE_LIMIT: i64 = 1_000_000_000;

/// The variable that holds the URL of the feed.
pub const URL_VAR: &'static str = "FOOTPRINT_API_URL";

/// One named channel of an entity update.
#[derive(Clone, Debug, PartialEq, Eq)]
pub struct DataStream {
    pub id: String,
    pub current_value: String,
}

/// An entity update: the entity's identifier and its channels.
#[derive(Clone, Debug, PartialEq, Eq)]
pub struct Entity {
    pub id: String,
    pub datastreams: Vec<DataStream>,
}

/// The characters of the Unicode `White_Space` property, which
/// `char::is_whitespace` tests and `str::trim` strips.
pub open spec fn is_white_space(c: char) -> bool {
    ||| '\u{9}' <= c <= '\u{d}'
    ||| c == ' '
    ||| c == '\u{85}'
    ||| c == '\u{a0}'
    ||| c == '\u{1680}'
    ||| '\u{2000}' <= c <= '\u{200a}'
    ||| c == '\u{2028}'
    ||| c == '\u{2029}'
    ||| c == '\u{202f}'
    ||| c == '\u{205f}'
    ||| c == '\u{3000}'
}

fn white_space(c: char) -> (r: bool)
    ensures
        r == is_white_space(c),
{
    ('\u{9}' <= c && c <= '\u{d}') || c == ' ' || c == '\u{85}' || c == '\u{a0}' || c
        == '\u{1680}' || ('\u{2000}' <= c && c <= '\u{200a}') || c == '\u{2028}' || c
        == '\u{2029}' || c == '\u{202f}' || c == '\u{205f}' || c == '\u{3000}'
}

/// Where the white space of `s` that starts at `i` ends.
pub open spec fn space_forward(s: Seq<char>, i: int) -> int
    decreases s.len() - i,
{
    if 0 <= i < s.len() && is_white_space(s[i]) {
        space_forward(s, i + 1)
    } else {
        i
    }
}

/// Where the white space of `s` that ends at `j` starts, going no lower than
/// `lo`.
pub open spec fn space_back(s: Seq<char>, lo: int, j: int) -> int
    decreases j - lo,
{
    if lo < j <= s.len() && is_white_space(s[j - 1]) {
        space_back(s, lo, j - 1)
    } else {
        j
    }
}

/// `s` without its leading and trailing white space, as `str::trim` leaves it.
pub open spec fn trimmed(s: Seq<char>) -> Seq<char> {
    let start = space_forward(s, 0);
    s.subrange(start, space_back(s, start, s.len() as int))
}

/// `s` without its leading and trailing white space.
pub fn trim_text(s: &str) -> (r: &str)
    ensures
        r@ == trimmed(s@),
{
    let n = s.unicode_len();
    let mut i: usize = 0;
    while i < n && white_space(s.get_char(i))
        invariant
            n == s@.len(),
            i <= n,
            space_forward(s@, 0) == space_forward(s@, i as int),
        decreases n - i,
    {
        i = i + 1;
    }
    let mut j: usize = n;
    while j > i && white_space(s.get_char(j - 1))
        invariant
            n == s@.len(),
            i <= j <= n,
            space_back(s@, i as int, n as int) == space_back(s@, i as int, j as int),
        decreases j - i,
    {
        j = j - 1;
    }
    s.substring_char(i, j)
}

/// The first channel of `streams` whose identifier is `key`.
pub open spec fn find_stream(streams: Seq<DataStream>, key: Seq<char>) -> Option<DataStream>
    decreases streams.len(),
{
    if streams.len() == 0 {
        None
    } else if streams[0].id@ == key {
        Some(streams[0])
    } else {
        find_stream(streams.drop_first(), key)
    }
}

/// The reading that a channel's value writes: metres with up to three
/// fractional digits kept, as millimetres, within `READING_LIMIT`.
pub open spec fn reading_units(value: Seq<char>) -> Option<int> {
    bounded_units(value, READING_DIGITS as nat, READING_LIMIT as int)
}

/// The outcome of reading one channel of an update.
pub ghost enum Channel {
    Missing,
    Malformed,
    Value(int),
}

/// The outcome of reading the channel `key` of `entity`.
pub open spec fn channel(entity: Entity, key: Seq<char>) -> Channel {
    match find_stream(entity.datastreams@, key) {
        None => Channel::Missing,
        Some(d) => match reading_units(trimmed(d.current_value@)) {
            Some(v) => Channel::Value(v),
            None => Channel::Malformed,
        },
    }
}

/// `e` is the error that reading the channel `key` with outcome `c` reports.
pub open spec fn channel_error(e: Error, c: Channel, key: Seq<char>) -> bool {
    match c {
        Channel::Missing => e matches Error::ChannelMissing(k) && k@ == key,
        Channel::Malformed => e == Error::Parse,
        Channel::Value(_) => false,
    }
}

proof fn lemma_find_stream_step(streams: Seq<DataStream>, key: Seq<char>, i: int)
    requires
        0 <= i < streams.len(),
    ensures
        find_stream(streams.skip(i), key) == if streams[i].id@ == key {
            Some(streams[i])
        } else {
            find_stream(streams.skip(i + 1), key)
        },
{
    assert(streams.skip(i).drop_first() =~= streams.skip(i + 1));
}

impl DataStream {
    /// The reading that this channel's value writes, surrounding white space
    /// ignored.
    pub fn parse_value(&self) -> (r: Result<i64, Error>)
        ensures
            match reading_units(trimmed(self.current_value@)) {
                Some(v) => r == Ok::<i64, Error>(v as i64),
                None => r == Err::<i64, Error>(Error::Parse),
            },
    {
        match parse_decimal(trim_text(self.current_value.as_str()), READING_DIGITS, READING_LIMIT) {
            Some(v) => Ok(v),
            None => Err(Error::Parse),
        }
    }
}

impl Entity {
    /// The first channel whose identifier is `key`.
    pub fn get(&self, key: &str) -> (r: Result<&DataStream, Error>)
        ensures
            match find_stream(self.datastreams@, key@) {
                Some(d) => r == Ok::<&DataStream, Error>(&d),
                None => r matches Err(Error::ChannelMissing(k)) && k@ == key@,
            },
    {
        let wanted = key.to_owned();
        let mut i: usize = 0;
        assert(self.datastreams@.skip(0) =~= self.datastreams@);
        while i < self.datastreams.len()
            invariant
                i <= self.datastreams@.len(),
                wanted@ == key@,
                find_stream(self.datastreams@, key@) == find_stream(
                    self.datastreams@.skip(i as int),
                    key@,
                ),
            decreases self.datastreams@.len() - i,
        {
            proof {
                lemma_find_stream_step(self.datastreams@, key@, i as int);
            }
            if self.datastreams[i].id == wanted {
                return Ok(&self.datastreams[i]);
            }
            i = i + 1;
        }
        Err(Error::ChannelMissing(wanted))
    }

    /// The reading of the channel `key`.
    pub fn parse_value(&self, key: &str) -> (r: Result<i64, Error>)
        ensures
            match channel(*self, key@) {
                Channel::Value(v) => r == Ok::<i64, Error>(v as i64),
                c => r matches Err(e) && channel_error(e, c, key@),
            },
    {
        match self.get(key) {
            Ok(d) => d.parse_value(),
            Err(e) => Err(e),
        }
    }
}

/// The metric offset that an update reports, where both position channels hold
/// a reading: the second axis of the sensor frame points the other way.
pub open spec fn entity_metric(entity: Entity) -> Option<LocationMetric> {
    match (channel(entity, "posX"@), channel(entity, "posY"@)) {
        (Channel::Value(x), Channel::Value(y)) => Some(
            LocationMetric { x_m: x as i64, y_m: -y as i64, error_m: 0 },
        ),
        _ => None,
    }
}

/// `e` is the error that extracting the metric offset of `entity` reports.
pub open spec fn metric_error(e: Error, entity: Entity) -> bool {
    let cx = channel(entity, "posX"@);
    let cy = channel(entity, "posY"@);
    if cx is Value {
        channel_error(e, cy, "posY"@)
    } else {
        channel_error(e, cx, "posX"@)
    }
}

impl LocationMetric {
    /// The metric offset that an update reports: `posX` along the first axis,
    /// `posY` negated along the second, no local error radius.
    pub fn try_from_entity(entity: &Entity) -> (r: Result<LocationMetric, Error>)
        ensures
            match entity_metric(*entity) {
                Some(m) => r == Ok::<LocationMetric, Error>(m),
                None => r matches Err(e) && metric_error(e, *entity),
            },
            r matches Ok(m) ==> within(m.x_m as int, READING_LIMIT as int) && within(
                m.y_m as int,
                READING_LIMIT as int,
            ),
    {
        let x = match entity.parse_value("posX") {
            Ok(v) => v,
            Err(e) => return Err(e),
        };
        let y = match entity.parse_value("posY") {
            Ok(v) => v,
            Err(e) => return Err(e),
        };
        Ok(LocationMetric { x_m: x, y_m: -y, error_m: 0 })
    }
}

/// The scheme of the URL that `text` writes, lower-cased, where it parses.
pub uninterp spec fn url_scheme(text: Seq<char>) -> Option<Seq<char>>;

/// Relies on `url::Url::parse` and `Url::scheme`: the scheme of an absolute
/// URL, where the text parses as one.
#[verifier::external_body]
fn parse_scheme(text: &str) -> (r: Option<String>)
    ensures
        match r {
            Some(s) => url_scheme(text@) == Some(s@),
            None => url_scheme(text@) is None,
        },
{
    match url::Url::parse(text) {
        Ok(url) => Some(url.scheme().to_string()),
        Err(_) => None,
    }
}

/// The JSON string literal that `serde_json` writes for a text: quoted, with
/// quotes, backslashes and control characters escaped.
pub uninterp spec fn json_string(s: Seq<char>) -> Seq<char>;

/// Relies on `serde_json::Value`'s `Display`: a JSON string value is written
/// as its escaped, quoted literal, a function of the characters alone.
#[verifier::external_body]
fn json_string_text(s: &str) -> (r: String)
    ensures
        r@ == json_string(s@),
{
    serde_json::Value::String(s.to_owned()).to_string()
}

/// The subscribe handshake around an API key already written as a JSON string.
pub open spec fn subscribe_text(quoted_key: Seq<char>) -> Seq<char> {
    "{\"headers\":{\"X-ApiKey\":"@ + quoted_key + "},\"method\":\"subscribe\",\"resource\":\"/feeds/\"}"@
}

/// The subscribe handshake for an API key already written as a JSON string.
pub fn subscribe_message_text(quoted_key: &str) -> (r: String)
    ensures
        r@ == subscribe_text(quoted_key@),
{
    let mut r = String::from_str("{\"headers\":{\"X-ApiKey\":");
    r.append(quoted_key);
    r.append("},\"method\":\"subscribe\",\"resource\":\"/feeds/\"}");
    r
}

/// The subscribe handshake that opens the streaming feed: a JSON control
/// message with the API key and the feed resource.
pub fn subscribe_message(key: &str) -> (r: String)
    ensures
        r@ == subscribe_text(json_string(key@)),
{
    subscribe_message_text(json_string_text(key).as_str())
}

/// How the feed is reached.
#[derive(Clone, Copy, Debug, PartialEq, Eq, Structural)]
pub enum TransportKind {
    /// One request per reading.
    Polling,
    /// A persistent connection that pushes updates.
    Streaming,
}

/// The transport that a URL scheme selects.
pub open spec fn scheme_transport(scheme: Seq<char>) -> Option<TransportKind> {
    if scheme == "http"@ || scheme == "https"@ {
        Some(TransportKind::Polling)
    } else if scheme == "ws"@ || scheme == "wss"@ {
        Some(TransportKind::Streaming)
    } else {
        None
    }
}

impl TransportKind {
    /// `http` and `https` poll; `ws` and `wss` stream; no other scheme is served.
    pub fn for_scheme(scheme: &str) -> (r: Option<TransportKind>)
        ensures
            r == scheme_transport(scheme@),
    {
        let s = scheme.to_owned();
        if s == String::from_str("http") || s == String::from_str("https") {
            Some(TransportKind::Polling)
        } else if s == String::from_str("ws") || s == String::from_str("wss") {
            Some(TransportKind::Streaming)
        } else {
            None
        }
    }
}

/// The state of a streaming connection.
#[derive(Clone, Copy, Debug, PartialEq, Eq, Structural)]
pub enum LinkState {
    /// The transport-level connection is being made.
    Connecting,
    /// Subscribed to the feed, no reading requested.
    Subscribed,
    /// A reading is requested; waiting for a frame.
    WaitingForFrame,
    /// The idle timeout elapsed and a keepalive probe went out; still waiting.
    KeepaliveSent,
    /// The connection failed; nothing more comes of it.
    Failed,
}

/// What happened on a streaming connection.
#[derive(Clone, Debug)]
pub enum StreamEvent {
    /// The transport-level connection succeeded.
    Connected,
    /// A reading is requested.
    Next,
    /// No frame arrived within the idle timeout.
    Idle,
    /// A text frame arrived: the update it holds, where it decodes.
    Text(Option<Entity>),
    /// A frame arrived that is not text.
    Other,
    /// Connecting, reading or writing failed, or the peer closed the connection.
    Broken,
}

/// What the transport does next.
#[derive(Clone, Debug)]
pub enum StreamAction {
    /// Send the subscribe handshake.
    Subscribe,
    /// Wait for the next frame, with the idle timeout.
    ReadFrame,
    /// Send one keepalive probe, then wait for the next frame again.
    SendKeepalive,
    /// Hand this reading to the caller.
    Deliver(ObjectLocation),
    /// Nothing to do.
    Stay,
    /// Surface this error; the connection is finished.
    Fail(Error),
}

/// How a `Metrics` reaches its feed, with the state of a streaming connection.
#[derive(Clone, Copy, Debug, PartialEq, Eq, Structural)]
pub enum Transport {
    Polling,
    Streaming(LinkState),
}

/// The calibration of one sensor installation and the feed it reads.
#[derive(Debug)]
pub struct Metrics {
    pub base: Base,
    pub scale: LocationVectorScale,
    /// Identifier of the entity that polling asks for.
    pub id: usize,
    /// API key sent with each request and in the subscribe handshake.
    pub key: String,
    pub url: String,
    pub transport: Transport,
}

/// The scale factors lie within `SCALE_LIMIT`.
pub open spec fn scale_ok(scale: LocationVectorScale) -> bool {
    within(scale.latitude as int, SCALE_LIMIT as int) && within(
        scale.longitude as int,
        SCALE_LIMIT as int,
    )
}

proof fn lemma_scale_fits(metric: LocationMetric, scale: LocationVectorScale)
    requires
        within(metric.x_m as int, READING_LIMIT as int),
        within(metric.y_m as int, READING_LIMIT as int),
        scale_ok(scale),
    ensures
        metric.scale_fits(scale),
{
    assert(within(metric.x_m * scale.latitude, READING_LIMIT * SCALE_LIMIT)) by (nonlinear_arith)
        requires
            within(metric.x_m as int, READING_LIMIT as int),
            within(scale.latitude as int, SCALE_LIMIT as int),
    ;
    assert(within(metric.y_m * scale.longitude, READING_LIMIT * SCALE_LIMIT))
        by (nonlinear_arith)
        requires
            within(metric.y_m as int, READING_LIMIT as int),
            within(scale.longitude as int, SCALE_LIMIT as int),
    ;
    assert(READING_LIMIT * SCALE_LIMIT <= METRIC_LIMIT * 1_000_000);
}

impl Metrics {
    pub open spec fn wf(&self) -> bool {
        self.base.wf() && scale_ok(self.scale)
    }

    /// The calibrated reading of `metric`: scaled, converted, turned and
    /// translated against the anchor.
    pub open spec fn spec_calibrate(&self, id: usize, metric: LocationMetric) -> ObjectLocation {
        ObjectLocation {
            id,
            location: self.base.spec_add(metric.spec_mul(self.scale).spec_local()),
        }
    }

    /// The calibrated reading that an update yields, where it yields one.
    pub open spec fn spec_reading(&self, entity: Entity) -> Option<ObjectLocation> {
        match (entity_metric(entity), natural_value(entity.id@)) {
            (Some(m), Some(n)) => if n <= usize::MAX {
                Some(self.spec_calibrate(n as usize, m))
            } else {
                None
            },
            _ => None,
        }
    }

    /// Sets up the calibration and the feed that `url` names: `http(s)` polls,
    /// `ws(s)` streams, starting from `Connecting`. A URL that does not parse is
    /// a configuration error of `URL_VAR`; another scheme is refused.
    pub fn new(url: String, key: String, id: usize, base: Base, scale: LocationVectorScale) -> (r:
        Result<Metrics, Error>)
        requires
            base.wf(),
            scale_ok(scale),
        ensures
            match url_scheme(url@) {
                Some(s) => match scheme_transport(s) {
                    Some(kind) => r matches Ok(m) && m.wf() && m.base == base && m.scale == scale
                        && m.id == id && m.key == key && m.url == url && m.transport == (
                    if kind == TransportKind::Polling {
                        Transport::Polling
                    } else {
                        Transport::Streaming(LinkState::Connecting)
                    }),
                    None => r matches Err(Error::UnsupportedScheme(t)) && t@ == s,
                },
                None => r matches Err(Error::InvalidVariable(k)) && k@ == URL_VAR@,
            },
    {
        let scheme = match parse_scheme(url.as_str()) {
            Some(scheme) => scheme,
            None => return Err(Error::InvalidVariable(URL_VAR.to_owned())),
        };
        match TransportKind::for_scheme(scheme.as_str()) {
            Some(TransportKind::Polling) => Ok(
                Metrics { base, scale, id, key, url, transport: Transport::Polling },
            ),
            Some(TransportKind::Streaming) => Ok(
                Metrics {
                    base,
                    scale,
                    id,
                    key,
                    url,
                    transport: Transport::Streaming(LinkState::Connecting),
                },
            ),
            None => Err(Error::UnsupportedScheme(scheme)),
        }
    }

    /// The address that polling asks: the feed URL, a `/` and the entity id.
    pub fn endpoint(&self) -> (r: String)
        ensures
            r@ == self.url@ + "/"@ + decimal_text(self.id as nat),
    {
        let mut r = self.url.clone();
        r.append("/");
        r.append(usize_text(self.id).as_str());
        r
    }

    /// Calibrates a metric offset read from the feed.
    pub fn calibrate(&self, id: usize, metric: LocationMetric) -> (r: ObjectLocation)
        requires
            self.wf(),
            within(metric.x_m as int, READING_LIMIT as int),
            within(metric.y_m as int, READING_LIMIT as int),
        ensures
            r == self.spec_calibrate(id, metric),
    {
        proof {
            lemma_scale_fits(metric, self.scale);
        }
        ObjectLocation { id, location: self.base.add_metric(metric.mul(self.scale)) }
    }

    /// The calibrated reading of an update: its position channels, then its
    /// identifier, are read, and the first failure is reported.
    pub fn reading(&self, entity: &Entity) -> (r: Result<ObjectLocation, Error>)
        requires
            self.wf(),
        ensures
            match self.spec_reading(*entity) {
                Some(o) => r == Ok::<ObjectLocation, Error>(o),
                None => r matches Err(e) && if entity_metric(*entity) is None {
                    metric_error(e, *entity)
                } else {
                    e == Error::Parse
                },
            },
    {
        let metric = match LocationMetric::try_from_entity(entity) {
            Ok(m) => m,
            Err(e) => return Err(e),
        };
        match parse_natural(entity.id.as_str()) {
            Some(id) => Ok(self.calibrate(id, metric)),
            None => Err(Error::Parse),
        }
    }
}

/// The connection waits for a frame, with or without a probe sent.
pub open spec fn waiting(state: LinkState) -> bool {
    state == LinkState::WaitingForFrame || state == LinkState::KeepaliveSent
}

impl Metrics {
    /// The state of the streaming connection; a polling feed has none and
    /// counts as failed.
    pub open spec fn link(&self) -> LinkState {
        match self.transport {
            Transport::Streaming(s) => s,
            Transport::Polling => LinkState::Failed,
        }
    }

    /// Where a streaming connection in `state` goes on `event`, and what it does.
    ///
    /// A failed connection stays failed. Otherwise a broken connection fails;
    /// a connection subscribes once connected; a request starts the wait for a
    /// frame; a wait that times out sends one probe and goes on; a frame that
    /// yields no reading is skipped and the wait goes on; a frame that yields a
    /// reading delivers it. Any other event changes nothing.
    pub open spec fn transition(&self, state: LinkState, event: StreamEvent) -> (
        LinkState,
        StreamAction,
    ) {
        if state == LinkState::Failed {
            (LinkState::Failed, StreamAction::Fail(Error::Transport))
        } else {
            match event {
                StreamEvent::Broken => (LinkState::Failed, StreamAction::Fail(Error::Transport)),
                StreamEvent::Connected => if state == LinkState::Connecting {
                    (LinkState::Subscribed, StreamAction::Subscribe)
                } else {
                    (state, StreamAction::Stay)
                },
                StreamEvent::Next => if state == LinkState::Subscribed || waiting(state) {
                    (LinkState::WaitingForFrame, StreamAction::ReadFrame)
                } else {
                    (state, StreamAction::Stay)
                },
                StreamEvent::Idle => if waiting(state) {
                    (LinkState::KeepaliveSent, StreamAction::SendKeepalive)
                } else {
                    (state, StreamAction::Stay)
                },
                StreamEvent::Other => if waiting(state) {
                    (LinkState::WaitingForFrame, StreamAction::ReadFrame)
                } else {
                    (state, StreamAction::Stay)
                },
                StreamEvent::Text(update) => if waiting(state) {
                    match update {
                        Some(entity) => match self.spec_reading(entity) {
                            Some(o) => (LinkState::Subscribed, StreamAction::Deliver(o)),
                            None => (LinkState::WaitingForFrame, StreamAction::ReadFrame),
                        },
                        None => (LinkState::WaitingForFrame, StreamAction::ReadFrame),
                    }
                } else {
                    (state, StreamAction::Stay)
                },
            }
        }
    }

    /// Advances the streaming connection on `event` and says what to do next.
    pub fn step(&mut self, event: StreamEvent) -> (action: StreamAction)
        requires
            old(self).wf(),
            old(self).transport is Streaming,
        ensures
            final(self).transport == Transport::Streaming(
                old(self).transition(old(self).link(), event).0,
            ),
            action == old(self).transition(old(self).link(), event).1,
            final(self).base == old(self).base,
            final(self).scale == old(self).scale,
            final(self).id == old(self).id,
            final(self).key == old(self).key,
            final(self).url == old(self).url,
    {
        let state = match self.transport {
            Transport::Streaming(s) => s,
            Transport::Polling => LinkState::Failed,
        };
        let is_waiting = match state {
            LinkState::WaitingForFrame | LinkState::KeepaliveSent => true,
            _ => false,
        };
        let (next, action) = match state {
            LinkState::Failed => (LinkState::Failed, StreamAction::Fail(Error::Transport)),
            _ => match event {
                StreamEvent::Broken => (LinkState::Failed, StreamAction::Fail(Error::Transport)),
                StreamEvent::Connected => match state {
                    LinkState::Connecting => (LinkState::Subscribed, StreamAction::Subscribe),
                    _ => (state, StreamAction::Stay),
                },
                StreamEvent::Next => match state {
                    LinkState::Connecting => (state, StreamAction::Stay),
                    _ => (LinkState::WaitingForFrame, StreamAction::ReadFrame),
                },
                StreamEvent::Idle => if is_waiting {
                    (LinkState::KeepaliveSent, StreamAction::SendKeepalive)
                } else {
                    (state, StreamAction::Stay)
                },
                StreamEvent::Other => if is_waiting {
                    (LinkState::WaitingForFrame, StreamAction::ReadFrame)
                } else {
                    (state, StreamAction::Stay)
                },
                StreamEvent::Text(update) => if is_waiting {
                    match update {
                        Some(entity) => match self.reading(&entity) {
                            Ok(o) => (LinkState::Subscribed, StreamAction::Deliver(o)),
                            Err(_) => (LinkState::WaitingForFrame, StreamAction::ReadFrame),
                        },
                        None => (LinkState::WaitingForFrame, StreamAction::ReadFrame),
                    }
                } else {
                    (state, StreamAction::Stay)
                },
            },
        };
        self.transport = Transport::Streaming(next);
        action
    }
}

/// While waiting, a frame that yields no reading (one that does not decode, or
/// one whose channels or identifier do not read) is skipped: the connection
/// keeps waiting for the next frame.
pub proof fn lemma_bad_frame_skipped(m: Metrics, state: LinkState, update: Option<Entity>)
    requires
        waiting(state),
        update matches Some(e) ==> m.spec_reading(e) is None,
    ensures
        m.transition(state, StreamEvent::Text(update)) == (
            LinkState::WaitingForFrame,
            StreamAction::ReadFrame,
        ),
{
}

/// While waiting, a malformed frame followed by a frame that yields a reading
/// delivers that reading.
pub proof fn lemma_malformed_then_valid(m: Metrics, state: LinkState, valid: Entity)
    requires
        waiting(state),
        m.spec_reading(valid) is Some,
    ensures
        m.transition(state, StreamEvent::Text(None)).0 == LinkState::WaitingForFrame,
        m.transition(LinkState::WaitingForFrame, StreamEvent::Text(Some(valid))) == (
            LinkState::Subscribed,
            StreamAction::Deliver(m.spec_reading(valid).unwrap()),
        ),
{
}

/// A wait that times out sends exactly one keepalive probe and goes on waiting.
pub proof fn lemma_idle_sends_one_keepalive(m: Metrics, state: LinkState)
    requires
        waiting(state),
    ensures
        m.transition(state, StreamEvent::Idle) == (
            LinkState::KeepaliveSent,
            StreamAction::SendKeepalive,
        ),
        waiting(m.transition(state, StreamEvent::Idle).0),
{
}

/// A failed connection stays failed and reports the failure on every event.
pub proof fn lemma_failed_is_terminal(m: Metrics, event: StreamEvent)
    ensures
        m.transition(LinkState::Failed, event) == (
            LinkState::Failed,
            StreamAction::Fail(Error::Transport),
        ),
{
}

} // verus!
