use footprint::location::UNIT;
use footprint::uwb::{
    subscribe_message, subscribe_message_text, trim_text,
    DataStream, Entity, LinkState, Metrics, StreamAction, StreamEvent, Transport, TransportKind,
};
use footprint::{Base, Error, GlobalLocation, LocationMetric, LocationVectorScale, Rotation};

fn stream(id: &str, value: &str) -> DataStream {
    DataStream { id: id.to_string(), current_value: value.to_string() }
}

fn entity(id: &str, streams: Vec<DataStream>) -> Entity {
    Entity { id: id.to_string(), datastreams: streams }
}

fn anchor() -> Base {
    Base {
        location: GlobalLocation { error_m: 5_000, latitude: 10_000_000_000, longitude: 20_000_000_000 },
        rotation: Rotation { cos: UNIT, sin: 0 },
    }
}

const UNIT_SCALE: LocationVectorScale = LocationVectorScale { latitude: 1_000_000, longitude: 1_000_000 };

fn metrics(url: &str) -> Metrics {
    Metrics::new(url.to_string(), "key".to_string(), 7, anchor(), UNIT_SCALE).unwrap()
}

#[test]
fn channel_value_ignores_surrounding_space() {
    assert_eq!(stream("posX", " 1.5 \n").parse_value(), Ok(1_500));
    assert_eq!(stream("posX", "1.5x").parse_value(), Err(Error::Parse));
    assert_eq!(stream("posX", "1e3").parse_value(), Ok(1_000_000));
    assert_eq!(stream("posX", " -2.5E-1 ").parse_value(), Ok(-250));
}

#[test]
fn get_finds_first_channel_with_key() {
    let e = entity("1", vec![stream("posY", "1"), stream("posX", "2"), stream("posX", "3")]);
    assert_eq!(e.get("posX").unwrap().current_value, "2");
    assert_eq!(e.get("posZ"), Err(Error::ChannelMissing("posZ".to_string())));
}

#[test]
fn metric_from_entity_negates_second_axis() {
    let e = entity("1", vec![stream("posX", "2"), stream("posY", "3.25")]);
    assert_eq!(
        LocationMetric::try_from_entity(&e),
        Ok(LocationMetric { x_m: 2_000, y_m: -3_250, error_m: 0 })
    );
}

#[test]
fn metric_from_entity_errors() {
    let e = entity("1", vec![stream("posX", "2")]);
    assert_eq!(
        LocationMetric::try_from_entity(&e),
        Err(Error::ChannelMissing("posY".to_string()))
    );
    let e = entity("1", vec![stream("posY", "2")]);
    assert_eq!(
        LocationMetric::try_from_entity(&e),
        Err(Error::ChannelMissing("posX".to_string()))
    );
    let e = entity("1", vec![stream("posX", "two"), stream("posY", "2")]);
    assert_eq!(LocationMetric::try_from_entity(&e), Err(Error::Parse));
}

#[test]
fn scheme_selects_transport() {
    assert_eq!(TransportKind::for_scheme("http"), Some(TransportKind::Polling));
    assert_eq!(TransportKind::for_scheme("https"), Some(TransportKind::Polling));
    assert_eq!(TransportKind::for_scheme("ws"), Some(TransportKind::Streaming));
    assert_eq!(TransportKind::for_scheme("wss"), Some(TransportKind::Streaming));
    assert_eq!(TransportKind::for_scheme("ftp"), None);
    assert_eq!(metrics("http://rtls.local/api/feeds").transport, Transport::Polling);
    assert_eq!(metrics("HTTPS://rtls.local").transport, Transport::Polling);
    assert_eq!(
        metrics("wss://rtls.local/feeds").transport,
        Transport::Streaming(LinkState::Connecting)
    );
}

#[test]
fn unsupported_url_is_refused() {
    let r = Metrics::new("ftp://rtls.local".to_string(), "key".to_string(), 7, anchor(), UNIT_SCALE);
    assert_eq!(r.unwrap_err(), Error::UnsupportedScheme("ftp".to_string()));
    let r = Metrics::new("not a url".to_string(), "key".to_string(), 7, anchor(), UNIT_SCALE);
    assert_eq!(r.unwrap_err(), Error::InvalidVariable("FOOTPRINT_API_URL".to_string()));
}

#[test]
fn polling_endpoint_appends_entity_id() {
    assert_eq!(metrics("http://rtls.local/api/feeds").endpoint(), "http://rtls.local/api/feeds/7");
}

#[test]
fn reading_calibrates_an_update() {
    let m = metrics("http://rtls.local");
    let e = entity("42", vec![stream("posX", "1"), stream("posY", "0")]);
    let r = m.reading(&e).unwrap();
    assert_eq!(r.id, 42);
    assert_eq!(r.location.global.latitude, 10_000_000_000 + 8_983);
    assert_eq!(r.location.global.longitude, 20_000_000_000);
    assert_eq!(r.location.global.error_m, 5_000);
    let bad_id = entity("tag-1", vec![stream("posX", "1"), stream("posY", "0")]);
    assert_eq!(m.reading(&bad_id), Err(Error::Parse));
}

#[test]
fn reading_applies_scale() {
    let scale = LocationVectorScale { latitude: 2_000_000, longitude: 1_000_000 };
    let m = Metrics::new("http://h".to_string(), "k".to_string(), 1, anchor(), scale).unwrap();
    let e = entity("1", vec![stream("posX", "0.5"), stream("posY", "0")]);
    assert_eq!(m.reading(&e).unwrap().location.global.latitude, 10_000_000_000 + 8_983);
}

fn subscribed() -> Metrics {
    let mut m = metrics("ws://rtls.local");
    assert!(matches!(m.step(StreamEvent::Connected), StreamAction::Subscribe));
    assert_eq!(m.transport, Transport::Streaming(LinkState::Subscribed));
    m
}

#[test]
fn stream_skips_malformed_frame_then_delivers() {
    let mut m = subscribed();
    assert!(matches!(m.step(StreamEvent::Next), StreamAction::ReadFrame));
    assert!(matches!(m.step(StreamEvent::Text(None)), StreamAction::ReadFrame));
    let no_channels = entity("3", vec![stream("posX", "1")]);
    assert!(matches!(m.step(StreamEvent::Text(Some(no_channels))), StreamAction::ReadFrame));
    assert!(matches!(m.step(StreamEvent::Other), StreamAction::ReadFrame));
    let valid = entity("3", vec![stream("posX", "0"), stream("posY", "0")]);
    match m.step(StreamEvent::Text(Some(valid))) {
        StreamAction::Deliver(o) => {
            assert_eq!(o.id, 3);
            assert_eq!(o.location.global, anchor().location);
        }
        other => panic!("unexpected action {other:?}"),
    }
    assert_eq!(m.transport, Transport::Streaming(LinkState::Subscribed));
}

#[test]
fn stream_idle_sends_one_keepalive_then_waits() {
    let mut m = subscribed();
    m.step(StreamEvent::Next);
    assert!(matches!(m.step(StreamEvent::Idle), StreamAction::SendKeepalive));
    assert_eq!(m.transport, Transport::Streaming(LinkState::KeepaliveSent));
    assert!(matches!(m.step(StreamEvent::Other), StreamAction::ReadFrame));
    assert_eq!(m.transport, Transport::Streaming(LinkState::WaitingForFrame));
}

#[test]
fn stream_failure_is_terminal() {
    let mut m = subscribed();
    m.step(StreamEvent::Next);
    assert!(matches!(m.step(StreamEvent::Broken), StreamAction::Fail(Error::Transport)));
    assert!(matches!(m.step(StreamEvent::Next), StreamAction::Fail(Error::Transport)));
    assert!(matches!(m.step(StreamEvent::Connected), StreamAction::Fail(Error::Transport)));
    assert_eq!(m.transport, Transport::Streaming(LinkState::Failed));
}

#[test]
fn stream_connect_failure_fails() {
    let mut m = metrics("ws://rtls.local");
    assert!(matches!(m.step(StreamEvent::Broken), StreamAction::Fail(Error::Transport)));
}

#[test]
fn stream_ignores_frames_without_request() {
    let mut m = subscribed();
    assert!(matches!(m.step(StreamEvent::Idle), StreamAction::Stay));
    assert_eq!(m.transport, Transport::Streaming(LinkState::Subscribed));
}

#[test]
fn subscribe_handshake() {
    assert_eq!(
        subscribe_message("abc"),
        "{\"headers\":{\"X-ApiKey\":\"abc\"},\"method\":\"subscribe\",\"resource\":\"/feeds/\"}"
    );
    assert_eq!(
        subscribe_message("a\"b\\"),
        "{\"headers\":{\"X-ApiKey\":\"a\\\"b\\\\\"},\"method\":\"subscribe\",\"resource\":\"/feeds/\"}"
    );
    assert_eq!(
        subscribe_message_text("\"k\""),
        "{\"headers\":{\"X-ApiKey\":\"k\"},\"method\":\"subscribe\",\"resource\":\"/feeds/\"}"
    );
}

#[test]
fn trim_strips_unicode_white_space() {
    assert_eq!(trim_text("  a b \t\n"), "a b");
    assert_eq!(trim_text("\u{3000}\u{a0}x\u{2028}"), "x");
    assert_eq!(trim_text(" \u{85} "), "");
    assert_eq!(trim_text(""), "");
    assert_eq!(trim_text("\u{200b}x"), "\u{200b}x");
    assert_eq!(stream("posY", "\u{3000}1.5\u{a0}").parse_value(), Ok(1_500));
}
