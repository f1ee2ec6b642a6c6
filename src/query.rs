//! The metrics-store side: which series a location is stored in, how the
//! store's answers are read, and how three series make one location.

use vstd::prelude::*;

use crate::consts::{
    LABEL_KIND, LABEL_NAME, LABEL_NAMESPACE, METRIC_ERROR_M, METRIC_LATITUDE, METRIC_LONGITUDE,
};
use crate::decimal::{
    bounded_units, i64_text, is_number_text, parse_decimal, signed_decimal_text, writes_number,
};
use crate::error::Error;
use crate::location::{GlobalLocation, LocalLocation, Location, COORD_LIMIT};

verus! {

/// Fractional digits kept of a latitude or longitude sample, which is written
/// in degrees: samples are in nanodegrees.
pub const DEGREE_DIGITS: u32 = 9;

/// Fractional digits kept of an error radius sample, which is written in
/// metres: samples are in millimetres.
pub const METRE_DIGITS: u32 = 3;

/// Identifies a tracked entity's series in the store.
#[derive(Clone, Debug, PartialEq, Eq)]
pub struct DataRef {
    pub kind: String,
    pub name: String,
    pub namespace: Option<String>,
}

/// A location together with the entity it belongs to.
#[derive(Clone, Debug, PartialEq, Eq)]
pub struct LocationData {
    pub data: DataRef,
    pub location: Location,
}

/// The labels of one series in an answer of the store.
#[derive(Clone, Debug, PartialEq, Eq)]
pub struct QueryMetric {
    pub kind: String,
    pub name: String,
    pub namespace: Option<String>,
}

/// One series of an answer: its labels and its sample, `[timestamp, value]`,
/// each as the text the store wrote (a number or a string holding one).
#[derive(Clone, Debug, PartialEq, Eq)]
pub struct QueryData {
    pub metric: QueryMetric,
    pub value: Vec<String>,
}

/// The result of an instant query: a vector of series.
#[derive(Clone, Debug, PartialEq, Eq)]
pub enum QueryResult {
    Vector(Vec<QueryData>),
}

/// A successful answer of the store.
#[derive(Clone, Debug, PartialEq, Eq)]
pub enum QueryResponse {
    Success { data: QueryResult },
}

/// What `{:?}` writes of a string: the string quoted, with its special
/// characters escaped.
pub uninterp spec fn debug_quoted(s: Seq<char>) -> Seq<char>;

/// Relies on `str`'s `Debug`: a quoted and escaped copy of the string, a
/// function of the characters alone.
#[verifier::external_body]
fn quoted(s: &str) -> (r: String)
    ensures
        r@ == debug_quoted(s@),
{
    format!("{s:?}")
}

/// The namespace, empty when there is none.
pub open spec fn namespace_text(namespace: Option<String>) -> Seq<char> {
    match namespace {
        Some(ns) => ns@,
        None => Seq::empty(),
    }
}

/// The label matchers built from the quoted kind, name and namespace.
pub open spec fn label_matchers(kind: Seq<char>, name: Seq<char>, namespace: Seq<char>) -> Seq<
    char,
> {
    LABEL_KIND@ + "="@ + kind + ","@ + LABEL_NAME@ + "="@ + name + ","@ + LABEL_NAMESPACE@ + "="@
        + namespace
}

/// The label matchers that select the series of `d`.
pub open spec fn label_text(d: DataRef) -> Seq<char> {
    label_matchers(
        debug_quoted(d.kind@),
        debug_quoted(d.name@),
        debug_quoted(namespace_text(d.namespace)),
    )
}

/// The label matchers of the series of an entity, from its kind, name and
/// namespace as already quoted.
pub fn label_matchers_text(kind: &str, name: &str, namespace: &str) -> (r: String)
    ensures
        r@ == label_matchers(kind@, name@, namespace@),
{
    let mut r = String::from_str(LABEL_KIND);
    r.append("=");
    r.append(kind);
    r.append(",");
    r.append(LABEL_NAME);
    r.append("=");
    r.append(name);
    r.append(",");
    r.append(LABEL_NAMESPACE);
    r.append("=");
    r.append(namespace);
    r
}

/// The query that selects the series `metric` of `d`.
pub open spec fn series_query(metric: Seq<char>, d: DataRef) -> Seq<char> {
    metric + "{"@ + label_text(d) + "}"@
}

/// The option is absent or holds an empty string.
pub fn is_empty(value: &Option<String>) -> (r: bool)
    ensures
        r == (namespace_text(*value).len() == 0),
{
    match value {
        Some(value) => value.as_str().is_empty(),
        None => true,
    }
}

impl DataRef {
    /// The label matchers that select this entity's series.
    pub fn labels(&self) -> (r: String)
        ensures
            r@ == label_text(*self),
    {
        let namespace = match &self.namespace {
            Some(ns) => quoted(ns.as_str()),
            None => quoted(""),
        };
        proof {
            if self.namespace is None {
                assert(""@ =~= Seq::<char>::empty()) by {
                    reveal_strlit("");
                }
            }
        }
        label_matchers_text(
            quoted(self.kind.as_str()).as_str(),
            quoted(self.name.as_str()).as_str(),
            namespace.as_str(),
        )
    }

    /// The queries of this entity's error radius, latitude and longitude.
    pub fn raw_queries(&self) -> (r: (String, String, String))
        ensures
            r.0@ == series_query(METRIC_ERROR_M@, *self),
            r.1@ == series_query(METRIC_LATITUDE@, *self),
            r.2@ == series_query(METRIC_LONGITUDE@, *self),
    {
        let labels = self.labels();
        (
            series_query_text(METRIC_ERROR_M, &labels),
            series_query_text(METRIC_LATITUDE, &labels),
            series_query_text(METRIC_LONGITUDE, &labels),
        )
    }
}

fn series_query_text(metric: &str, labels: &String) -> (r: String)
    ensures
        r@ == metric@ + "{"@ + labels@ + "}"@,
{
    let mut r = String::from_str(metric);
    r.append("{");
    r.append(labels.as_str());
    r.append("}");
    r
}

/// The path of the instant-query endpoint under the store's base path.
pub fn query_path(base: &str) -> (r: String)
    ensures
        r@ == base@ + "/api/v1/query"@,
{
    let mut r = String::from_str(base);
    r.append("/api/v1/query");
    r
}

/// The query string of an instant query evaluated at `time` (Unix seconds).
pub fn query_params(query: &str, time: i64) -> (r: String)
    ensures
        r@ == "query="@ + query@ + "&time="@ + signed_decimal_text(time as int),
{
    let mut r = String::from_str("query=");
    r.append(query);
    r.append("&time=");
    r.append(i64_text(time).as_str());
    r
}

/// An answer of the store is acceptable when its status is a success (2xx);
/// otherwise the failure carries the status's reason.
pub fn upstream_status(code: u16, reason: &str) -> (r: Result<(), Error>)
    ensures
        200 <= code <= 299 ==> r is Ok,
        !(200 <= code <= 299) ==> (r matches Err(Error::UpstreamStatus(s)) && s@ == reason@),
{
    if 200 <= code && code <= 299 {
        Ok(())
    } else {
        Err(Error::UpstreamStatus(reason.to_owned()))
    }
}

/// A sample as the store writes it: a decimal number, or one of the special
/// values `NaN`, `+Inf` and `-Inf`.
pub open spec fn sample_text(t: Seq<char>) -> bool {
    writes_number(t) || t == "NaN"@ || t == "+Inf"@ || t == "-Inf"@
}

/// Every value of every series is a sample as the store writes it.
pub open spec fn samples_ok(data: Seq<QueryData>) -> bool {
    forall|i: int, j: int|
        0 <= i < data.len() && 0 <= j < data[i].value@.len() ==> sample_text(
            #[trigger] data[i].value@[j]@,
        )
}

/// Whether `t` is a sample as the store writes it.
pub fn is_sample_text(t: &String) -> (r: bool)
    ensures
        r == sample_text(t@),
{
    is_number_text(t.as_str()) || *t == String::from_str("NaN") || *t == String::from_str("+Inf")
        || *t == String::from_str("-Inf")
}

/// The series of an answer.
pub open spec fn answer_series(answer: QueryResponse) -> Vec<QueryData> {
    match answer {
        QueryResponse::Success { data: QueryResult::Vector(v) } => v,
    }
}

impl QueryResponse {
    /// The series of a successful vector answer, where every value in them is
    /// a sample as the store writes it; otherwise the answer is malformed.
    pub fn samples(self) -> (r: Result<Vec<QueryData>, Error>)
        ensures
            if samples_ok(answer_series(self)@) {
                r == Ok::<Vec<QueryData>, Error>(answer_series(self))
            } else {
                r == Err::<Vec<QueryData>, Error>(Error::Parse)
            },
    {
        let data = match self {
            QueryResponse::Success { data } => match data {
                QueryResult::Vector(data) => data,
            },
        };
        let mut i: usize = 0;
        while i < data.len()
            invariant
                i <= data@.len(),
                data == answer_series(self),
                forall|a: int, b: int|
                    0 <= a < i && 0 <= b < data@[a].value@.len() ==> sample_text(
                        #[trigger] data@[a].value@[b]@,
                    ),
            decreases data@.len() - i,
        {
            let values = &data[i].value;
            let mut j: usize = 0;
            while j < values.len()
                invariant
                    i < data@.len(),
                    data == answer_series(self),
                    *values == data@[i as int].value,
                    j <= values@.len(),
                    forall|b: int| 0 <= b < j ==> sample_text(#[trigger] values@[b]@),
                decreases values@.len() - j,
            {
                if !is_sample_text(&values[j]) {
                    assert(!sample_text(data@[i as int].value@[j as int]@));
                    return Err(Error::Parse);
                }
                j = j + 1;
            }
            i = i + 1;
        }
        Ok(data)
    }
}

/// The value of the last series of an answer, where that series has one.
pub open spec fn last_value(data: Seq<QueryData>) -> Option<String> {
    if data.len() > 0 && data.last().value@.len() > 1 {
        Some(data.last().value@[1])
    } else {
        None
    }
}

/// The value text of the last series, where it has a value.
pub fn last_sample_value(data: &Vec<QueryData>) -> (r: Option<String>)
    ensures
        r == last_value(data@),
{
    let n = data.len();
    if n == 0 {
        return None;
    }
    let last = &data[n - 1];
    if last.value.len() > 1 {
        Some(last.value[1].clone())
    } else {
        None
    }
}

/// An error radius sample: metres as millimetres, not negative.
pub open spec fn error_sample(text: Seq<char>) -> Option<int> {
    match bounded_units(text, METRE_DIGITS as nat, i64::MAX as int) {
        Some(v) => if v >= 0 {
            Some(v)
        } else {
            None
        },
        None => None,
    }
}

/// A latitude or longitude sample: degrees as nanodegrees.
pub open spec fn degree_sample(text: Seq<char>) -> Option<int> {
    bounded_units(text, DEGREE_DIGITS as nat, COORD_LIMIT as int)
}

/// The sample, where there is one, reads.
pub open spec fn sample_reads(sample: Option<String>, read: spec_fn(Seq<char>) -> Option<int>) -> bool {
    match sample {
        Some(t) => read(t@) is Some,
        None => true,
    }
}

fn read_error_sample(sample: &Option<String>) -> (r: Result<Option<u64>, Error>)
    ensures
        match sample {
            Some(t) => match error_sample(t@) {
                Some(v) => r == Ok::<Option<u64>, Error>(Some(v as u64)),
                None => r == Err::<Option<u64>, Error>(Error::Parse),
            },
            None => r == Ok::<Option<u64>, Error>(None),
        },
{
    match sample {
        Some(t) => match parse_decimal(t.as_str(), METRE_DIGITS, i64::MAX as u64) {
            Some(v) => if v >= 0 {
                Ok(Some(v as u64))
            } else {
                Err(Error::Parse)
            },
            None => Err(Error::Parse),
        },
        None => Ok(None),
    }
}

fn read_degree_sample(sample: &Option<String>) -> (r: Result<Option<i64>, Error>)
    ensures
        match sample {
            Some(t) => match degree_sample(t@) {
                Some(v) => r == Ok::<Option<i64>, Error>(Some(v as i64)),
                None => r == Err::<Option<i64>, Error>(Error::Parse),
            },
            None => r == Ok::<Option<i64>, Error>(None),
        },
{
    match sample {
        Some(t) => match parse_decimal(t.as_str(), DEGREE_DIGITS, COORD_LIMIT as u64) {
            Some(v) => Ok(Some(v)),
            None => Err(Error::Parse),
        },
        None => Ok(None),
    }
}

/// The stored location of an entity from the last values of its three series.
///
/// A value that does not read fails the whole; otherwise a series without a
/// value gives no location, and three values give the location they hold, with
/// no local reading.
pub fn raw_location(
    error_m: Option<String>,
    latitude: Option<String>,
    longitude: Option<String>,
) -> (r: Result<Option<Location>, Error>)
    ensures
        !sample_reads(error_m, |t| error_sample(t)) || !sample_reads(latitude, |t| degree_sample(t))
            || !sample_reads(longitude, |t| degree_sample(t)) ==> r == Err::<
            Option<Location>,
            Error,
        >(Error::Parse),
        sample_reads(error_m, |t| error_sample(t)) && sample_reads(latitude, |t| degree_sample(t))
            && sample_reads(longitude, |t| degree_sample(t)) ==> match (
            error_m,
            latitude,
            longitude,
        ) {
            (Some(e), Some(la), Some(lo)) => r == Ok::<Option<Location>, Error>(
                Some(
                    Location {
                        global: GlobalLocation {
                            error_m: error_sample(e@).unwrap() as u64,
                            latitude: degree_sample(la@).unwrap() as i64,
                            longitude: degree_sample(lo@).unwrap() as i64,
                        },
                        local: LocalLocation { x: 0, y: 0, error_m: 0 },
                    },
                ),
            ),
            _ => r == Ok::<Option<Location>, Error>(None),
        },
{
    let e = read_error_sample(&error_m);
    let la = read_degree_sample(&latitude);
    let lo = read_degree_sample(&longitude);
    match (e, la, lo) {
        (Ok(e), Ok(la), Ok(lo)) => match (e, la, lo) {
            (Some(e), Some(la), Some(lo)) => Ok(
                Some(
                    Location {
                        global: GlobalLocation { error_m: e, latitude: la, longitude: lo },
                        local: LocalLocation { x: 0, y: 0, error_m: 0 },
                    },
                ),
            ),
            _ => Ok(None),
        },
        _ => Err(Error::Parse),
    }
}

} // verus!
