use footprint::query::{
    label_matchers_text, last_sample_value, query_params, query_path, raw_location, upstream_status,
};
use footprint::{
    is_empty, DataRef, Error, GlobalLocation, LocalLocation, QueryData, QueryMetric,
    QueryResponse, QueryResult,
};

fn data_ref(namespace: Option<&str>) -> DataRef {
    DataRef {
        kind: "person".to_string(),
        name: "alice".to_string(),
        namespace: namespace.map(|s| s.to_string()),
    }
}

fn sample(value: &str) -> QueryData {
    QueryData {
        metric: QueryMetric { kind: "person".to_string(), name: "alice".to_string(), namespace: None },
        value: vec!["1700000000.5".to_string(), value.to_string()],
    }
}

fn some(s: &str) -> Option<String> {
    Some(s.to_string())
}

#[test]
fn labels_quote_each_value() {
    assert_eq!(
        data_ref(None).labels(),
        "footprint_kind=\"person\",footprint_name=\"alice\",footprint_namespace=\"\""
    );
    let d = DataRef { kind: "k".to_string(), name: "a\"b".to_string(), namespace: some("ns") };
    assert_eq!(d.labels(), "footprint_kind=\"k\",footprint_name=\"a\\\"b\",footprint_namespace=\"ns\"");
}

#[test]
fn raw_queries_select_three_series() {
    let (e, la, lo) = data_ref(Some("lab")).raw_queries();
    let labels = "footprint_kind=\"person\",footprint_name=\"alice\",footprint_namespace=\"lab\"";
    assert_eq!(e, format!("ulagbulag_footprint_error_m{{{labels}}}"));
    assert_eq!(la, format!("ulagbulag_footprint_latitude{{{labels}}}"));
    assert_eq!(lo, format!("ulagbulag_footprint_longitude{{{labels}}}"));
}

#[test]
fn raw_location_needs_all_three_series() {
    assert_eq!(raw_location(some("5"), None, some("20")), Ok(None));
    assert_eq!(raw_location(None, some("10"), some("20")), Ok(None));
    assert_eq!(raw_location(None, None, None), Ok(None));
}

#[test]
fn raw_location_holds_the_three_values() {
    let r = raw_location(some("5"), some("10.5"), some("-20.25")).unwrap().unwrap();
    assert_eq!(
        r.global,
        GlobalLocation { error_m: 5_000, latitude: 10_500_000_000, longitude: -20_250_000_000 }
    );
    assert_eq!(r.local, LocalLocation { x: 0, y: 0, error_m: 0 });
}

#[test]
fn raw_location_reads_exponent_samples() {
    let r = raw_location(some("5e-1"), some("1.05e1"), some("-2e-7")).unwrap().unwrap();
    assert_eq!(r.global, GlobalLocation { error_m: 500, latitude: 10_500_000_000, longitude: -200 });
}

#[test]
fn raw_location_rejects_unreadable_values() {
    assert_eq!(raw_location(some("x"), some("1"), some("2")), Err(Error::Parse));
    assert_eq!(raw_location(some("-1"), some("1"), some("2")), Err(Error::Parse));
    assert_eq!(raw_location(some("1"), some("NaN"), None), Err(Error::Parse));
}

#[test]
fn last_sample_value_takes_last_series() {
    assert_eq!(last_sample_value(&vec![]), None);
    assert_eq!(last_sample_value(&vec![sample("1"), sample("2")]), some("2"));
    let short = QueryData { value: vec!["1".to_string()], ..sample("3") };
    assert_eq!(last_sample_value(&vec![sample("1"), short]), None);
}

#[test]
fn response_samples() {
    let r = QueryResponse::Success { data: QueryResult::Vector(vec![sample("1")]) };
    assert_eq!(r.samples(), Ok(vec![sample("1")]));
    let special = vec![sample("NaN"), sample("+Inf"), sample("-Inf"), sample("-0.25")];
    let r = QueryResponse::Success { data: QueryResult::Vector(special.clone()) };
    assert_eq!(r.samples(), Ok(special));
}

#[test]
fn response_with_unreadable_value_is_malformed() {
    let r = QueryResponse::Success { data: QueryResult::Vector(vec![sample("1"), sample("abc")]) };
    assert_eq!(r.samples(), Err(Error::Parse));
    let bad_time = QueryData { value: vec!["soon".to_string(), "1".to_string()], ..sample("1") };
    let r = QueryResponse::Success { data: QueryResult::Vector(vec![bad_time]) };
    assert_eq!(r.samples(), Err(Error::Parse));
    let r = QueryResponse::Success { data: QueryResult::Vector(vec![]) };
    assert_eq!(r.samples(), Ok(vec![]));
}

#[test]
fn status_check() {
    assert_eq!(upstream_status(200, "OK"), Ok(()));
    assert_eq!(upstream_status(204, "No Content"), Ok(()));
    assert_eq!(upstream_status(404, "Not Found"), Err(Error::UpstreamStatus("Not Found".to_string())));
    assert_eq!(upstream_status(302, "Found"), Err(Error::UpstreamStatus("Found".to_string())));
}

#[test]
fn query_url_parts() {
    assert_eq!(query_path("/prom"), "/prom/api/v1/query");
    assert_eq!(query_params("up", 1_700_000_000), "query=up&time=1700000000");
    assert_eq!(query_params("up", -5), "query=up&time=-5");
}

#[test]
fn empty_namespace() {
    assert!(is_empty(&None));
    assert!(is_empty(&some("")));
    assert!(!is_empty(&some("ns")));
}

#[test]
fn label_matchers_join_quoted_values() {
    assert_eq!(
        label_matchers_text("\"k\"", "\"n\"", "\"\""),
        "footprint_kind=\"k\",footprint_name=\"n\",footprint_namespace=\"\""
    );
}
