use footprint::dummy::{Metric, Metrics};
use footprint::{
    env_var, update, Error, GlobalLocation, LocalLocation, Location, LocationGauges,
    ObjectLocation, Tick,
};

#[test]
fn env_var_outcomes() {
    assert_eq!(env_var("A", None, 3, 1_000_000), Err(Error::MissingVariable("A".to_string())));
    assert_eq!(
        env_var("A", Some("x".to_string()), 3, 1_000_000),
        Err(Error::InvalidVariable("A".to_string()))
    );
    assert_eq!(
        env_var("A", Some("1001".to_string()), 3, 1_000_000),
        Err(Error::InvalidVariable("A".to_string()))
    );
    assert_eq!(env_var("A", Some("-2.5".to_string()), 3, 1_000_000), Ok(-2_500));
    assert_eq!(env_var("A", Some("1e2".to_string()), 3, 1_000_000), Ok(100_000));
}

#[test]
fn tick_from_seconds() {
    assert_eq!(Tick::new(Some("1.5".to_string())), Ok(Tick { interval_ms: 1_500 }));
    assert_eq!(Tick::new(Some("0".to_string())), Ok(Tick { interval_ms: 0 }));
    assert_eq!(Tick::new(Some("1e3".to_string())), Ok(Tick { interval_ms: 1_000_000 }));
    assert_eq!(Tick::new(Some("2.5E-1".to_string())), Ok(Tick { interval_ms: 250 }));
    assert_eq!(
        Tick::new(None),
        Err(Error::MissingVariable("FOOTPRINT_TICK_SEC".to_string()))
    );
    assert_eq!(
        Tick::new(Some("-1".to_string())),
        Err(Error::InvalidVariable("FOOTPRINT_TICK_SEC".to_string()))
    );
    assert_eq!(
        Tick::new(Some("soon".to_string())),
        Err(Error::InvalidVariable("FOOTPRINT_TICK_SEC".to_string()))
    );
}

#[test]
fn update_exports_global_part() {
    let mut gauges = LocationGauges::new();
    let location = ObjectLocation {
        id: 9,
        location: Location {
            global: GlobalLocation { error_m: 3, latitude: -4, longitude: 5 },
            local: LocalLocation { x: 1, y: 2, error_m: 6 },
        },
    };
    update(&mut gauges, location);
    assert_eq!(gauges, LocationGauges { error_m: 3, latitude: -4, longitude: 5 });
}

#[test]
fn walk_stays_within_radius() {
    let mut m = Metric::new(100, 10, false).unwrap();
    assert_eq!(m.next(3), 103);
    assert_eq!(m.next(50), 110);
    assert_eq!(m.next(-100), 90);
    assert_eq!(m.last, 90);
}

#[test]
fn positive_walk_never_goes_below_zero() {
    let mut m = Metric::new(2, 10, true).unwrap();
    assert_eq!(m.next(-5), 0);
    let mut n = Metric::new(2, 10, false).unwrap();
    assert_eq!(n.next(-5), -3);
}

#[test]
fn walk_refuses_range_outside_i64() {
    assert_eq!(Metric::new(i64::MAX, 1, false), None);
    assert_eq!(Metric::new(i64::MIN, 1, false), None);
    assert_eq!(Metric::new(i64::MAX, -1, false), None);
    assert!(Metric::new(i64::MAX - 1, 1, false).is_some());
}

#[test]
fn negative_radius_pins_walk_to_base_plus_radius() {
    let mut m = Metric::new(100, -10, false).unwrap();
    assert_eq!(m, Metric { base: 100, radius: -10, positive: false, last: 100 });
    assert_eq!(m.next(0), 90);
    assert_eq!(m.next(1_000), 90);
    assert_eq!(m.next(-1_000), 90);
}

#[test]
fn dummy_metrics_report_entity_zero() {
    let mut m = Metrics::new((5_000, 1_000), (10, 5), (20, 5)).unwrap();
    let r = m.next(-10_000, 2, -9);
    assert_eq!(
        r,
        ObjectLocation {
            id: 0,
            location: Location {
                global: GlobalLocation { error_m: 4_000, latitude: 12, longitude: 15 },
                local: LocalLocation { x: 0, y: 0, error_m: 0 },
            },
        }
    );
    assert_eq!(m.error_m, Metric { base: 5_000, radius: 1_000, positive: true, last: 4_000 });
    assert_eq!(m.latitude, Metric { base: 10, radius: 5, positive: false, last: 12 });
    assert_eq!(m.longitude, Metric { base: 20, radius: 5, positive: false, last: 15 });
    assert_eq!(Metrics::new((0, 1), (i64::MAX, 1), (0, 1)), None);
    assert!(Metrics::new((0, 1), (0, -1), (0, 1)).is_some());
}

#[test]
fn error_messages() {
    assert_eq!(
        Error::MissingVariable("A".to_string()).message(),
        "no such environment variable: A"
    );
    assert_eq!(
        Error::InvalidVariable("A".to_string()).message(),
        "failed to parse environment variable: A"
    );
    assert_eq!(Error::UnsupportedScheme("ftp".to_string()).message(), "unsupported scheme: ftp");
    assert_eq!(
        Error::ChannelMissing("posX".to_string()).message(),
        "failed to get datastream: posX"
    );
    assert_eq!(Error::Parse.message(), "malformed value");
    assert_eq!(Error::UpstreamStatus("Not Found".to_string()).message(), "Not Found");
    assert_eq!(Error::Transport.message(), "connection closed");
}
