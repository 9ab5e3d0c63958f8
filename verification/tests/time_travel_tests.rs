use uni_db::errors::UniError;
use uni_db::time_travel::{no_snapshot_error, time_travel_target, timestamp_target, TimeTravelSpec, TravelTarget};

#[test]
fn time_travel_targets() {
    assert_eq!(
        time_travel_target(TimeTravelSpec::Version("snap-1".to_string())),
        Ok(TravelTarget::Snapshot("snap-1".to_string()))
    );
    assert_eq!(
        time_travel_target(TimeTravelSpec::Timestamp("2024-01-02T03:04:05Z".to_string())),
        Ok(TravelTarget::AtInstant { secs: 1704164645, nanos: 0 })
    );
    assert_eq!(
        time_travel_target(TimeTravelSpec::Timestamp("2024-01-02T03:04:05.5+01:00".to_string())),
        Ok(TravelTarget::AtInstant { secs: 1704161045, nanos: 500_000_000 })
    );
    let e = chrono::DateTime::parse_from_rfc3339("yesterday").unwrap_err().to_string();
    assert_eq!(
        time_travel_target(TimeTravelSpec::Timestamp("yesterday".to_string())),
        Err(UniError::Parse { message: format!("Invalid timestamp 'yesterday': {e}"), context: None })
    );
    assert_eq!(
        timestamp_target("t", Err("bad".to_string())),
        Err(UniError::Parse { message: "Invalid timestamp 't': bad".to_string(), context: None })
    );
    assert_eq!(
        no_snapshot_error("2024-01-02 03:04:05 UTC"),
        UniError::Query { message: "No snapshot found at or before 2024-01-02 03:04:05 UTC".to_string(), query: None }
    );
}
