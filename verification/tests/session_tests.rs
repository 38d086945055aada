use energy_core::measurement::Measurement;
use energy_core::session::{MeasurementSession, MultiSourceSession};
use energy_core::errors::{EnergyError, HardwareError};

fn reading(source: &str, timestamp_ns: u64, energy_uj: u64) -> Measurement {
    Measurement {
        timestamp_ns,
        source: source.to_string(),
        energy_uj,
        power_uw: 50_000_000,
        extra_metrics: Vec::new(),
    }
}

#[test]
fn test_measurement_session_creation() {
    let start = reading("test", 1_000_000_000, 100_000_000);
    let end = reading("test", 2_000_000_000, 150_000_000);

    let session = MeasurementSession::from_measurements(start.clone(), end.clone());

    assert_eq!(session.duration_ns, 1_000_000_000);
    assert_eq!(session.total_energy_uj, 50_000_000);
    assert_eq!(session.start.energy_uj, 100_000_000);
    assert_eq!(session.end.energy_uj, 150_000_000);
}

#[test]
fn test_multi_source_session() {
    let mut session = MultiSourceSession::new();

    let t0: u64 = 10_000_000_000;
    let t1: u64 = t0 + 1_000_000_000;
    session.add_start_measurement(reading("source1", t0, 100_000_000));
    session.add_start_measurement(reading("source2", t0, 200_000_000));
    session.add_end_measurement(reading("source1", t1, 150_000_000));
    session.add_end_measurement(reading("source2", t1, 300_000_000));

    session.end();

    // (150 - 100) + (300 - 200) joules.
    assert_eq!(session.total_energy(), 150_000_000);
    assert!(session.average_power().unwrap() > 0);

    let source_sessions = session.get_source_sessions();
    assert_eq!(source_sessions.len(), 2);
    assert_eq!(source_sessions[0].total_energy_uj, 50_000_000);
    assert_eq!(source_sessions[1].total_energy_uj, 100_000_000);
}

#[test]
fn test_energy_error_creation() {
    let error = EnergyError::HardwareError(HardwareError::SensorError("test".to_string()));
    assert!(error.message().contains("test"));

    let error = EnergyError::LanguageError("test".to_string());
    assert!(error.message().contains("test"));

    let error = EnergyError::MeasurementError("test".to_string());
    assert!(error.message().contains("test"));
}

#[test]
fn empty_session_has_zero_total() {
    let session = MultiSourceSession::new_at(5);
    assert_eq!(session.total_energy(), 0);
    assert!(session.duration().is_none());
    assert!(session.average_power().is_none());
    assert!(session.missing_sources().is_empty());
}

#[test]
fn zero_duration_average_power_is_zero() {
    let mut session = MultiSourceSession::new_at(42);
    session.add_start_measurement(reading("a", 1, 100_000_000));
    session.add_end_measurement(reading("a", 1, 150_000_000));
    session.end_at(42);
    assert_eq!(session.duration(), Some(0));
    assert_eq!(session.average_power(), Some(0));
}

#[test]
fn average_power_is_exact() {
    let mut session = MultiSourceSession::new_at(0);
    session.add_start_measurement(reading("a", 0, 100_000_000));
    session.add_end_measurement(reading("a", 2_000_000_000, 150_000_000));
    session.end_at(2_000_000_000);
    assert_eq!(session.duration(), Some(2_000_000_000));
    // 50 J over 2 s is 25 W.
    assert_eq!(session.average_power(), Some(25_000_000));
}

#[test]
fn one_sided_source_contributes_zero_and_is_reported() {
    let mut session = MultiSourceSession::new_at(0);
    session.add_start_measurement(reading("both", 0, 100_000_000));
    session.add_start_measurement(reading("only-start", 0, 7_000_000));
    session.add_end_measurement(reading("both", 10, 160_000_000));
    session.add_end_measurement(reading("only-end", 10, 9_000_000));

    assert_eq!(session.total_energy(), 60_000_000);
    let missing = session.missing_sources();
    assert_eq!(missing, vec!["only-start".to_string(), "only-end".to_string()]);
}

#[test]
fn add_measurement_overwrites_per_source() {
    let mut session = MultiSourceSession::new_at(0);
    session.add_start_measurement(reading("a", 0, 1_000_000));
    session.add_start_measurement(reading("a", 5, 2_000_000));
    session.add_end_measurement(reading("a", 10, 5_000_000));
    assert_eq!(session.total_energy(), 3_000_000);
    assert_eq!(session.get_source_sessions().len(), 1);
}

#[test]
fn end_is_idempotent() {
    let mut session = MultiSourceSession::new_at(100);
    session.end_at(175);
    session.end_at(300);
    assert_eq!(session.duration(), Some(75));
}

#[test]
fn get_measurements_returns_the_pair() {
    let mut session = MultiSourceSession::new_at(0);
    session.add_start_measurement(reading("a", 1, 10_000_000));
    session.add_end_measurement(reading("a", 2, 30_000_000));

    let (start, end) = session.get_measurements(&"a".to_string()).unwrap();
    assert_eq!(start.energy_uj, 10_000_000);
    assert_eq!(end.energy_uj, 30_000_000);
    assert!(session.get_measurements(&"b".to_string()).is_none());
}

#[test]
fn monotonic_corrected_pair_yields_nonnegative_session() {
    // A later timestamp and a corrected cumulative reading that did not
    // decrease always give a non-negative duration and energy delta.
    let start = reading("cpu", 1_000, 90_000_000);
    let end = reading("cpu", 1_001, 90_000_000);
    let session = MeasurementSession::from_measurements(start, end);
    assert!(session.duration_ns > 0);
    assert!(session.total_energy_uj >= 0);
}

#[test]
fn negative_delta_is_reported_signed() {
    let mut session = MultiSourceSession::new_at(0);
    session.add_start_measurement(reading("a", 0, 90_000_000));
    session.add_end_measurement(reading("a", 10, 40_000_000));
    assert_eq!(session.total_energy(), -50_000_000);
}
