use energy_core::adapters::{ArmPmuAdapter, BaseAdapter, IntelRaplAdapter, NvidiaGpuAdapter};
use energy_core::measurement::Measurement;
use energy_core::monitor::EnergyMonitor;
use energy_core::plugins::SimulatedPlugin;
use energy_core::registry::HardwarePlugin;

fn reading(source: &str, timestamp_ns: u64, energy_uj: u64) -> Measurement {
    Measurement {
        timestamp_ns,
        source: source.to_string(),
        energy_uj,
        power_uw: 0,
        extra_metrics: Vec::new(),
    }
}

fn simulated(source: &str, readings: Vec<Measurement>) -> HardwarePlugin {
    HardwarePlugin::Simulated(SimulatedPlugin::new(source.to_string(), true, readings))
}

#[test]
fn end_to_end_two_sources_aggregate() {
    let t0: u64 = 1_000_000_000;
    let t1: u64 = t0 + 100_000_000;  // 100 ms later

    let mut monitor = EnergyMonitor::new();
    monitor.register_plugin(simulated(
        "source-a",
        vec![reading("source-a", t0, 100_000_000), reading("source-a", t1, 150_000_000)],
    ));
    monitor.register_plugin(simulated(
        "source-b",
        vec![reading("source-b", t0, 200_000_000), reading("source-b", t1, 260_000_000)],
    ));

    // Both registered sources and the four compiled-in ones are exposed
    // as available.
    assert_eq!(monitor.get_plugins().len(), 6);

    let session = monitor.start_measurement().unwrap();
    let session = monitor.stop_measurement(session).unwrap();

    // (150 - 100) + (260 - 200) joules; the compiled-in sources report
    // zero energy and contribute nothing.
    assert_eq!(session.total_energy(), 110_000_000);
    assert!(session.duration().is_some());
    assert!(session.missing_sources().is_empty());

    let (start_a, end_a) = session.get_measurements(&"source-a".to_string()).unwrap();
    assert_eq!(end_a.timestamp_ns - start_a.timestamp_ns, 100_000_000);
    let (start_b, end_b) = session.get_measurements(&"source-b".to_string()).unwrap();
    assert_eq!(end_b.timestamp_ns - start_b.timestamp_ns, 100_000_000);

    for s in session.get_source_sessions() {
        if s.start.source == "source-a" {
            assert_eq!(s.duration_ns, 100_000_000);
            assert_eq!(s.total_energy_uj, 50_000_000);
        }
        if s.start.source == "source-b" {
            assert_eq!(s.duration_ns, 100_000_000);
            assert_eq!(s.total_energy_uj, 60_000_000);
        }
    }
}

#[test]
fn unavailable_source_is_never_read() {
    let mut monitor = EnergyMonitor::new();
    let off = SimulatedPlugin::new(
        "off-source".to_string(),
        false,
        vec![reading("off-source", 0, 1_000_000)],
    );
    monitor.register_plugin(HardwarePlugin::Simulated(off));

    assert_eq!(monitor.get_plugins().len(), 4);

    let session = monitor.start_measurement().unwrap();
    let session = monitor.stop_measurement(session).unwrap();
    assert!(session.get_measurements(&"off-source".to_string()).is_none());
}

#[test]
fn failing_source_is_excluded_and_reported() {
    let mut monitor = EnergyMonitor::new();
    // Only one scripted reading: the start read consumes it and the end
    // read fails, so the source ends up in the missing-sources report.
    monitor.register_plugin(simulated(
        "flaky",
        vec![reading("flaky", 0, 40_000_000)],
    ));
    monitor.register_plugin(simulated(
        "steady",
        vec![reading("steady", 0, 10_000_000), reading("steady", 5, 17_000_000)],
    ));

    let session = monitor.start_measurement().unwrap();
    let session = monitor.stop_measurement(session).unwrap();

    assert_eq!(session.total_energy(), 7_000_000);
    assert_eq!(session.missing_sources(), vec!["flaky".to_string()]);
}

#[test]
fn adapters_expose_stable_names() {
    let intel = IntelRaplAdapter::new(simulated("x", vec![]));
    assert_eq!(intel.name(), "intel_rapl");
    let arm = ArmPmuAdapter::new(simulated("x", vec![]));
    assert_eq!(arm.name(), "arm_pmu");
    let nvidia = NvidiaGpuAdapter::new(simulated("x", vec![]));
    assert_eq!(nvidia.name(), "nvidia_gpu");
}

#[test]
fn adapter_reads_one_measurement() {
    let mut adapter = IntelRaplAdapter::new(simulated(
        "sim",
        vec![reading("sim", 3, 12_000_000)],
    ));
    assert!(adapter.initialize().is_ok());
    let readings = adapter.read_measurements().unwrap();
    assert_eq!(readings.len(), 1);
    assert_eq!(readings[0].energy_uj, 12_000_000);
    // The script is exhausted: the next read fails.
    assert!(adapter.read_measurements().is_err());
    assert!(adapter.shutdown().is_ok());
}

#[test]
fn adapter_helpers_pair_measurements() {
    let start = reading("s", 1_000, 100_000_000);
    let end = reading("s", 51_000, 130_000_000);

    assert_eq!(BaseAdapter::calculate_duration(&start, &end), 50_000);
    assert_eq!(BaseAdapter::calculate_energy_delta(&start, &end), 30_000_000);

    let session = BaseAdapter::create_session(start, end);
    assert_eq!(session.duration_ns, 50_000);
    assert_eq!(session.total_energy_uj, 30_000_000);
}

#[test]
fn base_adapter_wraps_a_plugin() {
    let adapter = BaseAdapter::new("wrapped", simulated("inner", vec![]));
    assert_eq!(adapter.name(), "wrapped");
    assert_eq!(adapter.plugin().name(), "inner");
}
