use energy_core::errors::HardwareError;
use energy_core::measurement::Measurement;
use energy_core::plugins::{
    get_available_plugins,
    init,
    is_amd_energy_available,
    is_arm_energy_available,
    is_nvidia_gpu_available,
    is_rapl_available,
    AmdEnergyPlugin,
    ArmEnergyPlugin,
    BasePlugin,
    DefaultPluginImpl,
    IntelRaplPlugin,
    NvidiaGpuPlugin,
    PluginConfig,
    SimulatedPlugin,
};
use energy_core::registry::{HardwarePlugin, PluginRegistry};

fn scripted(name: &str, energies_uj: &[u64]) -> SimulatedPlugin {
    let readings: Vec<Measurement> = energies_uj
        .iter()
        .enumerate()
        .map(|(i, &e)| Measurement {
            timestamp_ns: i as u64,
            source: name.to_string(),
            energy_uj: e,
            power_uw: 0,
            extra_metrics: Vec::new(),
        })
        .collect();
    SimulatedPlugin::new(name.to_string(), true, readings)
}

#[test]
fn registry_holds_every_compiled_in_variant() {
    let registry = PluginRegistry::new();
    assert_eq!(registry.get_plugins().len(), 4);
    assert_eq!(registry.get_available_plugins().len(), 4);
}

#[test]
fn plugin_lookup_is_by_name() {
    let registry = PluginRegistry::new();
    let plugin = registry.get_plugin_by_name("intel-rapl").unwrap();
    assert_eq!(plugin.name(), "intel-rapl");
    assert!(registry.get_plugin_by_name("no-such-plugin").is_none());
}

#[test]
fn unavailable_plugin_never_appears_in_available_list() {
    let mut registry = PluginRegistry::new();
    let mut off = scripted("off-source", &[1_000_000]);
    off.available = false;
    registry.register_plugin(HardwarePlugin::Simulated(off));
    registry.register_plugin(HardwarePlugin::Simulated(scripted("on-source", &[1_000_000])));

    assert_eq!(registry.get_plugins().len(), 6);
    let available = registry.get_available_plugins();
    assert_eq!(available.len(), 5);
    for plugin in available {
        assert!(plugin.is_available());
        assert_ne!(plugin.name(), "off-source");
    }
}

#[test]
fn simulated_plugin_consumes_its_script() {
    let mut plugin = scripted("sim", &[10_000_000, 20_000_000]);
    assert_eq!(plugin.get_measurement().unwrap().energy_uj, 10_000_000);
    assert_eq!(plugin.get_measurement().unwrap().energy_uj, 20_000_000);
    let err = plugin.get_measurement().unwrap_err();
    assert!(matches!(err, HardwareError::SensorError(_)));
}

#[test]
fn simulated_plugin_guards_start_and_stop() {
    let mut plugin = scripted("sim", &[]);
    assert!(plugin.stop_measurement().is_err());
    assert!(plugin.start_measurement().is_ok());
    let err = plugin.start_measurement().unwrap_err();
    assert!(matches!(err, HardwareError::UnsupportedOperation(_)));
    assert!(plugin.stop_measurement().is_ok());
}

#[test]
fn stub_plugins_report_their_identity() {
    let intel = IntelRaplPlugin::new().unwrap();
    assert_eq!(intel.base.name(), "intel-rapl");
    assert!(intel.base.is_enabled());
    assert!(!DefaultPluginImpl::is_supported(&intel));
    assert!(intel.read_measurements().unwrap().is_empty());

    let amd = AmdEnergyPlugin::new().unwrap();
    assert_eq!(amd.base.name(), "amd-energy");
    assert!(amd.read_measurements().unwrap().is_empty());

    let arm = ArmEnergyPlugin::new().unwrap();
    assert_eq!(arm.base.name(), "arm-energy");
    assert!(arm.read_measurements().unwrap().is_empty());

    let nvidia = NvidiaGpuPlugin::new().unwrap();
    assert_eq!(nvidia.base.name(), "nvidia-gpu");
    assert_eq!(nvidia.base.device_path(), "/sys/class/drm/card0/device/power");
}

#[test]
fn base_plugin_exposes_its_fields() {
    let base = BasePlugin::new("name", "a description", "/dev/null-device".to_string());
    assert_eq!(base.name(), "name");
    assert_eq!(base.description(), "a description");
    assert!(base.is_enabled());
    assert_eq!(base.device_path(), "/dev/null-device");
}

#[test]
fn plugin_config_default_values() {
    let config = PluginConfig::default();
    assert_eq!(config.sampling_interval_ms, 1000);
    assert!(config.enabled_sources.is_empty());
    assert_eq!(config.log_level, "info");
}

#[test]
fn availability_probes_report_unavailable() {
    assert!(!is_rapl_available());
    assert!(!is_amd_energy_available());
    assert!(!is_arm_energy_available());
    assert!(!is_nvidia_gpu_available());
}

#[test]
fn plugin_machinery_initializes() {
    assert!(init().is_ok());
    assert!(get_available_plugins().is_empty());
}

#[test]
fn plugin_enum_reads_and_reports() {
    let mut plugin = HardwarePlugin::Simulated(scripted("sim", &[3_000_000]));
    assert_eq!(plugin.name(), "sim");
    assert!(plugin.is_available());
    assert!(plugin.initialize().is_ok());
    let metrics = plugin.supported_metrics();
    assert!(metrics.contains(&"power"));
    assert!(metrics.contains(&"energy"));
    let m = plugin.get_measurement().unwrap();
    assert_eq!(m.source, "sim");
    assert_eq!(m.energy_uj, 3_000_000);

    let mut stub = HardwarePlugin::IntelRapl(IntelRaplPlugin::new().unwrap());
    let zero = stub.get_measurement().unwrap();
    assert_eq!(zero.source, "intel-rapl");
    assert_eq!(zero.energy_uj, 0);
}
