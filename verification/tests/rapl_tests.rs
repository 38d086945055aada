use energy_core::errors::HardwareError;
use energy_core::rapl::{
    corrected_counter_delta,
    decode_power_unit,
    raw_energy_to_microjoules,
    register_value_from_bytes,
    IntelRAPLPlugin,
    MSR_DRAM_ENERGY_STATUS,
    MSR_PKG_ENERGY_STATUS,
    MSR_POWER_UNIT,
};

#[test]
fn test_rapl_plugin_initialization() {
    let plugin = IntelRAPLPlugin::new();
    assert_eq!(plugin.name(), "intel_rapl");
    assert!(plugin.description().contains("Intel RAPL"));
}

#[test]
fn test_rapl_supported_metrics() {
    let plugin = IntelRAPLPlugin::new();
    let metrics = plugin.supported_metrics();
    assert!(metrics.contains(&"power_watts"));
    assert!(metrics.contains(&"dram_energy_joules"));
}

#[test]
fn test_rapl_measurement_validation() {
    let mut plugin = IntelRAPLPlugin::new();

    // Test double start
    assert!(plugin.start_measurement().is_ok());
    assert!(plugin.start_measurement().is_err());

    // Test stop without start
    assert!(plugin.stop_measurement().is_ok());
    assert!(plugin.stop_measurement().is_err());
}

#[test]
fn double_start_is_unsupported_operation() {
    let mut plugin = IntelRAPLPlugin::new();
    plugin.start_measurement().unwrap();
    let err = plugin.start_measurement().unwrap_err();
    assert!(matches!(err, HardwareError::UnsupportedOperation(_)));
    plugin.stop_measurement().unwrap();
    let err = plugin.stop_measurement().unwrap_err();
    assert!(matches!(err, HardwareError::UnsupportedOperation(_)));
}

#[test]
fn register_addresses_are_the_documented_ones() {
    assert_eq!(MSR_POWER_UNIT, 0x606);
    assert_eq!(MSR_PKG_ENERGY_STATUS, 0x611);
    assert_eq!(MSR_DRAM_ENERGY_STATUS, 0x619);
}

#[test]
fn power_unit_register_decodes_bit_fields() {
    // power exponent 3 (bits 0..=3), energy exponent 14 (bits 8..=12),
    // time exponent 10 (bits 16..=19)
    let raw: u64 = 0x000A_0E03;
    let units = decode_power_unit(raw);
    assert_eq!(units.power_exp, 3);
    assert_eq!(units.energy_exp, 14);
    assert_eq!(units.time_exp, 10);
}

#[test]
fn overflow_correction_yields_eleven_joules() {
    // Raw readings 4294967290 then 5 on the 32-bit counter wrap around;
    // at an energy unit of 1 joule the corrected delta is 11 joules.
    let delta = corrected_counter_delta(4_294_967_290, 5);
    assert_eq!(delta, 11);
    assert_eq!(raw_energy_to_microjoules(delta, 0), 11_000_000);
}

#[test]
fn in_order_counter_delta_is_plain_difference() {
    assert_eq!(corrected_counter_delta(100, 250), 150);
    assert_eq!(corrected_counter_delta(250, 250), 0);
}

#[test]
fn energy_conversion_scales_by_unit_exponent() {
    // 2^14 counter steps at energy exponent 14 are exactly one joule.
    assert_eq!(raw_energy_to_microjoules(16_384, 14), 1_000_000);
    // One step is 1/2^14 J, rounded down to 61 microjoules.
    assert_eq!(raw_energy_to_microjoules(1, 14), 61);
}

#[test]
fn register_bytes_parse_little_endian() {
    let bytes: Vec<u8> = vec![0x03, 0x0E, 0x0A, 0, 0, 0, 0, 0];
    assert_eq!(register_value_from_bytes(&bytes).unwrap(), 0x000A_0E03);
    let max = vec![0xFF; 8];
    assert_eq!(register_value_from_bytes(&max).unwrap(), u64::MAX);
}

#[test]
fn truncated_register_read_is_sensor_error() {
    let bytes: Vec<u8> = vec![1, 2, 3];
    let err = register_value_from_bytes(&bytes).unwrap_err();
    assert!(matches!(err, HardwareError::SensorError(_)));
}

#[test]
fn measurement_requires_calibration() {
    let plugin = IntelRAPLPlugin::new();
    let err = plugin.measurement_from_registers(100, 50, 7).unwrap_err();
    assert!(matches!(err, HardwareError::UnsupportedOperation(_)));
}

#[test]
fn calibrated_measurement_decodes_counters() {
    let mut plugin = IntelRAPLPlugin::new();
    plugin.initialize_with_power_unit(0x000A_0E03);

    let m = plugin.measurement_from_registers(16_384, 32_768, 7).unwrap();
    assert_eq!(m.timestamp_ns, 7);
    assert_eq!(m.source, "intel_rapl");
    assert_eq!(m.energy_uj, 1_000_000);
    assert_eq!(m.power_uw, 0);
    assert_eq!(m.extra_metrics.len(), 1);
    assert_eq!(m.extra_metrics[0].0, "dram_energy_joules");
    assert_eq!(m.extra_metrics[0].1, 2_000_000);
}

#[test]
fn measurement_masks_reserved_register_bits() {
    let mut plugin = IntelRAPLPlugin::new();
    plugin.initialize_with_power_unit(0); // energy exponent 0: 1 J units
    let m = plugin
        .measurement_from_registers(0xFFFF_0000_0000_0005, 0, 0)
        .unwrap();
    assert_eq!(m.energy_uj, 5_000_000);
}
