use aura::device_tier::{
    accelerated_from_vendors, classify, forced_tier, gpu_enabled, is_low_voltage_cpu, parse_effect_tier, parse_gpu_mode,
    parse_gpu_setting, DeviceTier, GpuMode, MachineInfo,
};

#[test]
fn gpu_mode_defaults_to_auto() {
    assert_eq!(parse_gpu_mode(""), GpuMode::Auto);
    assert_eq!(parse_gpu_mode("   \n"), GpuMode::Auto);
    assert_eq!(parse_gpu_mode("garbage"), GpuMode::Auto);
    assert_eq!(parse_gpu_mode("onward"), GpuMode::Auto);
    assert_eq!(parse_gpu_mode("offer"), GpuMode::Auto);
    assert_eq!(parse_gpu_mode("auto"), GpuMode::Auto);
}

#[test]
fn gpu_mode_reads_the_written_forms_and_common_synonyms() {
    assert_eq!(parse_gpu_mode("auto"), GpuMode::Auto);
    assert_eq!(parse_gpu_mode("on"), GpuMode::On);
    assert_eq!(parse_gpu_mode("off"), GpuMode::Off);
    assert_eq!(parse_gpu_mode("true"), GpuMode::On);
    assert_eq!(parse_gpu_mode("1"), GpuMode::On);
    assert_eq!(parse_gpu_mode("yes"), GpuMode::On);
    assert_eq!(parse_gpu_mode("false"), GpuMode::Off);
    assert_eq!(parse_gpu_mode("0"), GpuMode::Off);
    assert_eq!(parse_gpu_mode("no"), GpuMode::Off);
    assert_eq!(parse_gpu_mode("  ON  \r\n"), GpuMode::On);
    assert_eq!(parse_gpu_mode("Off\n"), GpuMode::Off);
    assert_eq!(parse_gpu_mode(" AUTO "), GpuMode::Auto);
}

#[test]
fn detects_u_suffix_models() {
    assert!(is_low_voltage_cpu("intel(r) core(tm) i5-8250u cpu @ 1.60ghz"));
    assert!(is_low_voltage_cpu("intel(r) core(tm) i7-1165u"));
    assert!(is_low_voltage_cpu("amd ryzen 7 7730u with radeon graphics"));
    assert!(is_low_voltage_cpu("intel(r) core(tm) ultra 5 155u"));
}

#[test]
fn ignores_incidental_u() {
    assert!(!is_low_voltage_cpu("intel(r) core(tm) ultra 7 155h"));
    assert!(!is_low_voltage_cpu("amd ryzen ai 9 hx 370"));
    assert!(!is_low_voltage_cpu("intel(r) core(tm) i9-14900k cpu"));
    assert!(!is_low_voltage_cpu("amd ryzen 9 7950x 16-core processor"));
    assert!(!is_low_voltage_cpu("some 8265ux part"));
    assert!(!is_low_voltage_cpu(""));
}

#[test]
fn written_switch_values_round_trip() {
    for mode in [GpuMode::Auto, GpuMode::On, GpuMode::Off] {
        assert_eq!(parse_gpu_mode(mode.as_str()), mode);
        assert_eq!(parse_gpu_setting(mode.as_str()), Ok(mode));
    }
}

#[test]
fn the_settings_page_may_only_store_known_words() {
    assert_eq!(parse_gpu_setting(" ON "), Ok(GpuMode::On));
    assert_eq!(
        parse_gpu_setting("yes"),
        Err("unknown gpu acceleration mode: yes".to_string())
    );
    assert_eq!(parse_effect_tier(" High "), Ok("high".to_string()));
    assert_eq!(parse_effect_tier("ultra"), Ok("ultra".to_string()));
    assert_eq!(parse_effect_tier("max"), Err("unknown effect tier: max".to_string()));
}

#[test]
fn gpu_follows_the_tier_only_in_auto() {
    assert!(gpu_enabled(GpuMode::On, DeviceTier::Low));
    assert!(!gpu_enabled(GpuMode::Off, DeviceTier::High));
    assert!(gpu_enabled(GpuMode::Auto, DeviceTier::High));
    assert!(!gpu_enabled(GpuMode::Auto, DeviceTier::Mid));
}

#[test]
fn the_environment_can_force_a_tier() {
    assert_eq!(forced_tier("HIGH"), Some(DeviceTier::High));
    assert_eq!(forced_tier("mid"), Some(DeviceTier::Mid));
    assert_eq!(forced_tier("low"), Some(DeviceTier::Low));
    assert_eq!(forced_tier("ultra"), None);
    assert_eq!(DeviceTier::Mid.as_str(), "mid");
}

fn machine(gb: u64, logical: usize, mhz: u64, brand: &str, dgpu: bool) -> MachineInfo {
    MachineInfo {
        total_memory: gb * 1024 * 1024 * 1024,
        logical_cpus: logical,
        physical_cores: None,
        clock_mhz: mhz,
        brand: brand.to_string(),
        has_discrete_gpu: dgpu,
    }
}

#[test]
fn tiers_follow_memory_cpu_and_gpu() {
    assert_eq!(classify(&machine(2, 16, 4000, "ryzen 9", true)), DeviceTier::Low);
    assert_eq!(classify(&machine(16, 16, 3600, "AMD Ryzen 9 7950X", true)), DeviceTier::High);
    assert_eq!(classify(&machine(16, 16, 3600, "AMD Ryzen 9 7950X", false)), DeviceTier::Mid);
    assert_eq!(classify(&machine(16, 4, 2000, "generic", true)), DeviceTier::Low);
    assert_eq!(classify(&machine(16, 2, 1000, "generic", true)), DeviceTier::Low);
    assert_eq!(classify(&machine(16, 8, 3000, "Intel Core i7-1165U", false)), DeviceTier::Low);
    assert_eq!(classify(&machine(16, 8, 3000, "Intel Core i7-1165U", true)), DeviceTier::High);
    let mut six = machine(8, 0, 2400, "generic", true);
    six.physical_cores = Some(6);
    assert_eq!(classify(&six), DeviceTier::High);
}

#[test]
fn vmware_adapter_turns_acceleration_off() {
    assert!(accelerated_from_vendors(&[]));
    assert!(accelerated_from_vendors(&["0x8086\n".to_string(), "0x10de".to_string()]));
    assert!(!accelerated_from_vendors(&["0x8086".to_string(), " 0x15ad\n".to_string()]));
    assert!(accelerated_from_vendors(&["0x15ad0".to_string()]));
}
