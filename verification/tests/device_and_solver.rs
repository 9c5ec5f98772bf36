use postflop_solver::cfr::{cfr_indent, cfr_should_log, nearest_lower_power_of_4};
use postflop_solver::device::Device;

#[test]
fn device_names_parse() {
    assert_eq!(Device::parse("cpu"), Ok(Device::Cpu));
    assert_eq!(Device::parse("CPU"), Ok(Device::Cpu));
    assert_eq!(Device::parse("CoreML"), Ok(Device::CoreML));
    assert_eq!(Device::parse("mps"), Ok(Device::CoreML));
    assert_eq!(Device::parse("Cuda"), Ok(Device::Cuda));
    assert_eq!(Device::parse("GPU"), Ok(Device::Cuda));
    assert_eq!("gpu".parse::<Device>(), Ok(Device::Cuda));
    assert_eq!(
        Device::parse("tpu"),
        Err("Unknown device 'tpu'. Use: cpu, cuda, coreml".to_string())
    );
    assert_eq!(
        Device::parse(""),
        Err("Unknown device ''. Use: cpu, cuda, coreml".to_string())
    );
}

#[test]
fn device_name_round_trip() {
    for d in [Device::Cpu, Device::CoreML, Device::Cuda] {
        assert_eq!(Device::parse(d.name()), Ok(d));
    }
    assert_eq!(Device::CoreML.name(), "coreml");
}

#[test]
fn powers_of_four() {
    assert_eq!(nearest_lower_power_of_4(0), 0);
    assert_eq!(nearest_lower_power_of_4(1), 1);
    assert_eq!(nearest_lower_power_of_4(3), 1);
    assert_eq!(nearest_lower_power_of_4(4), 4);
    assert_eq!(nearest_lower_power_of_4(15), 4);
    assert_eq!(nearest_lower_power_of_4(16), 16);
    assert_eq!(nearest_lower_power_of_4(100), 64);
    assert_eq!(nearest_lower_power_of_4(u32::MAX), 1 << 30);
    for x in 1..5000u32 {
        let expected = 1u32 << ((x.leading_zeros() ^ 31) & !1);
        assert_eq!(nearest_lower_power_of_4(x), expected);
    }
}

#[test]
fn log_levels_and_indent() {
    assert!(!cfr_should_log(0, 0));
    assert!(cfr_should_log(1, 2));
    assert!(!cfr_should_log(1, 3));
    assert!(cfr_should_log(2, 10));
    assert!(cfr_should_log(3, 10));
    assert_eq!(cfr_indent(0), "");
    assert_eq!(cfr_indent(3), "      ");
}
