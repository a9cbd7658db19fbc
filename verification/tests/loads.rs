use hw_cpu::message::{load_from_bits, perf_from_bits, PerfBits, LOAD_SCALE};

#[test]
fn unit_interval_values_scale_exactly_or_round_down() {
    assert_eq!(load_from_bits(0.0f32.to_bits()), 0);
    assert_eq!(load_from_bits(0.5f32.to_bits()), 5000);
    assert_eq!(load_from_bits(0.25f32.to_bits()), 2500);
    assert_eq!(load_from_bits(1.0f32.to_bits()), LOAD_SCALE);
    // 0.1, 0.2 and 0.3 sit just above their decimal value in binary.
    // Rounding is always down.
    assert_eq!(load_from_bits(0.1f32.to_bits()), 1000);
    assert_eq!(load_from_bits(0.2f32.to_bits()), 2000);
    assert_eq!(load_from_bits(0.3f32.to_bits()), 3000);
}

#[test]
fn out_of_range_values_degrade_gracefully() {
    assert_eq!(load_from_bits((-0.5f32).to_bits()), 0);
    assert_eq!(load_from_bits((-0.0f32).to_bits()), 0);
    assert_eq!(load_from_bits(f32::NAN.to_bits()), 0);
    assert_eq!(load_from_bits(f32::INFINITY.to_bits()), u32::MAX);
    assert_eq!(load_from_bits(f32::NEG_INFINITY.to_bits()), 0);
    assert_eq!(load_from_bits(2.0f32.to_bits()), 2 * LOAD_SCALE);
    assert_eq!(load_from_bits(1.0e8f32.to_bits()), u32::MAX);
    // Subnormals are far below one load unit.
    assert_eq!(load_from_bits(1), 0);
}

#[test]
fn snapshot_conversion_is_field_wise() {
    let bits = PerfBits {
        all_cores_load: 0.5f32.to_bits(),
        all_cores_avg: 0.1f32.to_bits(),
        peak_core_load: 0.3f32.to_bits(),
        memory_load: 0.2f32.to_bits(),
        daytime: false,
    };
    let perf = perf_from_bits(&bits);
    assert_eq!(perf.all_cores_load, 5000);
    assert_eq!(perf.all_cores_avg, 1000);
    assert_eq!(perf.peak_core_load, 3000);
    assert_eq!(perf.memory_load, 2000);
    assert!(!perf.daytime);
}
