use hw_cpu::host::{
    daytime, daytime_hour, detect_port, memory_load_units, stop, RunMode, ServiceContext,
    USB_PRODUCT_ID, USB_VENDOR_ID,
};

#[test]
fn stop_requests_the_loop_to_end() {
    let mut context = ServiceContext { run_mode: RunMode::Run };
    stop(&mut context);
    assert_eq!(context.run_mode, RunMode::Stop);
}

#[test]
fn daytime_runs_from_six_to_six_exclusive() {
    assert!(!daytime_hour(0));
    assert!(!daytime_hour(6));
    assert!(daytime_hour(7));
    assert!(daytime_hour(12));
    assert!(daytime_hour(17));
    assert!(!daytime_hour(18));
    assert!(!daytime_hour(23));
}

#[test]
fn daytime_reads_the_local_clock_without_panicking() {
    let _ = daytime();
}

#[test]
fn detect_port_finds_the_first_monitor() {
    let ports = vec![
        (0x1234, 0x0001),
        (USB_VENDOR_ID, 0x9999),
        (USB_VENDOR_ID, USB_PRODUCT_ID),
        (USB_VENDOR_ID, USB_PRODUCT_ID),
    ];
    assert_eq!(detect_port(&ports), Some(2));
    assert_eq!(detect_port(&vec![(0x1234, 0x0001)]), None);
    assert_eq!(detect_port(&vec![]), None);
}

#[test]
fn memory_load_counts_used_fraction() {
    assert_eq!(memory_load_units(0, 100), 10000);
    assert_eq!(memory_load_units(100, 100), 0);
    assert_eq!(memory_load_units(25, 100), 7500);
    // One third used, rounded down.
    assert_eq!(memory_load_units(2, 3), 3333);
    // Large byte counts do not overflow.
    assert_eq!(memory_load_units(1 << 62, 1 << 63), 5000);
}
