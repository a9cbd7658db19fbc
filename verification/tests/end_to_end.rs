use hw_cpu::codec::encode_message;
use hw_cpu::framer::{PacketOutcome, Serial, BUF_BYTES};
use hw_cpu::message::{FromHost, PerfBits, PerfData};
use hw_cpu::perf::update_state;
use hw_cpu::queue::FramesDeque;
use hw_cpu::tasks::{handle_packet, handle_perf, pulse_step};

fn sample_message() -> FromHost {
    FromHost::ShowPerf(PerfBits {
        all_cores_load: 0.5f32.to_bits(),
        all_cores_avg: 0.1f32.to_bits(),
        peak_core_load: 0.3f32.to_bits(),
        memory_load: 0.2f32.to_bits(),
        daytime: true,
    })
}

fn expected_snapshot() -> PerfData {
    PerfData {
        all_cores_load: 5000,
        all_cores_avg: 1000,
        peak_core_load: 3000,
        memory_load: 2000,
        daytime: true,
    }
}

#[test]
fn bytes_to_first_displayed_frame() {
    // The full receive path: raw link bytes through the framer, the
    // decoder, the watchdog stamp, and the animation engine, with no
    // prior display state.
    let wire = encode_message(&sample_message());

    let mut serial = Serial::new();
    let frame = match serial.read_packet(&wire, BUF_BYTES) {
        PacketOutcome::Frame(f) => f,
        other => panic!("expected a frame, got {:?}", other),
    };

    let mut msg_time: u64 = 0;
    let decoded = handle_packet(&frame, 12345, &mut msg_time).unwrap();
    assert_eq!(msg_time, 12345, "a good snapshot stamps the message time");
    let snapshot = decoded.expect("a ShowPerf message carries a snapshot");
    assert_eq!(snapshot, expected_snapshot());

    let mut queue = FramesDeque::new();
    let basis = update_state(None, snapshot, &mut queue);
    assert_eq!(basis, Some(snapshot));
    assert_eq!(queue.len(), 1);
    assert_eq!(queue.pop_front(), Some(snapshot));
}

#[test]
fn clear_screen_is_accepted_and_inert() {
    let wire = encode_message(&FromHost::ClearScreen);
    let mut msg_time: u64 = 77;
    let decoded = handle_packet(&wire, 12345, &mut msg_time).unwrap();
    assert_eq!(decoded, None);
    assert_eq!(msg_time, 77, "only ShowPerf stamps the message time");
}

#[test]
fn decode_failure_leaves_the_clock_alone() {
    let mut msg_time: u64 = 77;
    let r = handle_packet(&vec![0x09, 0x01], 12345, &mut msg_time);
    assert!(r.is_err());
    assert_eq!(msg_time, 77);
}

#[test]
fn handle_perf_replaces_state_and_queue() {
    let mut prev: Option<PerfData> = None;
    let mut queue = FramesDeque::new();
    let target = expected_snapshot();

    handle_perf(&mut prev, target, &mut queue);
    assert_eq!(prev, Some(target));
    assert_eq!(queue.len(), 1);

    let mut higher = target;
    higher.peak_core_load = 9000;
    handle_perf(&mut prev, higher, &mut queue);
    assert_eq!(queue.len(), 15);
    assert_eq!(queue.pop_front().unwrap().peak_core_load, 9000);
}

#[test]
fn activity_pulse_is_consumed_by_one_tick() {
    let mut pulse = true;
    assert!(pulse_step(&mut pulse));
    assert!(!pulse);
    assert!(!pulse_step(&mut pulse));
    assert!(!pulse);
}
