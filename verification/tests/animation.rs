use hw_cpu::message::PerfData;
use hw_cpu::perf::{
    update_cpu_load, update_state, FALL_UNITS_PER_FRAME, FRAMES_PER_SECOND, FRAME_MS,
};
use hw_cpu::queue::FramesDeque;

fn snapshot(all: u32, avg: u32, peak: u32, mem: u32, daytime: bool) -> PerfData {
    PerfData {
        all_cores_load: all,
        all_cores_avg: avg,
        peak_core_load: peak,
        memory_load: mem,
        daytime,
    }
}

fn drain(q: &mut FramesDeque) -> Vec<PerfData> {
    let mut out = Vec::new();
    while let Some(f) = q.pop_front() {
        out.push(f);
    }
    out
}

#[test]
fn frame_cadence_fits_the_update_period() {
    assert_eq!(FRAMES_PER_SECOND, 15);
    assert_eq!(FRAME_MS, 66);
}

#[test]
fn cpu_load_jumps_up_and_eases_down() {
    assert_eq!(update_cpu_load(1000, 8000), 8000);
    assert_eq!(update_cpu_load(8000, 1000), 8000 - FALL_UNITS_PER_FRAME);
    assert_eq!(update_cpu_load(1200, 1000), 1000);
    assert_eq!(update_cpu_load(1000, 1000), 1000);
}

#[test]
fn no_history_enqueues_exactly_the_target() {
    let target = snapshot(5000, 1000, 2999, 2000, true);
    let mut queue = FramesDeque::new();
    let basis = update_state(None, target, &mut queue);
    assert_eq!(basis, Some(target));
    assert_eq!(drain(&mut queue), vec![target]);
}

#[test]
fn rising_peak_shows_on_the_first_frame() {
    let prev = snapshot(1000, 1000, 2000, 1000, true);
    let target = snapshot(1500, 1100, 9000, 1200, true);
    let mut queue = FramesDeque::new();
    update_state(Some(prev), target, &mut queue);
    let frames = drain(&mut queue);
    assert_eq!(frames.len(), 15);
    assert_eq!(frames[0].peak_core_load, 9000);
    // Fields other than the CPU loads snap to the target at once.
    assert_eq!(frames[0].all_cores_avg, 1100);
    assert_eq!(frames[0].memory_load, 1200);
}

#[test]
fn falling_peak_steps_down_without_undershooting() {
    let prev = snapshot(9000, 1000, 9000, 1000, false);
    let target = snapshot(1000, 1000, 1000, 1000, false);
    let mut queue = FramesDeque::new();
    let basis = update_state(Some(prev), target, &mut queue);
    let frames = drain(&mut queue);
    assert_eq!(frames.len(), 15);
    let mut before = 9000u32;
    for f in &frames {
        assert!(f.peak_core_load >= 1000);
        assert!(f.peak_core_load <= before);
        assert!(before - f.peak_core_load <= FALL_UNITS_PER_FRAME);
        before = f.peak_core_load;
    }
    assert_eq!(frames[0].peak_core_load, 9000 - FALL_UNITS_PER_FRAME);
    assert_eq!(frames[14].peak_core_load, 9000 - 15 * FALL_UNITS_PER_FRAME);
    // The basis for the next update is the last computed frame, not the
    // raw target.
    assert_eq!(basis, Some(frames[14]));
}

#[test]
fn short_fall_clamps_at_the_target() {
    let prev = snapshot(1300, 0, 1300, 0, false);
    let target = snapshot(1000, 0, 1000, 0, false);
    let mut queue = FramesDeque::new();
    update_state(Some(prev), target, &mut queue);
    let frames = drain(&mut queue);
    // One partial step down, then the target holds.
    assert_eq!(frames[0].peak_core_load, 1000);
    assert_eq!(frames[14].peak_core_load, 1000);
}

#[test]
fn stale_frames_are_discarded_before_enqueueing() {
    let stale = snapshot(7, 7, 7, 7, false);
    let mut queue = FramesDeque::new();
    for _ in 0..5 {
        queue.push_back(stale).unwrap();
    }

    let prev = snapshot(2000, 0, 2000, 0, true);
    let target = snapshot(1000, 0, 1000, 0, true);
    update_state(Some(prev), target, &mut queue);
    let frames = drain(&mut queue);
    assert_eq!(frames.len(), 15);
    assert!(frames.iter().all(|f| *f != stale));
}

#[test]
fn no_history_also_clears_stale_frames() {
    let stale = snapshot(7, 7, 7, 7, false);
    let mut queue = FramesDeque::new();
    queue.push_back(stale).unwrap();

    let target = snapshot(5000, 0, 5000, 0, true);
    update_state(None, target, &mut queue);
    assert_eq!(drain(&mut queue), vec![target]);
}

#[test]
fn queue_is_bounded_and_fifo() {
    let mut queue = FramesDeque::new();
    for i in 0..64 {
        queue.push_back(snapshot(i, 0, 0, 0, false)).unwrap();
    }
    // The sixty-fifth frame is refused and handed back.
    let extra = snapshot(64, 0, 0, 0, false);
    assert_eq!(queue.push_back(extra), Err(extra));
    assert_eq!(queue.len(), 64);
    assert_eq!(queue.pop_front(), Some(snapshot(0, 0, 0, 0, false)));
    assert_eq!(queue.pop_front(), Some(snapshot(1, 0, 0, 0, false)));
    queue.clear();
    assert!(queue.is_empty());
    assert_eq!(queue.pop_front(), None);
}
