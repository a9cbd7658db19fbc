use hw_cpu::mono::{MonoTimer, COUNTER_PERIOD};

#[test]
fn new_timer_computes_the_prescaler() {
    // A 36 MHz timer clock divided down to 1 MHz ticks.
    let (_, psc) = MonoTimer::<1_000_000>::new(36_000_000);
    assert_eq!(psc, 35);
}

#[test]
fn now_combines_counter_and_overflow_state() {
    let (timer, _) = MonoTimer::<1_000_000>::new(1_000_000);
    assert_eq!(timer.now(5, false), 5);
    // A still-pending overflow flag adds one counter period.
    assert_eq!(timer.now(5, true), 5 + COUNTER_PERIOD);
}

#[test]
fn overflow_interrupt_advances_the_epoch() {
    let (mut timer, _) = MonoTimer::<1_000_000>::new(1_000_000);
    timer.on_interrupt(false);
    assert_eq!(timer.now(7, false), 7);
    timer.on_interrupt(true);
    assert_eq!(timer.now(7, false), 7 + COUNTER_PERIOD);
    timer.on_interrupt(true);
    assert_eq!(timer.now(7, false), 7 + 2 * COUNTER_PERIOD);
}

#[test]
fn compare_value_targets_a_near_instant_directly() {
    let (timer, _) = MonoTimer::<1_000_000>::new(1_000_000);
    // now = 100; an instant 1000 ticks ahead fits the current period.
    assert_eq!(timer.set_compare(1100, 100, false), 1100);
    // An instant in a later epoch keeps only its low counter bits.
    let (mut timer2, _) = MonoTimer::<1_000_000>::new(1_000_000);
    timer2.on_interrupt(true);
    let instant = COUNTER_PERIOD + 200;
    assert_eq!(timer2.set_compare(instant, 150, false), 200);
}

#[test]
fn compare_value_runs_long_for_far_or_past_instants() {
    let (timer, _) = MonoTimer::<1_000_000>::new(1_000_000);
    // An instant already past: run as long as possible from the counter.
    assert_eq!(timer.set_compare(50, 100, false), (100u16).wrapping_add(0xffff));
    // An instant beyond one counter period away.
    assert_eq!(
        timer.set_compare(2 * COUNTER_PERIOD, 100, false),
        (100u16).wrapping_add(0xffff)
    );
}

#[test]
fn the_epoch_starts_at_zero() {
    assert_eq!(MonoTimer::<1_000_000>::zero(), 0);
}
