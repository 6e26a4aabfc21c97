use redbear_drivers::kpi_timer::{
    del_timer, jiffies_from, mod_timer, setup_timer, timer_after_run, timer_delay,
    timer_fire_step, timer_pending, FireStep,
};

#[test]
fn mod_timer_reports_previous_pending_state() {
    let mut t = setup_timer();
    assert_eq!(timer_pending(&t), 0);
    let (was, g1) = mod_timer(&mut t);
    assert_eq!(was, 0);
    assert_eq!(g1, 1);
    assert_eq!(timer_pending(&t), 1);
    let (was, g2) = mod_timer(&mut t);
    assert_eq!(was, 1);
    assert_eq!(g2, 2);
}

#[test]
fn stale_callbacks_are_skipped() {
    let mut t = setup_timer();
    let (_, g1) = mod_timer(&mut t);
    assert_eq!(timer_fire_step(&t, g1, true), FireStep::Run);
    let (_, g2) = mod_timer(&mut t);
    assert_eq!(timer_fire_step(&t, g1, true), FireStep::Skip);
    assert_eq!(timer_fire_step(&t, g2, true), FireStep::Run);
    assert_eq!(del_timer(&mut t), 1);
    assert_eq!(timer_fire_step(&t, g2, true), FireStep::Skip);
    assert_eq!(del_timer(&mut t), 0);
}

#[test]
fn callback_without_function_deactivates() {
    let mut t = setup_timer();
    let (_, g) = mod_timer(&mut t);
    assert_eq!(timer_fire_step(&t, g, false), FireStep::Deactivate);
}

#[test]
fn run_clears_pending_only_for_current_generation() {
    let mut t = setup_timer();
    let (_, g1) = mod_timer(&mut t);
    let (_, _g2) = mod_timer(&mut t);
    timer_after_run(&mut t, g1);
    assert_eq!(timer_pending(&t), 1);
    let g = t.generation;
    timer_after_run(&mut t, g);
    assert_eq!(timer_pending(&t), 0);
}

#[test]
fn delay_and_clock_arithmetic() {
    assert_eq!(timer_delay(150, 100), 50);
    assert_eq!(timer_delay(100, 150), 0);
    assert_eq!(jiffies_from(true, 2, 345_000_000), 2345);
    assert_eq!(jiffies_from(false, 2, 0), 0);
    assert_eq!(jiffies_from(true, -1, 0), 0);
    assert_eq!(jiffies_from(true, i64::MAX, 0), u64::MAX);
}
