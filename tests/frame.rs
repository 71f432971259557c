use matryx::frame::{FrameTick, FrameTimer, FRAME_PERIOD_MICROS};

#[test]
fn first_tick_has_zero_dt() {
    let mut timer = FrameTimer::new();
    let t = timer.tick(5_000);
    assert_eq!(t.dt, 0);
    assert_eq!(t.t, 0);
    assert_eq!(t.start, 5_000);
}

#[test]
fn successive_ticks_never_run_backwards() {
    let mut timer = FrameTimer::new();
    let readings = [100u64, 200, 150, 1_000, 1_000, 40_000];
    let mut last_t = 0;
    for &now in readings.iter() {
        let t = timer.tick(now);
        assert!(t.t >= last_t);
        assert_eq!(t.start, 100);
        last_t = t.t;
    }
    assert_eq!(last_t, 39_900);
}

#[test]
fn tick_measures_delta_from_previous_step() {
    let first = FrameTick::from_start(1_000);
    let next = FrameTick::from_prev(&first, 34_000);
    assert_eq!(next.delta, 33_000);
    assert_eq!(next.dt, 33_000);
    assert_eq!(next.t, 33_000);
    assert_eq!(next.instant, 34_000);
}

#[test]
fn wait_fills_the_rest_of_the_period() {
    let mut timer = FrameTimer::new();
    assert_eq!(timer.time_until_next_frame(0, FRAME_PERIOD_MICROS), 0);
    timer.tick(10_000);
    assert_eq!(timer.time_until_next_frame(20_000, FRAME_PERIOD_MICROS), 23_000);
    assert_eq!(timer.time_until_next_frame(43_000, FRAME_PERIOD_MICROS), 0);
    assert_eq!(timer.time_until_next_frame(90_000, FRAME_PERIOD_MICROS), 0);
}
