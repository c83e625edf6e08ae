use sparkline_monitor::sampling::{latency_probe, sample_or_fallback, ProbeOutcome, UNAVAILABLE_SAMPLE};
use sparkline_monitor::tick_loop::{Action, InputEvent, LoopEvent, Phase, StepError, TickLoop};
use sparkline_monitor::window::SlidingWindow;

fn fresh_loop(samples: Vec<u64>, fallback: u64) -> TickLoop {
    let window = SlidingWindow::from_samples(samples).unwrap();
    TickLoop::new(window, 1000, fallback, 'q', 0)
}

fn run_one_tick(tick_loop: &mut TickLoop, clock: &mut u64, outcome: ProbeOutcome) {
    assert_eq!(tick_loop.step(LoopEvent::Rendered { now_ms: *clock }), Ok(Action::Poll { timeout_ms: 1000 }));
    *clock += 1000;
    assert_eq!(tick_loop.step(LoopEvent::Polled { input: InputEvent::Nothing }), Ok(Action::ReadClock));
    assert_eq!(tick_loop.step(LoopEvent::Clock { now_ms: *clock }), Ok(Action::Sample));
    assert_eq!(tick_loop.step(LoopEvent::Sampled { outcome, now_ms: *clock }), Ok(Action::Render));
}

#[test]
fn fallback_sample_stands_in_for_a_failed_probe() {
    assert_eq!(sample_or_fallback(ProbeOutcome::Unavailable, 100), 100);
    assert_eq!(sample_or_fallback(ProbeOutcome::Unavailable, 7), 7);
    assert_eq!(sample_or_fallback(ProbeOutcome::Reply(23), 100), 23);
    assert_eq!(sample_or_fallback(ProbeOutcome::Reply(u32::MAX), 0), 4294967295);
    assert_eq!(UNAVAILABLE_SAMPLE, 100);
}

#[test]
fn latency_probe_settings() {
    let settings = latency_probe();
    assert_eq!(settings.address, [8, 8, 8, 8]);
    assert_eq!(settings.timeout_ms, 1000);
    assert_eq!(settings.payload, [1, 2, 3, 4]);
    assert_eq!(settings.ttl, 117);
    assert!(settings.dont_fragment);
}

#[test]
fn probe_that_always_fails_still_gives_a_sample_each_tick() {
    let mut tick_loop = fresh_loop(vec![1, 2, 3, 4], UNAVAILABLE_SAMPLE);
    let mut clock: u64 = 0;
    for tick in 1..=6usize {
        run_one_tick(&mut tick_loop, &mut clock, ProbeOutcome::Unavailable);
        assert_eq!(tick_loop.phase(), Phase::Rendering);
        let samples = tick_loop.window().as_sequence();
        assert_eq!(samples.len(), 4);
        for i in 0..tick.min(4) {
            assert_eq!(samples[i], 100);
        }
    }
    assert_eq!(tick_loop.window().as_sequence(), vec![100, 100, 100, 100]);
}

#[test]
fn three_ticks_of_a_constant_source_fill_three_places() {
    let mut tick_loop = fresh_loop(vec![1, 2, 3, 4, 5], UNAVAILABLE_SAMPLE);
    let mut clock: u64 = 0;
    for _ in 0..3 {
        run_one_tick(&mut tick_loop, &mut clock, ProbeOutcome::Reply(42));
    }
    assert_eq!(tick_loop.window().as_sequence(), vec![42, 42, 42, 1, 2]);
}

#[test]
fn quit_key_ends_the_loop_for_good() {
    let mut tick_loop = fresh_loop(vec![1, 2, 3], UNAVAILABLE_SAMPLE);
    assert_eq!(tick_loop.step(LoopEvent::Rendered { now_ms: 5000 }), Ok(Action::Poll { timeout_ms: 0 }));
    assert_eq!(tick_loop.step(LoopEvent::Polled { input: InputEvent::Key('q') }), Ok(Action::Stop));
    assert_eq!(tick_loop.phase(), Phase::Cancelled);
    assert_eq!(tick_loop.step(LoopEvent::Clock { now_ms: 9000 }), Ok(Action::Stop));
    assert_eq!(
        tick_loop.step(LoopEvent::Sampled { outcome: ProbeOutcome::Reply(1), now_ms: 9000 }),
        Ok(Action::Stop)
    );
    assert_eq!(tick_loop.step(LoopEvent::Rendered { now_ms: 9000 }), Ok(Action::Stop));
    assert_eq!(tick_loop.phase(), Phase::Cancelled);
    assert_eq!(tick_loop.window().as_sequence(), vec![1, 2, 3]);
}

#[test]
fn other_input_does_not_end_the_loop() {
    for input in [InputEvent::Nothing, InputEvent::Other, InputEvent::Key('Q'), InputEvent::Key('x')] {
        let mut tick_loop = fresh_loop(vec![1, 2, 3], UNAVAILABLE_SAMPLE);
        assert_eq!(tick_loop.step(LoopEvent::Rendered { now_ms: 0 }), Ok(Action::Poll { timeout_ms: 1000 }));
        assert_eq!(tick_loop.step(LoopEvent::Polled { input }), Ok(Action::ReadClock));
        assert_eq!(tick_loop.phase(), Phase::AwaitingTick);
    }
}

#[test]
fn poll_timeout_is_what_the_tick_has_left() {
    for (now_ms, timeout_ms) in [(0u64, 1000u64), (1, 999), (400, 600), (999, 1), (1000, 0), (1001, 0), (u64::MAX, 0)] {
        let mut tick_loop = fresh_loop(vec![1], UNAVAILABLE_SAMPLE);
        assert_eq!(tick_loop.step(LoopEvent::Rendered { now_ms }), Ok(Action::Poll { timeout_ms }));
        assert_eq!(tick_loop.phase(), Phase::PollingInput);
    }
}

#[test]
fn clock_running_backwards_counts_as_no_time_gone() {
    let window = SlidingWindow::from_samples(vec![1]).unwrap();
    let mut tick_loop = TickLoop::new(window, 1000, UNAVAILABLE_SAMPLE, 'q', 500);
    assert_eq!(tick_loop.step(LoopEvent::Rendered { now_ms: 100 }), Ok(Action::Poll { timeout_ms: 1000 }));
}

#[test]
fn tick_not_yet_over_goes_back_to_drawing() {
    let mut tick_loop = fresh_loop(vec![1, 2], UNAVAILABLE_SAMPLE);
    assert_eq!(tick_loop.step(LoopEvent::Rendered { now_ms: 10 }), Ok(Action::Poll { timeout_ms: 990 }));
    assert_eq!(tick_loop.step(LoopEvent::Polled { input: InputEvent::Other }), Ok(Action::ReadClock));
    assert_eq!(tick_loop.step(LoopEvent::Clock { now_ms: 999 }), Ok(Action::Render));
    assert_eq!(tick_loop.phase(), Phase::Rendering);
    assert_eq!(tick_loop.window().as_sequence(), vec![1, 2]);
}

#[test]
fn sampling_restarts_the_tick() {
    let mut tick_loop = fresh_loop(vec![1, 2], UNAVAILABLE_SAMPLE);
    let mut clock: u64 = 0;
    run_one_tick(&mut tick_loop, &mut clock, ProbeOutcome::Reply(9));
    assert_eq!(tick_loop.step(LoopEvent::Rendered { now_ms: 1300 }), Ok(Action::Poll { timeout_ms: 700 }));
}

#[test]
fn event_out_of_turn_is_refused_and_changes_nothing() {
    let mut tick_loop = fresh_loop(vec![1, 2], UNAVAILABLE_SAMPLE);
    assert_eq!(tick_loop.step(LoopEvent::Clock { now_ms: 5 }), Err(StepError::OutOfTurn));
    assert_eq!(
        tick_loop.step(LoopEvent::Sampled { outcome: ProbeOutcome::Reply(1), now_ms: 5 }),
        Err(StepError::OutOfTurn)
    );
    assert_eq!(tick_loop.step(LoopEvent::Polled { input: InputEvent::Key('q') }), Err(StepError::OutOfTurn));
    assert_eq!(tick_loop.phase(), Phase::Rendering);
    assert_eq!(tick_loop.window().as_sequence(), vec![1, 2]);
    assert_eq!(tick_loop.step(LoopEvent::Rendered { now_ms: 0 }), Ok(Action::Poll { timeout_ms: 1000 }));
    assert_eq!(tick_loop.step(LoopEvent::Rendered { now_ms: 0 }), Err(StepError::OutOfTurn));
    assert_eq!(tick_loop.phase(), Phase::PollingInput);
}
