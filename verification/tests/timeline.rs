use music_visualiser_core::analysis::AnalysisFrame;
use music_visualiser_core::{PlaybackClock, ScheduledEvent, Scheduler};

#[test]
fn clock_measures_elapsed_time() {
    let clock = PlaybackClock::start(100);
    assert_eq!(clock.elapsed(100), 0);
    assert_eq!(clock.elapsed(150), 50);
}

#[test]
fn clock_pause_freezes_and_resume_continues() {
    let mut clock = PlaybackClock::start(100);
    clock.pause(150);
    // While paused, the reading stays at the pause point.
    assert_eq!(clock.elapsed(9_999), 50);
    // Pausing again changes nothing.
    clock.pause(5_000);
    assert_eq!(clock.elapsed(9_999), 50);

    clock.resume(250);
    // The 100 ns pause is carved out of the elapsed time.
    assert_eq!(clock.elapsed(300), 100);
    // Resuming a running clock changes nothing.
    clock.resume(400);
    assert_eq!(clock.elapsed(300), 100);
}

#[test]
fn scheduler_triggers_due_events_in_order() {
    let mut scheduler = Scheduler::new();
    scheduler.add_event(ScheduledEvent::new(4, "section-b".to_string()));
    scheduler.add_event(ScheduledEvent::new(2, "section-a".to_string()));

    let frame = AnalysisFrame { time: 7, ..AnalysisFrame::default() };
    let triggered = scheduler.tick(3, &frame);
    assert_eq!(triggered.len(), 1);
    assert_eq!(triggered[0].label, "section-a");
    assert_eq!(triggered[0].last_analysis.as_ref().unwrap().time, 7);

    let triggered = scheduler.tick(3, &frame);
    assert!(triggered.is_empty());

    let triggered = scheduler.tick(4, &frame);
    assert_eq!(triggered.len(), 1);
    assert_eq!(triggered[0].label, "section-b");
}

#[test]
fn scheduler_keeps_tied_events_in_insertion_order() {
    let mut scheduler = Scheduler::new();
    scheduler.add_event(ScheduledEvent::new(5, "first".to_string()));
    scheduler.add_event(ScheduledEvent::new(5, "second".to_string()));

    let frame = AnalysisFrame::default();
    let triggered = scheduler.tick(5, &frame);
    assert_eq!(triggered.len(), 2);
    assert_eq!(triggered[0].label, "first");
    assert_eq!(triggered[1].label, "second");
}
