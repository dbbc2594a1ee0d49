use std::sync::mpsc;
use toboggan_esp32::main_loop::{DiffDecision, FailureTracker, MainLoop, ServiceAction};
use toboggan_esp32::touch::describe;
use toboggan_esp32::host::{after_resolve, start_resolve, ResolveStep};
use toboggan_esp32::{
    send_diff, to_screen, zone, AppState, AppStateDiff, LedController, LedPattern, RgbColor,
    ServiceState, ServiceTracker, StateManager, StateMode, TalkFetch, TouchPoint, Zone,
};

#[test]
fn descriptions_of_every_state() {
    assert_eq!(AppState::Booting.description(), "Booting...");
    assert_eq!(
        AppState::Connecting { ssid: "home".to_string() }.description(),
        "Connecting to Wifi home..."
    );
    assert_eq!(AppState::Connected { ssid: "home".to_string() }.description(), "Connected to home");
    assert_eq!(AppState::Loading.description(), "Loading talk...");
    assert_eq!(AppState::Initialized.description(), "Talk loaded and ready");
    assert_eq!(
        AppState::Play { current: 12, current_step: 0, mode: StateMode::Paused }.description(),
        "Slide 12 step 0 (Paused)"
    );
    assert_eq!(
        AppState::Play { current: usize::MAX, current_step: 1305, mode: StateMode::Done }.description(),
        format!("Slide {} step 1305 (Done)", usize::MAX)
    );
    assert_eq!(AppState::Error { message: "boom".to_string() }.description(), "Error! boom");
}

#[test]
fn talk_reload_keeps_the_state() {
    let state = AppState::Play { current: 1, current_step: 1, mode: StateMode::Running };
    assert_eq!(state.clone().apply_diff(AppStateDiff::TalkReload), state);
}

#[test]
fn applying_a_diff_twice_is_applying_it_once() {
    let diff = AppStateDiff::UpdateSlide { current: 4, current_step: 0, mode: StateMode::Done };
    let once = AppState::Initialized.apply_diff(diff.clone());
    let twice = once.clone().apply_diff(diff);
    assert_eq!(once, twice);
}

#[test]
fn state_manager_applies_and_publishes() {
    let (tx, rx) = mpsc::channel();
    let mut manager = StateManager::new(tx);
    assert_eq!(*manager.current_state(), AppState::Booting);
    manager.transition_to(AppState::Initialized);
    manager.update_slide(2, 1, StateMode::Running);
    manager.trigger_blink();
    manager.transition_to_error("boom".to_string());
    assert_eq!(*manager.current_state(), AppState::Error { message: "boom".to_string() });
    assert_eq!(rx.try_recv(), Ok(AppStateDiff::Transition(AppState::Initialized)));
    assert_eq!(
        rx.try_recv(),
        Ok(AppStateDiff::UpdateSlide { current: 2, current_step: 1, mode: StateMode::Running })
    );
    assert_eq!(rx.try_recv(), Ok(AppStateDiff::Blink));
    assert_eq!(rx.try_recv(), Ok(AppStateDiff::Error { message: "boom".to_string() }));
    manager.apply_diff(&AppStateDiff::Transition(AppState::Loading));
    assert_eq!(*manager.current_state(), AppState::Loading);
    assert!(rx.try_recv().is_err());
}

#[test]
fn send_diff_tolerates_a_closed_channel() {
    let (tx, rx) = mpsc::channel();
    send_diff(&tx, AppStateDiff::Blink, "test");
    assert_eq!(rx.try_recv(), Ok(AppStateDiff::Blink));
    drop(rx);
    send_diff(&tx, AppStateDiff::Blink, "test");
}

#[test]
fn led_patterns_of_every_state() {
    assert_eq!(LedPattern::from_state(&AppState::Booting), LedPattern::Blinking(RgbColor::orange(), 500));
    assert_eq!(
        LedPattern::from_state(&AppState::Connecting { ssid: String::new() }),
        LedPattern::Blinking(RgbColor::yellow(), 500)
    );
    assert_eq!(
        LedPattern::from_state(&AppState::Connected { ssid: String::new() }),
        LedPattern::Solid(RgbColor::green())
    );
    assert_eq!(LedPattern::from_state(&AppState::Loading), LedPattern::Blinking(RgbColor::white(), 500));
    assert_eq!(LedPattern::from_state(&AppState::Initialized), LedPattern::Solid(RgbColor::cyan()));
    assert_eq!(
        LedPattern::from_state(&AppState::Play { current: 0, current_step: 0, mode: StateMode::Running }),
        LedPattern::Solid(RgbColor::blue())
    );
    assert_eq!(
        LedPattern::from_state(&AppState::Play { current: 0, current_step: 0, mode: StateMode::Done }),
        LedPattern::Solid(RgbColor::green())
    );
    assert_eq!(
        LedPattern::from_state(&AppState::Error { message: String::new() }),
        LedPattern::Blinking(RgbColor::red(), 250)
    );
    assert_eq!(RgbColor::orange(), RgbColor { red: true, green: false, blue: false });
}

#[test]
fn led_update_follows_the_state_and_blinks() {
    let mut leds = LedController::new();
    assert_eq!(leds.current_pattern(), LedPattern::Solid(RgbColor::off()));
    // loading blinks white with a 500 ms half period
    assert_eq!(leds.update(&AppState::Loading, 0, 0), RgbColor::white());
    assert_eq!(leds.update(&AppState::Loading, 0, 500), RgbColor::off());
    assert_eq!(leds.update(&AppState::Loading, 0, 1000), RgbColor::white());
    assert_eq!(leds.current_pattern(), LedPattern::Blinking(RgbColor::white(), 500));
    // an error blinks red with a 250 ms half period
    let error = AppState::Error { message: String::new() };
    assert_eq!(leds.update(&error, 0, 250), RgbColor::off());
    assert_eq!(leds.update(&error, 0, 500), RgbColor::red());
}

#[test]
fn led_blink_override_shows_yellow_then_expires() {
    let mut leds = LedController::new();
    let state = AppState::Initialized;
    leds.start_blink_override(5000, 1000);
    assert!(leds.is_blink_override_active(1000));
    assert_eq!(leds.update(&state, 2000, 0), RgbColor::yellow());
    assert_eq!(leds.update(&state, 2000, 500), RgbColor::off());
    assert!(leds.is_blink_override_active(5999));
    assert!(!leds.is_blink_override_active(6000));
    assert_eq!(leds.update(&state, 6000, 500), RgbColor::cyan());
    assert!(!leds.is_blink_override_active(1000));
}

#[test]
fn service_tracker_marks_services() {
    let mut services = ServiceTracker::default();
    assert!(services.is_api_pending());
    assert!(services.is_websocket_pending());
    services.mark_api_started();
    assert!(!services.is_api_pending());
    assert!(services.is_websocket_pending());
    services.mark_websocket_started();
    assert!(!services.is_websocket_pending());
    assert_eq!(ServiceState::default(), ServiceState::Pending);
}

#[test]
fn failure_tracker_counts_consecutive_failures() {
    let mut tracker = FailureTracker::new(3);
    assert!(!tracker.record_display_failure());
    assert!(!tracker.record_display_failure());
    tracker.reset_display();
    assert!(!tracker.record_display_failure());
    assert!(!tracker.record_display_failure());
    assert!(tracker.record_display_failure());
    assert!(!tracker.record_led_failure());
    tracker.reset_led();
    assert!(!tracker.record_led_failure());
}

#[test]
fn main_loop_drops_repeated_diffs_but_not_events() {
    let (tx, _rx) = mpsc::channel();
    let mut main_loop = MainLoop::new(tx);
    let diff = AppStateDiff::Transition(AppState::Connected { ssid: "home".to_string() });
    assert_eq!(main_loop.receive_diff(diff.clone()), DiffDecision::Apply { start_blink: false });
    assert_eq!(main_loop.receive_diff(diff), DiffDecision::Skip);
    assert_eq!(main_loop.receive_diff(AppStateDiff::Blink), DiffDecision::Apply { start_blink: true });
    assert_eq!(main_loop.receive_diff(AppStateDiff::Blink), DiffDecision::Apply { start_blink: true });
    assert_eq!(
        *main_loop.current_state(),
        AppState::Connected { ssid: "home".to_string() }
    );
}

#[test]
fn main_loop_starts_services_in_order() {
    let (tx, rx) = mpsc::channel();
    let mut main_loop = MainLoop::new(tx);
    assert_eq!(main_loop.next_service(false), ServiceAction::Idle);
    main_loop.receive_diff(AppStateDiff::Transition(AppState::Connected { ssid: "home".to_string() }));
    assert_eq!(main_loop.next_service(false), ServiceAction::SpawnApi(TalkFetch::Initial));
    assert_eq!(*main_loop.current_state(), AppState::Loading);
    assert_eq!(rx.try_recv(), Ok(AppStateDiff::Transition(AppState::Loading)));
    main_loop.receive_diff(AppStateDiff::Transition(AppState::Initialized));
    assert_eq!(main_loop.next_service(false), ServiceAction::Idle);
    assert_eq!(main_loop.next_service(true), ServiceAction::SpawnWebSocket);
    assert_eq!(main_loop.next_service(true), ServiceAction::Idle);
    main_loop.receive_diff(AppStateDiff::TalkReload);
    assert_eq!(main_loop.next_service(true), ServiceAction::SpawnApi(TalkFetch::Reload));
    assert_eq!(main_loop.next_service(true), ServiceAction::Idle);
}

#[test]
fn main_loop_enters_error_after_five_display_failures() {
    let (tx, _rx) = mpsc::channel();
    let mut main_loop = MainLoop::new(tx);
    for _ in 0..4 {
        main_loop.display_result(false);
        assert_eq!(*main_loop.current_state(), AppState::Booting);
    }
    main_loop.display_result(true);
    for _ in 0..4 {
        main_loop.display_result(false);
    }
    assert_eq!(*main_loop.current_state(), AppState::Booting);
    main_loop.display_result(false);
    assert_eq!(
        *main_loop.current_state(),
        AppState::Error { message: "Display hardware failure".to_string() }
    );
}

#[test]
fn main_loop_enters_error_after_five_led_failures() {
    let (tx, _rx) = mpsc::channel();
    let mut main_loop = MainLoop::new(tx);
    for _ in 0..5 {
        main_loop.led_result(false);
    }
    assert_eq!(
        *main_loop.current_state(),
        AppState::Error { message: "LED hardware failure".to_string() }
    );
}

#[test]
fn touch_maps_to_the_drawn_frame() {
    let point = TouchPoint { track_id: 0, x: 10, y: 0, area: 5 };
    assert_eq!(to_screen(&point), (10, 239));
    let point = TouchPoint { track_id: 0, x: 400, y: 300, area: 5 };
    assert_eq!(to_screen(&point), (319, 0));
    assert_eq!(zone(&TouchPoint { track_id: 0, x: 159, y: 0, area: 1 }), Zone::Left);
    assert_eq!(zone(&TouchPoint { track_id: 0, x: 160, y: 0, area: 1 }), Zone::Right);
}

#[test]
fn describe_names_the_bus_parts() {
    assert_eq!(describe(0x14), "GT911 touch");
    assert_eq!(describe(0x5D), "GT911 touch");
    assert_eq!(describe(0x18), "ES8311 codec");
    assert_eq!(describe(0x41), "ES7210 ADC");
    assert_eq!(describe(0x69), "ICM-42607 IMU");
    assert_eq!(describe(0x24), "TT21100 touch");
    assert_eq!(describe(0x33), "unknown");
}

#[test]
fn resolution_uses_the_first_host_that_resolves() {
    let hosts = vec!["primary.local".to_string(), "192.168.1.10".to_string()];
    let mut failures = Vec::new();
    assert!(matches!(start_resolve(&hosts), ResolveStep::Try(0)));
    assert!(matches!(after_resolve(&hosts, 0, Ok(()), &mut failures), ResolveStep::Use(0)));
    assert!(failures.is_empty());
}

#[test]
fn resolution_falls_back_then_reports_every_failure() {
    let hosts = vec!["primary.local".to_string(), "backup.local".to_string()];
    let mut failures = Vec::new();
    let step = after_resolve(&hosts, 0, Err("timeout".to_string()), &mut failures);
    assert!(matches!(step, ResolveStep::Try(1)));
    assert_eq!(failures, vec!["primary.local: timeout".to_string()]);
    let step = after_resolve(&hosts, 1, Ok(()), &mut failures);
    assert!(matches!(step, ResolveStep::Use(1)));
    let mut failures = vec!["primary.local: timeout".to_string()];
    match after_resolve(&hosts, 1, Err("no address".to_string()), &mut failures) {
        ResolveStep::Fail(message) => {
            assert_eq!(message, "resolve primary.local: timeout, backup.local: no address")
        }
        other => panic!("unexpected step {other:?}"),
    }
}

#[test]
fn resolution_without_hosts_fails_at_once() {
    match start_resolve(&Vec::new()) {
        ResolveStep::Fail(message) => assert_eq!(message, "resolve "),
        other => panic!("unexpected step {other:?}"),
    }
}
