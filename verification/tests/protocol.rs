use heapless::spsc::Queue;
use toboggan_esp32::api::{check_status, parse_port, response_body, snippet, talk_data_from, talk_uri, Talk};
use toboggan_esp32::host::{candidates, preferred_address, resolve_error, resolve_failure};
use toboggan_esp32::services::{next_reconnect_delay, talk_fetch_diff, wifi_diff};
use toboggan_esp32::websocket::{
    event_messages, handle_event, slide_update, EventQueue, EventSource, unregister_frame, ClientId, InnerState,
    ServerMessage, WsError, WsEvent, WsMessage, WsSession, WsStep,
};
use toboggan_esp32::wifi::{target_channel, wifi_auth, AccessPoint, AuthKind};
use toboggan_esp32::{AppState, AppStateDiff, StateMode, TalkFetch};

#[test]
fn slide_update_maps_server_states() {
    assert!(slide_update(InnerState::Init).is_none());
    assert!(matches!(
        slide_update(InnerState::Running { current: 3, current_step: 1 }),
        Some(WsMessage::State { current: 3, current_step: 1, mode: StateMode::Running })
    ));
    assert!(matches!(
        slide_update(InnerState::Done { current: 9, current_step: 0 }),
        Some(WsMessage::State { current: 9, current_step: 0, mode: StateMode::Done })
    ));
}

#[test]
fn talk_change_is_announced_before_its_state() {
    let msgs = event_messages(WsEvent::Text {
        message: Some(ServerMessage::TalkChange {
            state: InnerState::Running { current: 2, current_step: 0 },
        }),
    });
    assert_eq!(msgs.len(), 2);
    assert!(matches!(msgs[0], WsMessage::TalkChanged));
    assert!(matches!(msgs[1], WsMessage::State { current: 2, .. }));
    let msgs = event_messages(WsEvent::Text {
        message: Some(ServerMessage::TalkChange { state: InnerState::Init }),
    });
    assert_eq!(msgs.len(), 1);
    assert!(matches!(msgs[0], WsMessage::TalkChanged));
}

#[test]
fn socket_events_map_to_messages() {
    assert!(matches!(event_messages(WsEvent::Connected)[..], [WsMessage::Connected]));
    assert!(matches!(event_messages(WsEvent::Disconnected)[..], [WsMessage::Closed]));
    assert!(matches!(event_messages(WsEvent::Close)[..], [WsMessage::Closed]));
    assert!(event_messages(WsEvent::Ping).is_empty());
    assert!(event_messages(WsEvent::Failure).is_empty());
    assert!(event_messages(WsEvent::Text { message: None }).is_empty());
    let msgs = event_messages(WsEvent::Text {
        message: Some(ServerMessage::Registered {
            client_id: ClientId { idx: 4, version: 1 },
            role: Some("Admin".to_string()),
        }),
    });
    assert!(matches!(
        &msgs[..],
        [WsMessage::Registered { client_id: ClientId { idx: 4, version: 1 }, role: Some(r) }] if r == "Admin"
    ));
}

#[test]
fn handle_event_fills_the_queue() {
    let mut queue: Queue<WsMessage, 4> = Queue::new();
    let (producer, mut consumer) = queue.split();
    let mut events = EventQueue::new(producer);
    handle_event(&mut events, WsEvent::Connected);
    handle_event(&mut events, WsEvent::Text { message: Some(ServerMessage::Blink) });
    assert!(matches!(consumer.dequeue(), Some(WsMessage::Connected)));
    assert!(matches!(consumer.dequeue(), Some(WsMessage::Blink)));
    assert!(consumer.dequeue().is_none());
}

#[test]
fn handle_event_drops_messages_when_the_queue_is_full() {
    let mut queue: Queue<WsMessage, 2> = Queue::new();
    let (producer, mut consumer) = queue.split();
    let mut events = EventQueue::new(producer);
    handle_event(&mut events, WsEvent::Connected);
    handle_event(&mut events, WsEvent::Closed);
    assert!(matches!(consumer.dequeue(), Some(WsMessage::Connected)));
    assert!(consumer.dequeue().is_none());
}

#[test]
fn session_registers_forwards_and_unregisters() {
    let mut session = WsSession::new();
    assert!(matches!(session.on_message(None), WsStep::Wait { ms: 100 }));
    match session.on_message(Some(WsMessage::Connected)) {
        WsStep::Send { frame } => assert_eq!(frame, "{\"command\":\"Register\",\"name\":\"ESP32\"}"),
        other => panic!("unexpected step {other:?}"),
    }
    assert!(matches!(session.on_message(None), WsStep::Wait { ms: 10 }));
    let error = session.on_message(Some(WsMessage::Error { message: "early".to_string() }));
    assert!(matches!(error, WsStep::Forward(AppStateDiff::Error { ref message }) if message == "early"));
    let id = ClientId { idx: 7, version: 2 };
    assert!(matches!(
        session.on_message(Some(WsMessage::Registered { client_id: id, role: None })),
        WsStep::Continue
    ));
    assert_eq!(session.client_id(), Some(id));
    assert!(matches!(
        session.on_message(Some(WsMessage::State { current: 1, current_step: 2, mode: StateMode::Running })),
        WsStep::Forward(AppStateDiff::UpdateSlide { current: 1, current_step: 2, mode: StateMode::Running })
    ));
    assert!(matches!(session.on_message(Some(WsMessage::Blink)), WsStep::Forward(AppStateDiff::Blink)));
    assert!(matches!(
        session.on_message(Some(WsMessage::TalkChanged)),
        WsStep::Forward(AppStateDiff::TalkReload)
    ));
    // once registered, a refused command is benign
    assert!(matches!(
        session.on_message(Some(WsMessage::Error { message: "This client is watching, not presenting".to_string() })),
        WsStep::Continue
    ));
    assert!(matches!(
        session.on_message(Some(WsMessage::Connected)),
        WsStep::Fail(WsError::UnexpectedConnected)
    ));
    assert!(matches!(session.on_message(Some(WsMessage::Closed)), WsStep::Close { client_id: Some(c) } if c == id));
}

#[test]
fn session_fails_on_unexpected_first_event() {
    let mut session = WsSession::new();
    assert!(matches!(
        session.on_message(Some(WsMessage::Blink)),
        WsStep::Fail(WsError::UnexpectedFirstEvent(WsMessage::Blink))
    ));
}

#[test]
fn session_times_out_after_one_hundred_empty_polls() {
    let mut queue: Queue<WsMessage, 4> = Queue::new();
    let (_producer, consumer) = queue.split();
    let mut source = EventSource::new(consumer);
    let mut session = WsSession::new();
    for _ in 0..100 {
        assert!(matches!(session.poll(&mut source), WsStep::Wait { ms: 100 }));
    }
    assert!(matches!(session.poll(&mut source), WsStep::Fail(WsError::ConnectionTimeout)));
}

#[test]
fn session_polls_the_queue() {
    let mut queue: Queue<WsMessage, 4> = Queue::new();
    let (producer, consumer) = queue.split();
    let mut events = EventQueue::new(producer);
    let mut source = EventSource::new(consumer);
    let mut session = WsSession::new();
    handle_event(&mut events, WsEvent::Connected);
    assert!(matches!(session.poll(&mut source), WsStep::Send { .. }));
    handle_event(&mut events, WsEvent::Disconnected);
    assert!(matches!(session.poll(&mut source), WsStep::Close { client_id: None }));
}

#[test]
fn unregister_frame_wraps_the_client_id() {
    assert_eq!(
        unregister_frame("{\"idx\":1,\"version\":3}"),
        "{\"command\":\"Unregister\",\"client\":{\"idx\":1,\"version\":3}}"
    );
}

#[test]
fn talk_data_pads_and_cuts_step_counts() {
    let talk = Talk {
        title: "T".to_string(),
        titles: vec!["a".to_string(), "b".to_string(), "c".to_string()],
        step_counts: vec![2],
    };
    let data = talk_data_from(talk);
    assert_eq!(data.step_counts, vec![2, 0, 0]);
    assert_eq!(data.slides, vec!["a", "b", "c"]);
    let talk = Talk { title: "T".to_string(), titles: vec!["a".to_string()], step_counts: vec![4, 5, 6] };
    assert_eq!(talk_data_from(talk).step_counts, vec![4]);
    let talk = Talk { title: "T".to_string(), titles: vec!["a".to_string(), "b".to_string()], step_counts: vec![] };
    assert_eq!(talk_data_from(talk).step_counts, vec![0, 0]);
}

#[test]
fn snippet_trims_and_shortens() {
    assert_eq!(snippet("   \n "), "<empty body>");
    assert_eq!(snippet("  not found \n"), "not found");
    let long = "x".repeat(100);
    assert_eq!(snippet(&long), format!("{}...", "x".repeat(80)));
    let exact = "é".repeat(80);
    assert_eq!(snippet(&exact), exact);
}

#[test]
fn talk_uri_drops_trailing_slashes() {
    assert_eq!(talk_uri("http://10.0.0.2:8080"), "http://10.0.0.2:8080/api/talk");
    assert_eq!(talk_uri("http://10.0.0.2:8080//"), "http://10.0.0.2:8080/api/talk");
}

#[test]
fn check_status_reports_failures() {
    assert!(check_status(200, "{}").is_ok());
    assert!(check_status(299, "").is_ok());
    assert_eq!(check_status(404, " Not Found "), Err("HTTP 404: Not Found".to_string()));
    assert_eq!(check_status(500, ""), Err("HTTP 500: <empty body>".to_string()));
    assert_eq!(check_status(199, "x"), Err("HTTP 199: x".to_string()));
}

#[test]
fn candidates_prefer_the_primary_host() {
    assert_eq!(candidates("box.local", Some("192.168.1.10")), vec!["box.local", "192.168.1.10"]);
    assert_eq!(candidates("box.local", None), vec!["box.local"]);
    assert_eq!(candidates("", Some("10.0.0.1")), vec!["10.0.0.1"]);
    assert!(candidates("", Some("")).is_empty());
}

#[test]
fn preferred_address_is_the_first_ipv4() {
    assert_eq!(preferred_address(&vec![false, true, true]), Some(1));
    assert_eq!(preferred_address(&vec![false, false]), Some(0));
    assert_eq!(preferred_address(&vec![]), None);
}

#[test]
fn resolve_error_lists_every_failure() {
    let failures = vec![
        resolve_failure("box.local", "failed to lookup address information"),
        resolve_failure("10.0.0.1", "no address"),
    ];
    assert_eq!(
        resolve_error(&failures),
        "resolve box.local: failed to lookup address information, 10.0.0.1: no address"
    );
    assert_eq!(resolve_error(&vec![]), "resolve ");
}

#[test]
fn wifi_auth_decides_the_method() {
    assert_eq!(wifi_auth("", "x"), Err("Missing WiFi name".to_string()));
    assert_eq!(wifi_auth("home", ""), Ok(AuthKind::Open));
    assert_eq!(wifi_auth("home", "secret"), Ok(AuthKind::Wpa2Personal));
}

#[test]
fn target_channel_finds_the_first_match() {
    let aps = vec![
        AccessPoint { ssid: "other".to_string(), channel: 1 },
        AccessPoint { ssid: "home".to_string(), channel: 6 },
        AccessPoint { ssid: "home".to_string(), channel: 11 },
    ];
    assert_eq!(target_channel(&aps, "home"), Some(6));
    assert_eq!(target_channel(&aps, "absent"), None);
}

#[test]
fn talk_fetch_outcomes() {
    assert_eq!(
        talk_fetch_diff(TalkFetch::Initial, None),
        Some(AppStateDiff::Transition(AppState::Initialized))
    );
    assert_eq!(
        talk_fetch_diff(TalkFetch::Initial, Some("HTTP 500: boom".to_string())),
        Some(AppStateDiff::Error { message: "HTTP 500: boom".to_string() })
    );
    assert_eq!(talk_fetch_diff(TalkFetch::Reload, Some("x".to_string())), None);
    assert_eq!(talk_fetch_diff(TalkFetch::Reload, None), None);
}

#[test]
fn wifi_outcomes() {
    assert_eq!(
        wifi_diff("home", None),
        AppStateDiff::Transition(AppState::Connected { ssid: "home".to_string() })
    );
    assert_eq!(
        wifi_diff("home", Some("timeout".to_string())),
        AppStateDiff::Error { message: "WiFi failed: timeout".to_string() }
    );
}

#[test]
fn reconnect_delay_doubles_up_to_a_minute() {
    assert_eq!(next_reconnect_delay(5000, false), 10000);
    assert_eq!(next_reconnect_delay(20000, false), 40000);
    assert_eq!(next_reconnect_delay(40000, false), 60000);
    assert_eq!(next_reconnect_delay(60000, false), 60000);
    assert_eq!(next_reconnect_delay(u64::MAX, false), 60000);
    assert_eq!(next_reconnect_delay(60000, true), 10000);
}

#[test]
fn response_body_decodes_or_reports_the_status() {
    assert_eq!(response_body(200, "{\"title\":\"é\"}".as_bytes()), Ok("{\"title\":\"é\"}".to_string()));
    assert_eq!(response_body(200, &[0x61, 0xFF, 0x62]), Ok("a\u{FFFD}b".to_string()));
    assert_eq!(response_body(503, b"  busy  "), Err("HTTP 503: busy".to_string()));
}

#[test]
fn parse_port_reads_decimal_ports() {
    assert_eq!(parse_port("8080"), Ok(8080));
    assert_eq!(parse_port("+80"), Ok(80));
    assert_eq!(parse_port("0"), Ok(0));
    assert_eq!(parse_port("65535"), Ok(65535));
    assert_eq!(parse_port("00065535"), Ok(65535));
    assert_eq!(parse_port("65536"), Err("Expected a numeric port".to_string()));
    assert_eq!(parse_port(""), Err("Expected a numeric port".to_string()));
    assert_eq!(parse_port("+"), Err("Expected a numeric port".to_string()));
    assert_eq!(parse_port("-1"), Err("Expected a numeric port".to_string()));
    assert_eq!(parse_port("80a"), Err("Expected a numeric port".to_string()));
    assert_eq!(parse_port(" 80"), Err("Expected a numeric port".to_string()));
    for text in ["1", "443", "9999", "70000", "+12", "x"] {
        assert_eq!(parse_port(text).ok(), text.parse::<u16>().ok());
    }
}

#[test]
fn ports_written_in_decimal_read_back() {
    for port in [0u16, 7, 80, 443, 8080, 65535] {
        let mut text = String::new();
        toboggan_esp32::text::push_decimal(&mut text, port as usize);
        assert_eq!(text, port.to_string());
        assert_eq!(parse_port(&text), Ok(port));
    }
}
