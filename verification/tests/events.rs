use jamsession::dispatcher::LifecycleEvent;
use jamsession::events::{lifecycle_trace, normalize_event_display, normalize_session_id};

fn created(sid: &str) -> LifecycleEvent {
    LifecycleEvent::SessionCreated { session_id: sid.to_string() }
}

#[test]
fn session_ids_are_numbered_by_first_appearance() {
    let mut ids = Vec::new();
    assert_eq!(normalize_session_id(&"x".to_string(), &mut ids), "$session0");
    assert_eq!(normalize_session_id(&"y".to_string(), &mut ids), "$session1");
    assert_eq!(normalize_session_id(&"x".to_string(), &mut ids), "$session0");
    assert_eq!(ids, vec!["x".to_string(), "y".to_string()]);
}

#[test]
fn events_without_session_keep_their_name() {
    let mut ids = Vec::new();
    assert_eq!(normalize_event_display(&LifecycleEvent::Initialized, &mut ids), "Initialized");
    assert_eq!(normalize_event_display(&LifecycleEvent::ClientConnected, &mut ids), "ClientConnected");
    assert_eq!(
        normalize_event_display(&LifecycleEvent::ClientDisconnected { session_id: None }, &mut ids),
        "ClientDisconnected"
    );
    assert!(ids.is_empty());
}

#[test]
fn every_session_event_is_tagged() {
    let mut ids = vec!["a".to_string()];
    let s = |v: &str| v.to_string();
    assert_eq!(
        normalize_event_display(&LifecycleEvent::ClientDisconnected { session_id: Some(s("a")) }, &mut ids),
        "ClientDisconnected($session0)"
    );
    assert_eq!(
        normalize_event_display(&LifecycleEvent::SessionLoaded { session_id: s("b") }, &mut ids),
        "SessionLoaded($session1)"
    );
    assert_eq!(
        normalize_event_display(&LifecycleEvent::SessionResumed { session_id: s("b") }, &mut ids),
        "SessionResumed($session1)"
    );
    assert_eq!(
        normalize_event_display(&LifecycleEvent::AgentQuiescent { session_id: s("c") }, &mut ids),
        "AgentQuiescent($session2)"
    );
    assert_eq!(
        normalize_event_display(&LifecycleEvent::AgentKilledIdle { session_id: s("a") }, &mut ids),
        "AgentKilledIdle($session0)"
    );
}

#[test]
fn trace_of_a_basic_session() {
    let events = vec![
        LifecycleEvent::Initialized,
        LifecycleEvent::ClientConnected,
        created("sess_9f2"),
    ];
    assert_eq!(
        lifecycle_trace(&events),
        "Initialized\nClientConnected\nSessionCreated($session0)"
    );
    assert_eq!(lifecycle_trace(&Vec::new()), "");
}

#[test]
fn numbers_past_nine_have_several_digits() {
    let events: Vec<LifecycleEvent> = (0..12).map(|i| created(&format!("s{i}"))).collect();
    let trace = lifecycle_trace(&events);
    assert!(trace.ends_with("SessionCreated($session10)\nSessionCreated($session11)"), "{trace}");
}
