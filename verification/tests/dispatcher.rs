use jamsession::dispatcher::{
    client_request, AgentRoute, ClientRequest, DispatcherState, Effect, LifecycleEvent, Reconnect, RequestKind,
    TracePayload,
};
use jamsession::events::lifecycle_trace;
use jamsession::tables::SessionRecord;

fn record(sid: &str, cwd: &str) -> SessionRecord {
    SessionRecord {
        session_id: sid.to_string(),
        cwd: cwd.to_string(),
        created_at: "2026-01-01T00:00:00Z".to_string(),
        updated_at: "2026-01-01T00:00:00Z".to_string(),
    }
}

/// Keeps the lifecycle events among `effects`.
fn emitted(effects: Vec<Effect>, into: &mut Vec<LifecycleEvent>) {
    for e in effects {
        if let Effect::Emit(ev) = e {
            into.push(ev);
        }
    }
}

fn quiescence_generation(effects: &[Effect]) -> Option<u64> {
    effects.iter().find_map(|e| match e {
        Effect::StartQuiescenceTimer { generation, .. } => Some(*generation),
        _ => None,
    })
}

fn idle_generation(effects: &[Effect]) -> Option<u64> {
    effects.iter().find_map(|e| match e {
        Effect::StartIdleTimer { generation, .. } => Some(*generation),
        _ => None,
    })
}

/// A new session for client 1 served by a fresh agent.
fn new_session(d: &mut DispatcherState, sid: &str, events: &mut Vec<LifecycleEvent>) -> u64 {
    emitted(d.client_registered(1), events);
    let agent = d.generate_agent_id();
    let (effects, is_new) = d.agent_ready(agent, sid, 1);
    assert!(is_new);
    emitted(effects, events);
    d.session_created(agent, 1, record(sid, "/tmp"));
    emitted(d.request_outcome(RequestKind::New, true, sid), events);
    agent
}

#[test]
fn session_lifecycle_until_idle_kill() {
    let mut d = DispatcherState::new(false);
    let mut events = vec![LifecycleEvent::Initialized];
    let agent = new_session(&mut d, "sess-a", &mut events);
    assert_eq!(agent, 1);
    assert_eq!(d.route_to_agent(1), Some((1, "sess-a".to_string())));
    assert_eq!(d.session_of_client(1).as_deref(), Some("sess-a"));

    // The last client leaves: the quiescence timer starts.
    let effects = d.client_disconnected(1);
    let g = quiescence_generation(&effects).expect("quiescence timer");
    emitted(effects, &mut events);
    assert_eq!(d.session_of_client(1), None);

    // The timer fires with no activity since: quiescent, then idle timer.
    let effects = d.agent_quiescent("sess-a", g);
    let g2 = idle_generation(&effects).expect("idle timer");
    emitted(effects, &mut events);

    // The idle timer fires: the agent is dropped.
    let effects = d.idle_timeout("sess-a", g2);
    assert!(effects
        .iter()
        .any(|e| matches!(e, Effect::CloseAgent { agent_id: 1 })));
    emitted(effects, &mut events);

    assert_eq!(
        lifecycle_trace(&events),
        "Initialized\nClientConnected\nSessionCreated($session0)\nClientDisconnected($session0)\nAgentQuiescent($session0)\nAgentKilledIdle($session0)"
    );

    // Loading the dead session respawns its agent under a new id.
    match d.reconnect("sess-a") {
        Reconnect::Respawn { agent_id, cwd } => {
            assert_eq!(agent_id, 2);
            assert_eq!(cwd, "/tmp");
        }
        other => panic!("expected respawn, got {other:?}"),
    }
}

#[test]
fn stale_timers_are_ignored() {
    let mut d = DispatcherState::new(false);
    let mut events = Vec::new();
    new_session(&mut d, "sess-a", &mut events);
    let effects = d.client_disconnected(1);
    let g = quiescence_generation(&effects).unwrap();
    // The agent speaks again: the pending timer is now stale.
    match d.from_agent(1) {
        AgentRoute::Routed { session_id, client } => {
            assert_eq!(session_id, "sess-a");
            assert_eq!(client, None);
        }
        other => panic!("expected routed, got {other:?}"),
    }
    assert!(d.agent_quiescent("sess-a", g).is_empty());
    assert!(d.idle_timeout("sess-a", g).is_empty());
}

#[test]
fn agent_output_goes_to_the_latest_client() {
    let mut d = DispatcherState::new(false);
    let mut events = Vec::new();
    new_session(&mut d, "sess-a", &mut events);
    emitted(d.client_registered(2), &mut events);
    assert!(matches!(d.reconnect("sess-a"), Reconnect::Live));
    d.attach(2, "sess-a");
    match d.from_agent(1) {
        AgentRoute::Routed { client, .. } => assert_eq!(client, Some(2)),
        other => panic!("expected routed, got {other:?}"),
    }
    // Another client still holds the session: no quiescence timer.
    let effects = d.client_disconnected(2);
    assert_eq!(quiescence_generation(&effects), None);
    match d.from_agent(1) {
        AgentRoute::Routed { client, .. } => assert_eq!(client, Some(1)),
        other => panic!("expected routed, got {other:?}"),
    }
    assert!(matches!(d.from_agent(99), AgentRoute::UnknownAgent));
}

#[test]
fn crashed_agent_marks_session_dead() {
    let mut d = DispatcherState::new(true);
    let mut events = Vec::new();
    new_session(&mut d, "sess-a", &mut events);
    let effects = d.agent_disconnected(1);
    assert!(effects.iter().any(|e| matches!(
        e,
        Effect::Trace { method: "agent_crashed", payload: TracePayload::AgentId(1), .. }
    )));
    assert_eq!(d.route_to_agent(1), None);
    assert!(matches!(d.reconnect("sess-a"), Reconnect::Respawn { agent_id: 2, .. }));
    assert!(matches!(d.reconnect("nope"), Reconnect::NotFound));
}

#[test]
fn tracing_adds_trace_rows() {
    let mut quiet = DispatcherState::new(false);
    let mut loud = DispatcherState::new(true);
    assert!(!quiet.tracing());
    assert!(loud.tracing());
    assert_eq!(quiet.client_registered(1).len(), 1);
    let effects = loud.client_registered(1);
    assert_eq!(effects.len(), 2);
    assert!(matches!(
        &effects[0],
        Effect::Trace { session_id: None, role: "acp-client", method: "client_connected", payload: TracePayload::Empty }
    ));
}

#[test]
fn restored_sessions_are_dead_until_loaded() {
    let mut d = DispatcherState::new(false);
    d.restore(vec![record("s1", "/a"), record("s2", "/b")]);
    assert!(d.has_session("s1"));
    assert!(d.has_session("s2"));
    assert!(!d.has_session("s3"));
    let mut entries = d.session_entries();
    entries.sort();
    assert_eq!(
        entries,
        vec![
            ("s1".to_string(), "/a".to_string()),
            ("s2".to_string(), "/b".to_string()),
        ]
    );
    match d.reconnect("s2") {
        Reconnect::Respawn { agent_id, cwd } => {
            assert_eq!(agent_id, 1);
            assert_eq!(cwd, "/b");
        }
        other => panic!("expected respawn, got {other:?}"),
    }
}

#[test]
fn removing_a_session_closes_its_agent() {
    let mut d = DispatcherState::new(false);
    let mut events = Vec::new();
    new_session(&mut d, "sess-a", &mut events);
    let effects = d.remove_session("sess-a");
    assert!(matches!(effects.as_slice(), [Effect::CloseAgent { agent_id: 1 }]));
    assert!(!d.has_session("sess-a"));
    assert_eq!(d.session_of_client(1), None);
    assert!(d.remove_session("sess-a").is_empty());
}

#[test]
fn load_and_resume_outcomes() {
    let d = DispatcherState::new(true);
    let effects = d.request_outcome(RequestKind::Load, false, "s");
    assert!(matches!(
        effects.as_slice(),
        [Effect::Trace { method: "session_loaded", .. }, Effect::Emit(LifecycleEvent::SessionLoaded { .. })]
    ));
    let effects = d.request_outcome(RequestKind::Resume, false, "s");
    assert!(matches!(
        effects.as_slice(),
        [Effect::Trace { method: "session_resumed", .. }, Effect::Emit(LifecycleEvent::SessionResumed { .. })]
    ));
    // A `session/new` that reused an existing session emits nothing.
    assert!(d.request_outcome(RequestKind::New, false, "s").is_empty());
    let effects = d.model_set("s", "a", "b");
    assert!(matches!(
        effects.as_slice(),
        [Effect::Trace { method: "model_set", payload: TracePayload::ModelChange { .. }, .. }]
    ));
}

#[test]
fn client_methods_pick_their_handlers() {
    assert_eq!(client_request("initialize"), ClientRequest::Initialize);
    assert_eq!(client_request("session/list"), ClientRequest::ListSessions);
    assert_eq!(client_request("session/new"), ClientRequest::NewSession);
    assert_eq!(client_request("session/load"), ClientRequest::LoadSession);
    assert_eq!(client_request("session/resume"), ClientRequest::ResumeSession);
    assert_eq!(client_request("session/prompt"), ClientRequest::Prompt);
    assert_eq!(client_request("session/cancel"), ClientRequest::Forward);
    assert_eq!(client_request("session/set_config_option"), ClientRequest::Forward);
    assert_eq!(client_request(""), ClientRequest::Forward);
    assert_eq!(client_request("Initialize"), ClientRequest::Forward);
    assert_eq!(client_request("session/new "), ClientRequest::Forward);
}

#[test]
fn no_trace_rows_without_tracing() {
    let mut d = DispatcherState::new(false);
    let mut effects = Vec::new();
    effects.extend(d.client_registered(1));
    let agent = d.generate_agent_id();
    let (ready, is_new) = d.agent_ready(agent, "sess-a", 1);
    effects.extend(ready);
    assert!(is_new);
    d.session_created(agent, 1, record("sess-a", "/tmp"));
    effects.extend(d.request_outcome(RequestKind::New, true, "sess-a"));
    effects.extend(d.model_set("sess-a", "a", "b"));
    effects.extend(d.client_disconnected(1));
    effects.extend(d.agent_disconnected(agent));
    assert!(!effects.is_empty());
    assert!(effects.iter().all(|e| !matches!(e, Effect::Trace { .. })));
}
