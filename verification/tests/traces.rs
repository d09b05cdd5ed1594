use jamsession::db::{TraceDirection, TraceKind};
use jamsession::dispatcher::TracePayload;
use jamsession::json::JsonValue;
use jamsession::traces::{
    dispatch_trace, event_trace, payload_json, response_payload, sent_response_trace,
    trace_record, Dispatched, RecordError, Trace,
};

fn row(ts: &str, dir: &str, kind: &str) -> Trace {
    Trace {
        id: 3,
        ts: ts.to_string(),
        session_id: Some("sess-1".to_string()),
        dir: dir.to_string(),
        role: Some("acp-client".to_string()),
        kind: kind.to_string(),
        method: Some("session/prompt".to_string()),
        request_id: Some("1".to_string()),
        payload: JsonValue::Null,
    }
}

fn member<'a>(v: &'a JsonValue, key: &str) -> Option<&'a JsonValue> {
    v.get(key)
}

#[test]
fn stored_rows_read_back() {
    let rec = trace_record(row("2026-06-30T10:00:00.123Z", "client_to_daemon", "request")).unwrap();
    assert_eq!(rec.id, 3);
    assert_eq!(rec.dir, TraceDirection::ClientToDaemon);
    assert_eq!(rec.kind, TraceKind::Request);
    assert_eq!(rec.ts.nanos, 123_000_000);
    assert_eq!(rec.session_id.as_deref(), Some("sess-1"));
    assert_eq!(rec.method.as_deref(), Some("session/prompt"));
}

#[test]
fn bad_rows_are_refused_in_order() {
    assert!(matches!(
        trace_record(row("yesterday", "sideways", "odd")),
        Err(RecordError::Timestamp(_))
    ));
    match trace_record(row("2026-06-30T10:00:00Z", "sideways", "odd")) {
        Err(RecordError::TraceParse(e)) => assert_eq!(e.0, "sideways"),
        other => panic!("unexpected {other:?}"),
    }
    match trace_record(row("2026-06-30T10:00:00Z", "internal", "odd")) {
        Err(RecordError::TraceParse(e)) => assert_eq!(e.0, "odd"),
        other => panic!("unexpected {other:?}"),
    }
}

#[test]
fn event_payloads() {
    let p = payload_json(TracePayload::AgentId(12));
    assert!(matches!(member(&p, "agent_id"), Some(JsonValue::Number(n)) if n == "12"));
    let p = payload_json(TracePayload::SessionId("s".to_string()));
    assert!(matches!(member(&p, "session_id"), Some(JsonValue::String(n)) if n == "s"));
    let p = payload_json(TracePayload::ModelChange { from: "a".to_string(), to: "b".to_string() });
    assert!(matches!(member(&p, "from"), Some(JsonValue::String(n)) if n == "a"));
    assert!(matches!(member(&p, "to"), Some(JsonValue::String(n)) if n == "b"));
    assert!(matches!(payload_json(TracePayload::Empty), JsonValue::Object(m) if m.is_empty()));

    let t = event_trace(None, "daemon", "session_created", TracePayload::SessionId("s".to_string()));
    assert_eq!(t.dir, TraceDirection::Internal);
    assert_eq!(t.kind, TraceKind::Event);
    assert_eq!(t.role.as_deref(), Some("daemon"));
    assert_eq!(t.method.as_deref(), Some("session_created"));
    assert_eq!(t.request_id, None);
}

#[test]
fn relayed_messages() {
    assert!(dispatch_trace(
        false,
        None,
        TraceDirection::ClientToDaemon,
        "acp-client",
        Dispatched::Notification { method: "x".to_string(), params: JsonValue::Null },
    )
    .is_none());
    let t = dispatch_trace(
        true,
        Some("s".to_string()),
        TraceDirection::ClientToDaemon,
        "acp-client",
        Dispatched::Request {
            method: "session/prompt".to_string(),
            id: JsonValue::Number("7".to_string()),
            params: JsonValue::Bool(true),
        },
    )
    .unwrap();
    assert_eq!(t.kind, TraceKind::Request);
    assert_eq!(t.request_id.as_deref(), Some("7"));
    assert!(matches!(t.payload, JsonValue::Bool(true)));
    let t = dispatch_trace(
        true,
        None,
        TraceDirection::AgentToDaemon,
        "agent",
        Dispatched::Response {
            method: "session/new".to_string(),
            id: JsonValue::String("r1".to_string()),
            result: Err("Internal error".to_string()),
        },
    )
    .unwrap();
    assert_eq!(t.kind, TraceKind::Response);
    assert_eq!(t.request_id.as_deref(), Some("r1"));
    assert!(matches!(member(&t.payload, "error"), Some(JsonValue::String(e)) if e == "Internal error"));
}

#[test]
fn responses_sent_by_the_daemon() {
    let payload = response_payload(Ok(JsonValue::Number("1".to_string())));
    assert!(matches!(member(&payload, "result"), Some(JsonValue::Number(n)) if n == "1"));
    let t = sent_response_trace(Some("s".to_string()), "session/list".to_string(), "4".to_string(), payload);
    assert_eq!(t.dir, TraceDirection::DaemonToClient);
    assert_eq!(t.kind, TraceKind::Response);
    assert_eq!(t.role.as_deref(), Some("acp-client"));
}
