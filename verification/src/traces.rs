//! Trace rows: what is recorded for each message the daemon relays and each
//! internal event, and how a stored row is read back.

use vstd::prelude::*;
use vstd::string::*;
use crate::db::{direction_of, kind_of, TraceDirection, TraceKind, TraceParseError};
use crate::debug::{parse_since, rfc3339_instant, Timestamp};
use crate::dispatcher::{PayloadView, TracePayload};
use crate::json::JsonValue;
use crate::jsontext::{id_text, json_id_to_string};
use crate::number::{append_decimal, decimal_text};

verus! {

broadcast use vstd::string::group_string_axioms;

/// A row of the trace table, as stored: the timestamp is RFC 3339 text and
/// the direction and kind are their stored names.
#[derive(Debug)]
pub struct Trace {
    pub id: u64,
    pub ts: String,
    pub session_id: Option<String>,
    pub dir: String,
    pub role: Option<String>,
    pub kind: String,
    pub method: Option<String>,
    pub request_id: Option<String>,
    pub payload: JsonValue,
}

/// A trace to record (the store adds the id and the timestamp).
#[derive(Debug)]
pub struct NewTrace {
    pub session_id: Option<String>,
    pub dir: TraceDirection,
    pub role: Option<String>,
    pub kind: TraceKind,
    pub method: Option<String>,
    pub request_id: Option<String>,
    pub payload: JsonValue,
}

/// A trace row read back.
#[derive(Debug)]
pub struct TraceRecord {
    pub id: u64,
    pub ts: Timestamp,
    pub session_id: Option<String>,
    pub dir: TraceDirection,
    pub role: Option<String>,
    pub kind: TraceKind,
    pub method: Option<String>,
    pub request_id: Option<String>,
    pub payload: JsonValue,
}

/// Why a stored row could not be read back.
#[derive(Debug)]
pub enum RecordError {
    /// The timestamp is not RFC 3339.
    Timestamp(chrono::ParseError),
    /// The direction or kind is not a known name.
    TraceParse(TraceParseError),
}

/// The view of an optional string.
pub open spec fn opt_text(o: Option<String>) -> Option<Seq<char>> {
    match o {
        Some(s) => Some(s@),
        None => None,
    }
}

/// Read a stored row back: its timestamp, then its direction, then its kind
/// must parse; the other fields are kept.
pub fn trace_record(trace: Trace) -> (r: Result<TraceRecord, RecordError>)
    ensures
        match r {
            Ok(rec) => {
                &&& rfc3339_instant(trace.ts@) == Some((rec.ts.secs, rec.ts.nanos))
                &&& direction_of(trace.dir@) == Some(rec.dir)
                &&& kind_of(trace.kind@) == Some(rec.kind)
                &&& rec.id == trace.id
                &&& opt_text(rec.session_id) == opt_text(trace.session_id)
                &&& opt_text(rec.role) == opt_text(trace.role)
                &&& opt_text(rec.method) == opt_text(trace.method)
                &&& opt_text(rec.request_id) == opt_text(trace.request_id)
                &&& rec.payload == trace.payload
            },
            Err(RecordError::Timestamp(_)) => rfc3339_instant(trace.ts@) is None,
            Err(RecordError::TraceParse(e)) => {
                &&& rfc3339_instant(trace.ts@) is Some
                &&& (direction_of(trace.dir@) is None && e.0@ == trace.dir@
                    || direction_of(trace.dir@) is Some && kind_of(trace.kind@) is None && e.0@ == trace.kind@)
            },
        },
{
    let ts = match parse_since(trace.ts.as_str()) {
        Ok(t) => t,
        Err(e) => {
            return Err(RecordError::Timestamp(e));
        },
    };
    let dir = match TraceDirection::parse(trace.dir.as_str()) {
        Ok(d) => d,
        Err(e) => {
            return Err(RecordError::TraceParse(e));
        },
    };
    let kind = match TraceKind::parse(trace.kind.as_str()) {
        Ok(k) => k,
        Err(e) => {
            return Err(RecordError::TraceParse(e));
        },
    };
    Ok(TraceRecord {
        id: trace.id,
        ts,
        session_id: trace.session_id,
        dir,
        role: trace.role,
        kind,
        method: trace.method,
        request_id: trace.request_id,
        payload: trace.payload,
    })
}

/// The value of `v` when it is an object with the single member `key`.
pub open spec fn single_member(v: JsonValue, key: Seq<char>) -> Option<JsonValue> {
    match v {
        JsonValue::Object(m) => if m@.len() == 1 && m@[0].0@ == key {
            Some(m@[0].1)
        } else {
            None
        },
        _ => None,
    }
}

fn object_of(key: &str, value: JsonValue) -> (v: JsonValue)
    ensures
        single_member(v, key@) == Some(value),
{
    let mut m: Vec<(String, JsonValue)> = Vec::new();
    m.push((String::from_str(key), value));
    JsonValue::Object(m)
}

/// The text of `v` when it is a JSON string.
pub open spec fn string_value(v: JsonValue) -> Option<Seq<char>> {
    match v {
        JsonValue::String(s) => Some(s@),
        _ => None,
    }
}

/// The JSON payload of an internal event: `{}`, `{"agent_id": ID}`,
/// `{"session_id": ID}` or `{"from": FROM, "to": TO}`.
pub open spec fn payload_is(v: JsonValue, p: PayloadView) -> bool {
    match p {
        PayloadView::Empty => match v {
            JsonValue::Object(m) => m@.len() == 0,
            _ => false,
        },
        PayloadView::AgentId(a) => match single_member(v, "agent_id"@) {
            Some(JsonValue::Number(n)) => n@ == decimal_text(a as nat),
            _ => false,
        },
        PayloadView::SessionId(s) => match single_member(v, "session_id"@) {
            Some(x) => string_value(x) == Some(s),
            None => false,
        },
        PayloadView::ModelChange { from, to } => match v {
            JsonValue::Object(m) => {
                &&& m@.len() == 2
                &&& m@[0].0@ == "from"@
                &&& string_value(m@[0].1) == Some(from)
                &&& m@[1].0@ == "to"@
                &&& string_value(m@[1].1) == Some(to)
            },
            _ => false,
        },
    }
}

/// The JSON payload of an internal event.
pub fn payload_json(p: TracePayload) -> (v: JsonValue)
    ensures
        payload_is(v, p@),
{
    match p {
        TracePayload::Empty => JsonValue::Object(Vec::new()),
        TracePayload::AgentId(a) => {
            let mut n = String::new();
            append_decimal(&mut n, a);
            object_of("agent_id", JsonValue::Number(n))
        },
        TracePayload::SessionId(s) => object_of("session_id", JsonValue::String(s)),
        TracePayload::ModelChange { from, to } => {
            let mut m: Vec<(String, JsonValue)> = Vec::new();
            m.push((String::from_str("from"), JsonValue::String(from)));
            m.push((String::from_str("to"), JsonValue::String(to)));
            JsonValue::Object(m)
        },
    }
}

/// The trace of an internal event: direction `internal`, kind `event`, no
/// request id.
pub fn event_trace(session_id: Option<String>, role: &str, method: &str, payload: TracePayload) -> (t: NewTrace)
    ensures
        opt_text(t.session_id) == opt_text(session_id),
        t.dir == TraceDirection::Internal,
        t.kind == TraceKind::Event,
        opt_text(t.role) == Some(role@),
        opt_text(t.method) == Some(method@),
        t.request_id is None,
        payload_is(t.payload, payload@),
{
    NewTrace {
        session_id,
        dir: TraceDirection::Internal,
        role: Some(String::from_str(role)),
        kind: TraceKind::Event,
        method: Some(String::from_str(method)),
        request_id: None,
        payload: payload_json(payload),
    }
}

/// The payload recorded for a response: `{"result": VALUE}`, or
/// `{"error": TEXT}` for an error.
pub fn response_payload(result: Result<JsonValue, String>) -> (v: JsonValue)
    ensures
        match result {
            Ok(x) => single_member(v, "result"@) == Some(x),
            Err(e) => match single_member(v, "error"@) {
                Some(x) => string_value(x) == Some(e@),
                None => false,
            },
        },
{
    match result {
        Ok(x) => object_of("result", x),
        Err(e) => object_of("error", JsonValue::String(e)),
    }
}

/// A JSON-RPC message as the trace table sees it.
#[derive(Debug)]
pub enum Dispatched {
    /// A request with its id and parameters.
    Request { method: String, id: JsonValue, params: JsonValue },
    /// A notification with its parameters.
    Notification { method: String, params: JsonValue },
    /// A response to the request `id` of `method`: its result, or the text
    /// of its error.
    Response { method: String, id: JsonValue, result: Result<JsonValue, String> },
}

/// The trace of a relayed message, when tracing is on: its kind follows the
/// message, its payload is the parameters (or, for a response, the result or
/// the error), and its request id is the message's id as text.
pub fn dispatch_trace(trace: bool, session_id: Option<String>, dir: TraceDirection, role: &str, message: Dispatched) -> (r: Option<NewTrace>)
    ensures
        !trace <==> r is None,
        r matches Some(t) ==> {
            &&& opt_text(t.session_id) == opt_text(session_id)
            &&& t.dir == dir
            &&& opt_text(t.role) == Some(role@)
            &&& match message {
                Dispatched::Request { method, id, params } => t.kind == TraceKind::Request && opt_text(t.method) == Some(method@)
                    && opt_text(t.request_id) == Some(id_text(id)) && t.payload == params,
                Dispatched::Notification { method, params } => t.kind == TraceKind::Notification && opt_text(t.method) == Some(method@)
                    && t.request_id is None && t.payload == params,
                Dispatched::Response { method, id, result } => t.kind == TraceKind::Response && opt_text(t.method) == Some(method@)
                    && opt_text(t.request_id) == Some(id_text(id)) && match result {
                        Ok(x) => single_member(t.payload, "result"@) == Some(x),
                        Err(e) => match single_member(t.payload, "error"@) {
                            Some(x) => string_value(x) == Some(e@),
                            None => false,
                        },
                    },
            }
        },
{
    if !trace {
        return None;
    }
    let role = Some(String::from_str(role));
    match message {
        Dispatched::Request { method, id, params } => Some(NewTrace {
            session_id,
            dir,
            role,
            kind: TraceKind::Request,
            method: Some(method),
            request_id: Some(json_id_to_string(&id)),
            payload: params,
        }),
        Dispatched::Notification { method, params } => Some(NewTrace {
            session_id,
            dir,
            role,
            kind: TraceKind::Notification,
            method: Some(method),
            request_id: None,
            payload: params,
        }),
        Dispatched::Response { method, id, result } => Some(NewTrace {
            session_id,
            dir,
            role,
            kind: TraceKind::Response,
            method: Some(method),
            request_id: Some(json_id_to_string(&id)),
            payload: response_payload(result),
        }),
    }
}

/// The trace of a response the daemon itself sent to a client.
pub fn sent_response_trace(session_id: Option<String>, method: String, request_id: String, payload: JsonValue) -> (t: NewTrace)
    ensures
        opt_text(t.session_id) == opt_text(session_id),
        t.dir == TraceDirection::DaemonToClient,
        t.kind == TraceKind::Response,
        opt_text(t.role) == Some("acp-client"@),
        opt_text(t.method) == Some(method@),
        opt_text(t.request_id) == Some(request_id@),
        t.payload == payload,
{
    NewTrace {
        session_id,
        dir: TraceDirection::DaemonToClient,
        role: Some(String::from_str("acp-client")),
        kind: TraceKind::Response,
        method: Some(method),
        request_id: Some(request_id),
        payload,
    }
}

} // verus!
