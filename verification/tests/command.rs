use jamsession::command::{dispatch, dispatch_json, general_help, JamsessionCommand};
use jamsession::json::JsonValue;

fn text(s: &str) -> JsonValue {
    JsonValue::String(s.to_string())
}

fn obj(members: &[(&str, JsonValue)]) -> JsonValue {
    JsonValue::Object(
        members
            .iter()
            .map(|(k, v)| (k.to_string(), copy(v)))
            .collect(),
    )
}

fn copy(v: &JsonValue) -> JsonValue {
    match v {
        JsonValue::Null => JsonValue::Null,
        JsonValue::Bool(b) => JsonValue::Bool(*b),
        JsonValue::Number(n) => JsonValue::Number(n.clone()),
        JsonValue::String(s) => JsonValue::String(s.clone()),
        JsonValue::Array(a) => JsonValue::Array(a.iter().map(copy).collect()),
        JsonValue::Object(m) => {
            JsonValue::Object(m.iter().map(|(k, v)| (k.clone(), copy(v))).collect())
        }
    }
}

fn to_serde(v: &JsonValue) -> serde_json::Value {
    match v {
        JsonValue::Null => serde_json::Value::Null,
        JsonValue::Bool(b) => serde_json::Value::Bool(*b),
        JsonValue::Number(n) => serde_json::from_str(n).unwrap(),
        JsonValue::String(s) => serde_json::Value::String(s.clone()),
        JsonValue::Array(a) => serde_json::Value::Array(a.iter().map(to_serde).collect()),
        JsonValue::Object(m) => {
            let mut map = serde_json::Map::new();
            for (k, v) in m {
                map.insert(k.clone(), to_serde(v));
            }
            serde_json::Value::Object(map)
        }
    }
}

fn as_str(v: &JsonValue) -> Option<&str> {
    match v {
        JsonValue::String(s) => Some(s.as_str()),
        _ => None,
    }
}

fn field<'a>(v: &'a JsonValue, key: &str) -> Option<&'a JsonValue> {
    v.get(key)
}

const HELP_TABLE: &str = "jamsession commands

command          fields        description
──────────────────────────────────────────
help             [subcommand]  show this help, or detail on one command
list-members     —             list team members and status
broadcast        message       send to all members
send             to, message   send to one member
post-worklist    item          add item to shared worklist
remove-worklist  id            remove worklist item
show-worklist    —             show shared worklist
store            key, value    store a key-value pair
retrieve         key           retrieve a stored value

usage: jamsession({\"command\": \"<cmd>\", ...fields})

examples:
  jamsession({\"command\": \"send\", \"to\": \"agent-2\", \"message\": \"done with header\"})
  jamsession({\"command\": \"store\", \"key\": \"status\", \"value\": \"blocked on API\"})

note: team commands require membership. Ask your user to run
/jamsession:join-team if you are not yet on a team.";

const SEND_DETAIL: &str = "send — Send a direct message to a specific team member.

fields:
  to       (string, required)  agent id of recipient
  message  (string, required)  message text

example:
  jamsession({\"command\": \"send\", \"to\": \"agent-2\", \"message\": \"can you export UserService?\"})

response:
  {\"delivered\": true}

Messages are delivered asynchronously. The recipient sees it on their next turn.";

#[test]
fn general_help_lists_every_command() {
    let response = dispatch_json(obj(&[("command", text("help"))]));
    let text = as_str(&response).expect("help returns a string");
    for name in [
        "help",
        "list-members",
        "broadcast",
        "send",
        "post-worklist",
        "remove-worklist",
        "show-worklist",
        "store",
        "retrieve",
    ] {
        assert!(text.contains(name), "help table missing command {}", name);
    }
    assert_eq!(text, HELP_TABLE);
}

#[test]
fn command_help_send_returns_detail() {
    let response = dispatch_json(obj(&[("command", text("help")), ("subcommand", text("send"))]));
    let text = as_str(&response).expect("help detail returns a string");
    assert_eq!(text, SEND_DETAIL);
}

#[test]
fn command_unknown_command_returns_error_and_hint() {
    let response = dispatch_json(obj(&[("command", text("frobnicate"))]));
    assert_eq!(
        serde_json::to_string_pretty(&to_serde(&response)).unwrap(),
        "{\n  \"error\": \"unknown command: frobnicate\",\n  \"hint\": \"Run {\\\"command\\\": \\\"help\\\"} to see available commands.\"\n}"
    );
}

#[test]
fn help_unknown_subcommand_returns_error() {
    let response = dispatch_json(obj(&[("command", text("help")), ("subcommand", text("frobnicate"))]));
    assert_eq!(
        field(&response, "error").and_then(as_str),
        Some("unknown command: frobnicate")
    );
}

#[test]
fn command_team_command_without_membership_reports_not_a_member() {
    let response = dispatch_json(obj(&[
        ("command", text("send")),
        ("to", text("agent-2")),
        ("message", text("hi")),
    ]));
    assert_eq!(
        serde_json::to_string_pretty(&to_serde(&response)).unwrap(),
        "{\n  \"error\": \"not a team member\",\n  \"hint\": \"Ask your user to run /jamsession:join-team.\"\n}"
    );
}

#[test]
fn every_team_command_requires_membership() {
    let inputs = vec![
        obj(&[("command", text("list-members"))]),
        obj(&[("command", text("broadcast")), ("message", text("x"))]),
        obj(&[("command", text("send")), ("to", text("a")), ("message", text("x"))]),
        obj(&[("command", text("post-worklist")), ("item", text("x"))]),
        obj(&[("command", text("remove-worklist")), ("id", text("wl-1"))]),
        obj(&[("command", text("show-worklist"))]),
        obj(&[
            ("command", text("store")),
            ("key", text("k")),
            ("value", JsonValue::Number("1".to_string())),
        ]),
        obj(&[("command", text("retrieve")), ("key", text("k"))]),
    ];
    for input in inputs {
        let shown = to_serde(&input);
        let response = dispatch_json(input);
        assert_eq!(
            field(&response, "error").and_then(as_str),
            Some("not a team member"),
            "unexpected response for {shown}"
        );
    }
}

#[test]
fn malformed_known_command_reports_invalid_arguments() {
    // `send` requires `to` and `message`.
    let response = dispatch_json(obj(&[("command", text("send")), ("to", text("agent-2"))]));
    assert_eq!(
        field(&response, "error").and_then(as_str),
        Some("invalid arguments for command: send")
    );
    assert!(field(&response, "hint").is_some());
}

#[test]
fn missing_command_is_unknown() {
    let response = dispatch_json(obj(&[("to", text("agent-2"))]));
    assert_eq!(
        field(&response, "error").and_then(as_str),
        Some("unknown command: <missing>")
    );
    let response = dispatch_json(JsonValue::Null);
    assert_eq!(
        field(&response, "error").and_then(as_str),
        Some("unknown command: <missing>")
    );
}

#[test]
fn invalid_arguments_hint_names_the_detail_request() {
    let response = dispatch_json(obj(&[("command", text("send")), ("to", text("agent-2"))]));
    assert_eq!(
        field(&response, "hint").and_then(as_str),
        Some("Run {\"command\": \"help\", \"subcommand\": \"send\"} for usage.")
    );
    assert_eq!(
        field(&response, "detail").and_then(as_str),
        Some("missing field `message`")
    );
}

#[test]
fn wrong_field_type_is_reported_before_missing_field() {
    let response = dispatch_json(obj(&[
        ("command", text("send")),
        ("to", JsonValue::Number("7".to_string())),
    ]));
    assert_eq!(
        field(&response, "detail").and_then(as_str),
        Some("invalid type: integer `7`, expected a string")
    );
}

#[test]
fn typed_dispatch_matches_json_dispatch() {
    let help = dispatch(JamsessionCommand::Help { subcommand: None });
    assert_eq!(as_str(&help), Some(general_help().as_str()));
    let send = dispatch(JamsessionCommand::Send {
        to: "a".to_string(),
        message: "b".to_string(),
    });
    assert_eq!(field(&send, "error").and_then(as_str), Some("not a team member"));
    let detail = dispatch(JamsessionCommand::Help {
        subcommand: Some("send".to_string()),
    });
    assert_eq!(as_str(&detail), Some(SEND_DETAIL));
}

#[test]
fn general_help_is_the_help_table() {
    assert_eq!(general_help(), HELP_TABLE);
}
