use jamsession::message::{team_message, MessageKind};

#[test]
fn renders_direct_message() {
    let msg = team_message("agent-1", MessageKind::Direct, "can you export UserService?");
    assert_eq!(
        msg,
        "<team-message from=\"agent-1\" type=\"direct\">\n\
         can you export UserService?\n\
         </team-message>"
    );
}

#[test]
fn renders_broadcast_message() {
    let msg = team_message("agent-2", MessageKind::Broadcast, "auth module ready");
    assert!(msg.starts_with("<team-message from=\"agent-2\" type=\"broadcast\">\n"));
    assert!(msg.ends_with("\n</team-message>"));
    assert!(msg.contains("auth module ready"));
}

#[test]
fn message_kind_names() {
    assert_eq!(MessageKind::Direct.as_str(), "direct");
    assert_eq!(MessageKind::Broadcast.as_str(), "broadcast");
}

#[test]
fn renders_empty_body_between_tags() {
    let msg = team_message("a", MessageKind::Direct, "");
    assert_eq!(msg, "<team-message from=\"a\" type=\"direct\">\n\n</team-message>");
}
