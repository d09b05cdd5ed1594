use jamsession::db::{
    entries_to_replace, list_teams, pending_bodies, stored_value, team_members, team_of_session,
    worklist_contains, worklist_count, worklist_items, PendingMessage, StoreEntry, TeamMembership,
    TraceDirection, TraceKind, TraceParseError, WorklistItem,
};

fn member(session_id: &str, team: &str) -> TeamMembership {
    TeamMembership {
        session_id: session_id.to_string(),
        team: team.to_string(),
        joined_at: "2026-01-01T00:00:00.000Z".to_string(),
    }
}

fn pending(id: u64, session_id: &str, body: &str) -> PendingMessage {
    PendingMessage {
        id,
        session_id: session_id.to_string(),
        body: body.to_string(),
        queued_at: "2026-01-01T00:00:00.000Z".to_string(),
    }
}

fn item(id: u64, team: &str, text: &str, by: &str) -> WorklistItem {
    WorklistItem {
        id,
        team: team.to_string(),
        item: text.to_string(),
        posted_by: by.to_string(),
        posted_at: "2026-01-01T00:00:00.000Z".to_string(),
    }
}

fn entry(id: u64, team: &str, key: &str, value: &str) -> StoreEntry {
    StoreEntry {
        id,
        team: team.to_string(),
        key: key.to_string(),
        value: value.to_string(),
        updated_at: "2026-01-01T00:00:00.000Z".to_string(),
    }
}

#[test]
fn trace_direction_names_round_trip() {
    for d in [
        TraceDirection::ClientToDaemon,
        TraceDirection::DaemonToAgent,
        TraceDirection::AgentToDaemon,
        TraceDirection::DaemonToClient,
        TraceDirection::Internal,
    ] {
        assert_eq!(TraceDirection::parse(d.as_str()), Ok(d));
    }
    assert_eq!(TraceDirection::DaemonToAgent.as_str(), "daemon_to_agent");
    assert_eq!(TraceDirection::Internal.as_str(), "internal");
}

#[test]
fn trace_kind_names_round_trip() {
    for k in [
        TraceKind::Request,
        TraceKind::Response,
        TraceKind::Notification,
        TraceKind::Event,
    ] {
        assert_eq!(TraceKind::parse(k.as_str()), Ok(k));
    }
    assert_eq!(TraceKind::Notification.as_str(), "notification");
}

#[test]
fn unknown_trace_names_are_refused() {
    let e = TraceDirection::parse("sideways").unwrap_err();
    assert_eq!(e, TraceParseError("sideways".to_string()));
    assert_eq!(e.message(), "unknown trace enum value: sideways");
    assert_eq!(
        TraceKind::parse("Request").unwrap_err().message(),
        "unknown trace enum value: Request"
    );
}

#[test]
fn team_rows_join_and_list() {
    let rows: Vec<TeamMembership> = Vec::new();
    assert!(list_teams(&rows).is_empty());
    assert_eq!(team_of_session(&rows, "a"), None);

    let rows = vec![member("b", "frontend"), member("c", "backend"), member("a", "frontend")];
    assert_eq!(team_of_session(&rows, "a").as_deref(), Some("frontend"));
    assert_eq!(
        list_teams(&rows),
        vec!["backend".to_string(), "frontend".to_string()]
    );
    assert_eq!(
        team_members(&rows, "frontend"),
        vec!["a".to_string(), "b".to_string()]
    );

    // After `a` leaves, its row is gone.
    let rows = vec![member("b", "frontend"), member("c", "backend")];
    assert_eq!(team_of_session(&rows, "a"), None);
    assert_eq!(team_members(&rows, "frontend"), vec!["b".to_string()]);
    assert!(team_members(&rows, "nobody").is_empty());
}

#[test]
fn pending_bodies_in_send_order() {
    let rows = vec![
        pending(1, "a", "first"),
        pending(2, "b", "other"),
        pending(3, "a", "second"),
    ];
    assert_eq!(
        pending_bodies(&rows, "a"),
        vec!["first".to_string(), "second".to_string()]
    );
    assert_eq!(pending_bodies(&rows, "b"), vec!["other".to_string()]);
    assert!(pending_bodies(&rows, "c").is_empty());
}

#[test]
fn worklist_per_team() {
    let rows = vec![
        item(1, "frontend", "set up fixtures", "agent-1"),
        item(2, "frontend", "define API", "agent-2"),
        item(3, "backend", "unrelated", "agent-3"),
    ];
    assert_eq!(worklist_count(&rows, "frontend"), 2);
    assert_eq!(
        worklist_items(&rows, "frontend"),
        vec![
            (1, "set up fixtures".to_string(), "agent-1".to_string()),
            (2, "define API".to_string(), "agent-2".to_string()),
        ]
    );
    assert!(worklist_contains(&rows, "frontend", 1));
    assert!(!worklist_contains(&rows, "frontend", 9999));
    // Another team's item cannot be reached through the wrong team.
    assert!(!worklist_contains(&rows, "frontend", 3));
    assert_eq!(worklist_count(&rows, "backend"), 1);
    assert_eq!(worklist_count(&rows, "nobody"), 0);
}

#[test]
fn store_entries_per_team_and_key() {
    let rows = vec![
        entry(1, "frontend", "url", "\"http://a\""),
        entry(2, "backend", "url", "\"http://b\""),
        entry(3, "frontend", "port", "3000"),
    ];
    assert_eq!(stored_value(&rows, "frontend", "url").as_deref(), Some("\"http://a\""));
    assert_eq!(stored_value(&rows, "backend", "url").as_deref(), Some("\"http://b\""));
    assert_eq!(stored_value(&rows, "backend", "port"), None);
    assert_eq!(entries_to_replace(&rows, "frontend", "url"), vec![1]);
    assert!(entries_to_replace(&rows, "nobody", "url").is_empty());
}

#[test]
fn storing_again_replaces_the_value() {
    let mut rows = vec![entry(1, "frontend", "url", "\"http://a\""), entry(2, "backend", "url", "\"x\"")];
    // What storing a new value does to the rows: the replaced ids go, the new row comes.
    let replaced = entries_to_replace(&rows, "frontend", "url");
    assert_eq!(replaced, vec![1]);
    rows.retain(|r| !replaced.contains(&r.id));
    rows.push(entry(3, "frontend", "url", "{\"port\":3000}"));
    assert_eq!(stored_value(&rows, "frontend", "url").as_deref(), Some("{\"port\":3000}"));
    assert_eq!(entries_to_replace(&rows, "frontend", "url"), vec![3]);
    assert_eq!(stored_value(&rows, "backend", "url").as_deref(), Some("\"x\""));
}

#[test]
fn joining_a_second_team_replaces_membership_rows() {
    let mut rows = vec![member("a", "frontend"), member("b", "frontend")];
    // `a` joins `backend`: its old row goes, the new one comes.
    rows.retain(|r| r.session_id != "a");
    rows.push(member("a", "backend"));
    assert_eq!(team_of_session(&rows, "a").as_deref(), Some("backend"));
    assert_eq!(team_of_session(&rows, "b").as_deref(), Some("frontend"));
    assert_eq!(team_members(&rows, "frontend"), vec!["b".to_string()]);
    assert_eq!(list_teams(&rows), vec!["backend".to_string(), "frontend".to_string()]);
}

#[test]
fn taking_pending_messages_leaves_others() {
    let mut rows = vec![pending(1, "a", "first"), pending(2, "b", "other"), pending(3, "a", "second")];
    assert_eq!(pending_bodies(&rows, "a"), vec!["first".to_string(), "second".to_string()]);
    rows.retain(|r| r.session_id != "a");
    assert!(pending_bodies(&rows, "a").is_empty());
    assert_eq!(pending_bodies(&rows, "b"), vec!["other".to_string()]);
}
