use jamsession::slash::{join_context, missing_team_message_with_teams, parse, SlashCommand};

#[test]
fn non_jamsession_text_is_not_a_command() {
    assert_eq!(parse("hello world"), None);
    assert_eq!(parse("/other:thing"), None);
    assert_eq!(parse("please run /jamsession:teams"), None);
}

#[test]
fn parses_join_team_with_name() {
    assert_eq!(
        parse("/jamsession:join-team frontend"),
        Some(SlashCommand::JoinTeam {
            team: "frontend".to_string()
        })
    );
    // Leading/trailing whitespace is tolerated.
    assert_eq!(
        parse("  /jamsession:join-team   backend  "),
        Some(SlashCommand::JoinTeam {
            team: "backend".to_string()
        })
    );
}

#[test]
fn join_team_without_name_is_invalid_with_help() {
    match parse("/jamsession:join-team") {
        Some(SlashCommand::Invalid { message }) => {
            assert!(message.contains("/jamsession:join-team $TEAM"), "{message}");
        }
        other => panic!("expected Invalid, got {other:?}"),
    }
}

#[test]
fn parses_leave_team_and_teams() {
    assert_eq!(parse("/jamsession:leave-team"), Some(SlashCommand::LeaveTeam));
    assert_eq!(parse("/jamsession:teams"), Some(SlashCommand::Teams));
}

#[test]
fn unknown_verb_is_invalid_with_help() {
    match parse("/jamsession:frobnicate") {
        Some(SlashCommand::Invalid { message }) => {
            assert!(
                message.contains("Unknown jamsession command: frobnicate"),
                "{message}"
            );
            assert!(message.contains("/jamsession:join-team"), "{message}");
        }
        other => panic!("expected Invalid, got {other:?}"),
    }
}

#[test]
fn join_context_marks_the_joining_agent() {
    let context = join_context(
        "frontend",
        "agent-1",
        &["agent-1".to_string(), "agent-2".to_string()],
    );
    assert!(context.contains("team \"frontend\""), "{context}");
    assert!(context.contains("agent-1 (you)"), "{context}");
    assert!(context.contains("agent-2"), "{context}");
    assert!(!context.contains("agent-2 (you)"), "{context}");
}

#[test]
fn bare_prefix_is_an_invalid_command() {
    match parse("/jamsession:") {
        Some(SlashCommand::Invalid { message }) => {
            assert!(message.contains("/jamsession:join-team"), "{message}");
        }
        other => panic!("expected Invalid, got {other:?}"),
    }
}

#[test]
fn join_team_takes_only_the_first_word_after_the_verb() {
    assert_eq!(
        parse("/jamsession:join-team a b"),
        Some(SlashCommand::JoinTeam { team: "a".to_string() })
    );
}

#[test]
fn leave_team_ignores_trailing_words() {
    assert_eq!(parse("/jamsession:leave-team now"), Some(SlashCommand::LeaveTeam));
}

#[test]
fn missing_team_message_lists_available_teams() {
    let none = missing_team_message_with_teams(&[]);
    let some = missing_team_message_with_teams(&["backend".to_string(), "frontend".to_string()]);
    assert_eq!(
        none,
        "Usage: /jamsession:join-team $TEAM\n\nProvide a team name to join or create."
    );
    assert_eq!(
        some,
        "Usage: /jamsession:join-team $TEAM\n\nProvide a team name to join or create.\n\nActive teams: backend, frontend"
    );
}
