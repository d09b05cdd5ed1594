//! Parsing and rendering for the daemon's `/jamsession:*` slash commands.
//!
//! These commands are driven by the human: they arrive as an ordinary prompt
//! whose text starts with `/jamsession:`, and the daemon handles them without
//! involving the agent.

use vstd::prelude::*;
use vstd::string::*;
use crate::text::{
    append_chars, append_joined, chars_of, join, matches_at, same_chars, split_ws, split_whitespace,
    string_of, string_views, trim, trim_bounds, views,
};

verus! {

broadcast use vstd::string::group_string_axioms;

/// The prefix that marks a daemon-handled slash command.
pub const PREFIX: &'static str = "/jamsession:";

/// A parsed `/jamsession:*` command.
#[derive(Debug, Clone, PartialEq, Eq)]
pub enum SlashCommand {
    /// `/jamsession:join-team TEAM`: join (creating if new) the named team.
    JoinTeam { team: String },
    /// `/jamsession:leave-team`: leave the current team.
    LeaveTeam,
    /// `/jamsession:teams`: list all active teams and their members.
    Teams,
    /// A `/jamsession:` command that could not be parsed; carries a help
    /// message for the user.
    Invalid { message: String },
}

/// The mathematical value of a [`SlashCommand`].
pub enum SlashSpec {
    JoinTeam { team: Seq<char> },
    LeaveTeam,
    Teams,
    Invalid { message: Seq<char> },
}

impl View for SlashCommand {
    type V = SlashSpec;

    open spec fn view(&self) -> SlashSpec {
        match self {
            SlashCommand::JoinTeam { team } => SlashSpec::JoinTeam { team: team@ },
            SlashCommand::LeaveTeam => SlashSpec::LeaveTeam,
            SlashCommand::Teams => SlashSpec::Teams,
            SlashCommand::Invalid { message } => SlashSpec::Invalid { message: message@ },
        }
    }
}

/// The usage text for `join-team` without a team name, listing `available`.
pub open spec fn missing_team_text(available: Seq<Seq<char>>) -> Seq<char> {
    let base = "Usage: /jamsession:join-team $TEAM\n\nProvide a team name to join or create."@;
    if available.len() == 0 {
        base
    } else {
        base + "\n\nActive teams: "@ + join(available, ", "@)
    }
}

/// The help text for an unknown verb.
pub open spec fn unknown_verb_text(verb: Seq<char>) -> Seq<char> {
    "Unknown jamsession command: "@ + verb + "\n\nAvailable commands:\n  /jamsession:join-team $TEAM   join (or create) a team\n  /jamsession:leave-team        leave your current team\n  /jamsession:teams             list active teams and members"@
}

/// What `text` means as a slash command: `None` when it is not addressed to
/// jamsession (after trimming it does not start with [`PREFIX`]); otherwise the
/// command named by the first whitespace-separated word after the prefix.
pub open spec fn parse_spec(text: Seq<char>) -> Option<SlashSpec> {
    let t = trim(text);
    let p = PREFIX@;
    if !(p.len() <= t.len() && t.subrange(0, p.len() as int) == p) {
        None
    } else {
        let words = split_ws(t.skip(p.len() as int));
        let verb = if words.len() > 0 {
            words[0]
        } else {
            Seq::<char>::empty()
        };
        Some(
            if verb == "join-team"@ {
                if words.len() > 1 {
                    SlashSpec::JoinTeam { team: words[1] }
                } else {
                    SlashSpec::Invalid { message: missing_team_text(Seq::empty()) }
                }
            } else if verb == "leave-team"@ {
                SlashSpec::LeaveTeam
            } else if verb == "teams"@ {
                SlashSpec::Teams
            } else {
                SlashSpec::Invalid { message: unknown_verb_text(verb) }
            },
        )
    }
}

/// Attempt to parse `text` as a `/jamsession:*` command.
///
/// Returns `None` if `text` is not a jamsession slash command (it should be
/// forwarded to the agent as a normal prompt). Returns `Some`, possibly
/// [`SlashCommand::Invalid`], when the text is addressed to jamsession.
pub fn parse(text: &str) -> (r: Option<SlashCommand>)
    ensures
        r matches Some(c) ==> parse_spec(text@) == Some(c@),
        r is None ==> parse_spec(text@) is None,
{
    let chars = chars_of(text);
    let (a, b) = trim_bounds(chars.as_slice());
    let ghost t = chars@.subrange(a as int, b as int);
    let prefix = chars_of(PREFIX);
    if !(b - a >= prefix.len() && matches_at(chars.as_slice(), a, prefix.as_slice())) {
        proof {
            if prefix@.len() <= t.len() && t.subrange(0, prefix@.len() as int) == prefix@ {
                assert(chars@.subrange(a as int, a + prefix@.len()) == t.subrange(
                    0,
                    prefix@.len() as int,
                ));
            }
        }
        return None;
    }
    assert(t.subrange(0, prefix@.len() as int) == chars@.subrange(a as int, a + prefix@.len()));
    let start = a + prefix.len();
    assert(t.skip(prefix@.len() as int) == chars@.subrange(start as int, b as int));
    let words = split_whitespace(chars.as_slice(), start, b);
    let ghost ws = views(words@);
    let empty: Vec<char> = Vec::new();
    let verb: &Vec<char> = if words.len() > 0 {
        &words[0]
    } else {
        &empty
    };
    assert(verb@ == (if ws.len() > 0 { ws[0] } else { Seq::<char>::empty() }));
    let join_team = chars_of("join-team");
    let leave_team = chars_of("leave-team");
    let teams = chars_of("teams");
    let command = if same_chars(verb.as_slice(), join_team.as_slice()) {
        if words.len() > 1 {
            assert(ws[1] == words@[1]@);
            SlashCommand::JoinTeam { team: string_of(words[1].as_slice()) }
        } else {
            SlashCommand::Invalid { message: missing_team_message() }
        }
    } else if same_chars(verb.as_slice(), leave_team.as_slice()) {
        SlashCommand::LeaveTeam
    } else if same_chars(verb.as_slice(), teams.as_slice()) {
        SlashCommand::Teams
    } else {
        SlashCommand::Invalid { message: unknown_verb_message(verb.as_slice()) }
    };
    Some(command)
}

/// Help text shown when `join-team` is invoked without a team name;
/// `available` is the list of currently active teams (may be empty).
pub fn missing_team_message_with_teams(available: &[String]) -> (msg: String)
    ensures
        msg@ == missing_team_text(string_views(available@)),
{
    let mut msg = String::from_str(
        "Usage: /jamsession:join-team $TEAM\n\nProvide a team name to join or create.",
    );
    if available.len() != 0 {
        msg.append("\n\nActive teams: ");
        append_joined(&mut msg, available, ", ");
    }
    msg
}

fn missing_team_message() -> (msg: String)
    ensures
        msg@ == missing_team_text(Seq::empty()),
{
    let none: Vec<String> = Vec::new();
    let msg = missing_team_message_with_teams(none.as_slice());
    assert(string_views(none@) == Seq::<Seq<char>>::empty());
    msg
}

fn unknown_verb_message(verb: &[char]) -> (msg: String)
    ensures
        msg@ == unknown_verb_text(verb@),
{
    let mut msg = String::from_str("Unknown jamsession command: ");
    append_chars(&mut msg, verb);
    msg.append(
        "\n\nAvailable commands:\n  /jamsession:join-team $TEAM   join (or create) a team\n  /jamsession:leave-team        leave your current team\n  /jamsession:teams             list active teams and members",
    );
    msg
}

/// How `m` appears in the roster shown to `me`.
pub open spec fn roster_entry(m: Seq<char>, me: Seq<char>) -> Seq<char> {
    if m == me {
        m + " (you)"@
    } else {
        m
    }
}

/// The context injected into an agent's conversation when it joins `team`.
pub open spec fn join_context_text(team: Seq<char>, me: Seq<char>, members: Seq<Seq<char>>) -> Seq<
    char,
> {
    "<context>\nYou are now a member of the jamsession team \""@ + team + "\".\nTeam members: "@
        + join(members.map_values(|m: Seq<char>| roster_entry(m, me)), ", "@)
        + ".\n\nYou can now use team commands via the jamsession tool.\nUse {\"command\": \"help\"} for the full command table, or\n{\"command\": \"help\", \"subcommand\": \"send\"} for details on a specific command.\n</context>"@
}

/// The roster in the join context lists every member, in order, separated
/// by `, `, and marks with ` (you)` exactly the entries equal to `me`: the
/// joining agent and no one else.
pub proof fn lemma_join_context_marks_only_me(team: Seq<char>, me: Seq<char>, members: Seq<Seq<char>>)
    ensures
        ({
            let roster = Seq::new(members.len(), |k: int| if members[k] == me { members[k] + " (you)"@ } else { members[k] });
            join_context_text(team, me, members) == "<context>\nYou are now a member of the jamsession team \""@ + team
                + "\".\nTeam members: "@ + join(roster, ", "@)
                + ".\n\nYou can now use team commands via the jamsession tool.\nUse {\"command\": \"help\"} for the full command table, or\n{\"command\": \"help\", \"subcommand\": \"send\"} for details on a specific command.\n</context>"@
        }),
{
    let roster = Seq::new(members.len(), |k: int| if members[k] == me { members[k] + " (you)"@ } else { members[k] });
    assert(members.map_values(|m: Seq<char>| roster_entry(m, me)) =~= roster);
}

/// The context injected into the agent's conversation when it joins a team.
///
/// `team` is the joined team; `members` is the full member roster, and `me`
/// identifies which member this agent is (marked `(you)`).
pub fn join_context(team: &str, me: &str, members: &[String]) -> (ctx: String)
    ensures
        ctx@ == join_context_text(team@, me@, string_views(members@)),
{
    let me_chars = chars_of(me);
    let mut labels: Vec<String> = Vec::new();
    let mut i: usize = 0;
    while i < members.len()
        invariant
            i <= members@.len(),
            me_chars@ == me@,
            string_views(labels@) == string_views(members@).take(i as int).map_values(
                |m: Seq<char>| roster_entry(m, me@),
            ),
        decreases members@.len() - i,
    {
        let m = chars_of(members[i].as_str());
        let label = if same_chars(m.as_slice(), me_chars.as_slice()) {
            let mut l = members[i].clone();
            l.append(" (you)");
            l
        } else {
            members[i].clone()
        };
        assert(label@ == roster_entry(members@[i as int]@, me@));
        let ghost before = string_views(labels@);
        labels.push(label);
        proof {
            let prefix = string_views(members@).take((i + 1) as int);
            assert(prefix == string_views(members@).take(i as int).push(members@[i as int]@));
            assert(string_views(labels@) =~= before.push(roster_entry(members@[i as int]@, me@)));
            assert(string_views(labels@) =~= prefix.map_values(
                |m: Seq<char>| roster_entry(m, me@),
            ));
        }
        i = i + 1;
    }
    assert(string_views(members@).take(members@.len() as int) == string_views(members@));
    let mut ctx = String::from_str("<context>\nYou are now a member of the jamsession team \"");
    ctx.append(team);
    ctx.append("\".\nTeam members: ");
    append_joined(&mut ctx, labels.as_slice(), ", ");
    ctx.append(
        ".\n\nYou can now use team commands via the jamsession tool.\nUse {\"command\": \"help\"} for the full command table, or\n{\"command\": \"help\", \"subcommand\": \"send\"} for details on a specific command.\n</context>",
    );
    ctx
}

} // verus!
