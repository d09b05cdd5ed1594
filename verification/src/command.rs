//! The `jamsession` tool's commands and their dispatch.
//!
//! A tool call is a JSON object whose `command` member names the command and
//! whose other members are its arguments, e.g.
//! `{"command": "send", "to": "agent-2", "message": "hi"}`. Dispatch turns
//! such an object into a JSON response. Only `help` is live; every team
//! command reports that the agent is not yet a team member.

use vstd::prelude::*;
use vstd::string::*;
use crate::json::{member, get_spec, JsonValue};
use crate::text::{append_chars, append_padded, chars_of, pad_right, same_chars, string_of};

verus! {

/// The tool's name, as registered with the MCP server and seen by the agent.
pub const TOOL_NAME: &'static str = "jamsession";

/// The tool's description: terse, and listing the commands so the agent
/// sees the menu at no call cost.
pub const TOOL_DESCRIPTION: &'static str = "Interface to the jamsession daemon. Commands: help, list-members, broadcast, send, post-worklist, remove-worklist, show-worklist, store, retrieve. Use {\"command\":\"help\"} for usage or {\"command\":\"help\",\"subcommand\":\"send\"} for details on a command.";

broadcast use vstd::string::group_string_axioms;

/// Static description of one command: its wire name, a summary of its
/// fields and a description for the help table, and its detailed help.
pub struct CommandSpec {
    pub name: &'static str,
    pub fields: &'static str,
    pub description: &'static str,
    pub detail: &'static str,
}

/// `needle` occurs in `hay` starting at position `k`.
pub open spec fn occurs_at(hay: Seq<char>, needle: Seq<char>, k: int) -> bool {
    0 <= k && k + needle.len() <= hay.len() && hay.subrange(k, k + needle.len()) == needle
}

/// The tool description names every command of the command table, so an
/// agent sees the whole menu without calling `help`.
pub proof fn lemma_description_lists_every_command(i: int)
    requires
        0 <= i < NUM_COMMANDS,
    ensures
        exists|k: int| occurs_at(TOOL_DESCRIPTION@, command_table(i).name@, k),
{
    reveal_strlit("Interface to the jamsession daemon. Commands: help, list-members, broadcast, send, post-worklist, remove-worklist, show-worklist, store, retrieve. Use {\"command\":\"help\"} for usage or {\"command\":\"help\",\"subcommand\":\"send\"} for details on a command.");
    if i == 0 {
        reveal_strlit("help");
        assert(TOOL_DESCRIPTION@.subrange(46, 50) =~= "help"@);
        assert(occurs_at(TOOL_DESCRIPTION@, command_table(i).name@, 46));
    } else if i == 1 {
        reveal_strlit("list-members");
        assert(TOOL_DESCRIPTION@.subrange(52, 64) =~= "list-members"@);
        assert(occurs_at(TOOL_DESCRIPTION@, command_table(i).name@, 52));
    } else if i == 2 {
        reveal_strlit("broadcast");
        assert(TOOL_DESCRIPTION@.subrange(66, 75) =~= "broadcast"@);
        assert(occurs_at(TOOL_DESCRIPTION@, command_table(i).name@, 66));
    } else if i == 3 {
        reveal_strlit("send");
        assert(TOOL_DESCRIPTION@.subrange(77, 81) =~= "send"@);
        assert(occurs_at(TOOL_DESCRIPTION@, command_table(i).name@, 77));
    } else if i == 4 {
        reveal_strlit("post-worklist");
        assert(TOOL_DESCRIPTION@.subrange(83, 96) =~= "post-worklist"@);
        assert(occurs_at(TOOL_DESCRIPTION@, command_table(i).name@, 83));
    } else if i == 5 {
        reveal_strlit("remove-worklist");
        assert(TOOL_DESCRIPTION@.subrange(98, 113) =~= "remove-worklist"@);
        assert(occurs_at(TOOL_DESCRIPTION@, command_table(i).name@, 98));
    } else if i == 6 {
        reveal_strlit("show-worklist");
        assert(TOOL_DESCRIPTION@.subrange(115, 128) =~= "show-worklist"@);
        assert(occurs_at(TOOL_DESCRIPTION@, command_table(i).name@, 115));
    } else if i == 7 {
        reveal_strlit("store");
        assert(TOOL_DESCRIPTION@.subrange(130, 135) =~= "store"@);
        assert(occurs_at(TOOL_DESCRIPTION@, command_table(i).name@, 130));
    } else if i == 8 {
        reveal_strlit("retrieve");
        assert(TOOL_DESCRIPTION@.subrange(137, 145) =~= "retrieve"@);
        assert(occurs_at(TOOL_DESCRIPTION@, command_table(i).name@, 137));
    }
}

/// The detailed help of each command starts with that command's name and
/// a dash: `help` on a command shows that command's own detail.
pub proof fn lemma_detail_names_its_command(i: int)
    requires
        0 <= i < NUM_COMMANDS,
    ensures
        ({
            let c = command_table(i);
            (c.name@ + " — "@).is_prefix_of(c.detail@)
        }),
{
    reveal_strlit(" — ");
    if i == 0 {
        reveal_strlit("help");
        reveal_strlit("help — Show the command table, or detailed help for one command.\n\nfields:\n  subcommand  (string, optional)  command to show detail for\n\nexample:\n  jamsession({\"command\": \"help\", \"subcommand\": \"send\"})");
        assert(command_table(i).detail@.subrange(0, (command_table(i).name@ + " — "@).len() as int) =~= command_table(i).name@ + " — "@);
    } else if i == 1 {
        reveal_strlit("list-members");
        reveal_strlit("list-members — List the members of your team and their status.\n\nfields:\n  (none)\n\nexample:\n  jamsession({\"command\": \"list-members\"})\n\nresponse:\n  {\"members\": [{\"id\": \"agent-1\", \"working_dir\": \"...\", \"status\": \"active\"}]}\n\nRequires team membership.");
        assert(command_table(i).detail@.subrange(0, (command_table(i).name@ + " — "@).len() as int) =~= command_table(i).name@ + " — "@);
    } else if i == 2 {
        reveal_strlit("broadcast");
        reveal_strlit("broadcast — Send a message to all other members of your team.\n\nfields:\n  message  (string, required)  message text\n\nexample:\n  jamsession({\"command\": \"broadcast\", \"message\": \"auth module ready\"})\n\nresponse:\n  {\"delivered_to\": [\"agent-2\", \"agent-3\"]}\n\nMessages are delivered asynchronously. Recipients see them on their next turn.");
        assert(command_table(i).detail@.subrange(0, (command_table(i).name@ + " — "@).len() as int) =~= command_table(i).name@ + " — "@);
    } else if i == 3 {
        reveal_strlit("send");
        reveal_strlit("send — Send a direct message to a specific team member.\n\nfields:\n  to       (string, required)  agent id of recipient\n  message  (string, required)  message text\n\nexample:\n  jamsession({\"command\": \"send\", \"to\": \"agent-2\", \"message\": \"can you export UserService?\"})\n\nresponse:\n  {\"delivered\": true}\n\nMessages are delivered asynchronously. The recipient sees it on their next turn.");
        assert(command_table(i).detail@.subrange(0, (command_table(i).name@ + " — "@).len() as int) =~= command_table(i).name@ + " — "@);
    } else if i == 4 {
        reveal_strlit("post-worklist");
        reveal_strlit("post-worklist — Add an item to the team's shared worklist.\n\nfields:\n  item  (string, required)  the worklist item text\n\nexample:\n  jamsession({\"command\": \"post-worklist\", \"item\": \"Refactor auth middleware\"})\n\nresponse:\n  {\"id\": \"wl-3\", \"items_count\": 5}");
        assert(command_table(i).detail@.subrange(0, (command_table(i).name@ + " — "@).len() as int) =~= command_table(i).name@ + " — "@);
    } else if i == 5 {
        reveal_strlit("remove-worklist");
        reveal_strlit("remove-worklist — Remove an item from the team's shared worklist.\n\nfields:\n  id  (string, required)  id of the worklist item to remove\n\nexample:\n  jamsession({\"command\": \"remove-worklist\", \"id\": \"wl-3\"})\n\nresponse:\n  {\"removed\": true, \"items_count\": 4}");
        assert(command_table(i).detail@.subrange(0, (command_table(i).name@ + " — "@).len() as int) =~= command_table(i).name@ + " — "@);
    } else if i == 6 {
        reveal_strlit("show-worklist");
        reveal_strlit("show-worklist — Show the team's shared worklist.\n\nfields:\n  (none)\n\nexample:\n  jamsession({\"command\": \"show-worklist\"})\n\nresponse:\n  {\"items\": [{\"id\": \"wl-1\", \"item\": \"...\", \"posted_by\": \"agent-1\"}]}");
        assert(command_table(i).detail@.subrange(0, (command_table(i).name@ + " — "@).len() as int) =~= command_table(i).name@ + " — "@);
    } else if i == 7 {
        reveal_strlit("store");
        reveal_strlit("store — Store a key-value pair in the team's shared store.\n\nfields:\n  key    (string, required)   the key\n  value  (any JSON, required)  the value to store\n\nexample:\n  jamsession({\"command\": \"store\", \"key\": \"api-base-url\", \"value\": \"http://localhost:3000\"})\n\nresponse:\n  {\"stored\": true}");
        assert(command_table(i).detail@.subrange(0, (command_table(i).name@ + " — "@).len() as int) =~= command_table(i).name@ + " — "@);
    } else if i == 8 {
        reveal_strlit("retrieve");
        reveal_strlit("retrieve — Retrieve a value from the team's shared store.\n\nfields:\n  key  (string, required)  the key to retrieve\n\nexample:\n  jamsession({\"command\": \"retrieve\", \"key\": \"api-base-url\"})\n\nresponse:\n  {\"key\": \"api-base-url\", \"value\": \"http://localhost:3000\"}\n\nIf the key does not exist:\n  {\"error\": \"key not found\", \"key\": \"api-base-url\"}");
        assert(command_table(i).detail@.subrange(0, (command_table(i).name@ + " — "@).len() as int) =~= command_table(i).name@ + " — "@);
    }
}

/// No two commands share a name, so a name picks out one command and its
/// detail.
pub proof fn lemma_command_names_distinct(i: int, j: int)
    requires
        0 <= i < NUM_COMMANDS,
        0 <= j < NUM_COMMANDS,
        i != j,
    ensures
        command_table(i).name@ != command_table(j).name@,
{
    reveal_strlit("help");
    reveal_strlit("list-members");
    reveal_strlit("broadcast");
    reveal_strlit("send");
    reveal_strlit("post-worklist");
    reveal_strlit("remove-worklist");
    reveal_strlit("show-worklist");
    reveal_strlit("store");
    reveal_strlit("retrieve");
    if i == 0 && j == 1 {
        assert(command_table(i).name@.len() != command_table(j).name@.len());
    } else if i == 0 && j == 2 {
        assert(command_table(i).name@.len() != command_table(j).name@.len());
    } else if i == 0 && j == 3 {
        assert(command_table(i).name@[0] != command_table(j).name@[0]);
    } else if i == 0 && j == 4 {
        assert(command_table(i).name@.len() != command_table(j).name@.len());
    } else if i == 0 && j == 5 {
        assert(command_table(i).name@.len() != command_table(j).name@.len());
    } else if i == 0 && j == 6 {
        assert(command_table(i).name@.len() != command_table(j).name@.len());
    } else if i == 0 && j == 7 {
        assert(command_table(i).name@.len() != command_table(j).name@.len());
    } else if i == 0 && j == 8 {
        assert(command_table(i).name@.len() != command_table(j).name@.len());
    } else if i == 1 && j == 0 {
        assert(command_table(i).name@.len() != command_table(j).name@.len());
    } else if i == 1 && j == 2 {
        assert(command_table(i).name@.len() != command_table(j).name@.len());
    } else if i == 1 && j == 3 {
        assert(command_table(i).name@.len() != command_table(j).name@.len());
    } else if i == 1 && j == 4 {
        assert(command_table(i).name@.len() != command_table(j).name@.len());
    } else if i == 1 && j == 5 {
        assert(command_table(i).name@.len() != command_table(j).name@.len());
    } else if i == 1 && j == 6 {
        assert(command_table(i).name@.len() != command_table(j).name@.len());
    } else if i == 1 && j == 7 {
        assert(command_table(i).name@.len() != command_table(j).name@.len());
    } else if i == 1 && j == 8 {
        assert(command_table(i).name@.len() != command_table(j).name@.len());
    } else if i == 2 && j == 0 {
        assert(command_table(i).name@.len() != command_table(j).name@.len());
    } else if i == 2 && j == 1 {
        assert(command_table(i).name@.len() != command_table(j).name@.len());
    } else if i == 2 && j == 3 {
        assert(command_table(i).name@.len() != command_table(j).name@.len());
    } else if i == 2 && j == 4 {
        assert(command_table(i).name@.len() != command_table(j).name@.len());
    } else if i == 2 && j == 5 {
        assert(command_table(i).name@.len() != command_table(j).name@.len());
    } else if i == 2 && j == 6 {
        assert(command_table(i).name@.len() != command_table(j).name@.len());
    } else if i == 2 && j == 7 {
        assert(command_table(i).name@.len() != command_table(j).name@.len());
    } else if i == 2 && j == 8 {
        assert(command_table(i).name@.len() != command_table(j).name@.len());
    } else if i == 3 && j == 0 {
        assert(command_table(i).name@[0] != command_table(j).name@[0]);
    } else if i == 3 && j == 1 {
        assert(command_table(i).name@.len() != command_table(j).name@.len());
    } else if i == 3 && j == 2 {
        assert(command_table(i).name@.len() != command_table(j).name@.len());
    } else if i == 3 && j == 4 {
        assert(command_table(i).name@.len() != command_table(j).name@.len());
    } else if i == 3 && j == 5 {
        assert(command_table(i).name@.len() != command_table(j).name@.len());
    } else if i == 3 && j == 6 {
        assert(command_table(i).name@.len() != command_table(j).name@.len());
    } else if i == 3 && j == 7 {
        assert(command_table(i).name@.len() != command_table(j).name@.len());
    } else if i == 3 && j == 8 {
        assert(command_table(i).name@.len() != command_table(j).name@.len());
    } else if i == 4 && j == 0 {
        assert(command_table(i).name@.len() != command_table(j).name@.len());
    } else if i == 4 && j == 1 {
        assert(command_table(i).name@.len() != command_table(j).name@.len());
    } else if i == 4 && j == 2 {
        assert(command_table(i).name@.len() != command_table(j).name@.len());
    } else if i == 4 && j == 3 {
        assert(command_table(i).name@.len() != command_table(j).name@.len());
    } else if i == 4 && j == 5 {
        assert(command_table(i).name@.len() != command_table(j).name@.len());
    } else if i == 4 && j == 6 {
        assert(command_table(i).name@[0] != command_table(j).name@[0]);
    } else if i == 4 && j == 7 {
        assert(command_table(i).name@.len() != command_table(j).name@.len());
    } else if i == 4 && j == 8 {
        assert(command_table(i).name@.len() != command_table(j).name@.len());
    } else if i == 5 && j == 0 {
        assert(command_table(i).name@.len() != command_table(j).name@.len());
    } else if i == 5 && j == 1 {
        assert(command_table(i).name@.len() != command_table(j).name@.len());
    } else if i == 5 && j == 2 {
        assert(command_table(i).name@.len() != command_table(j).name@.len());
    } else if i == 5 && j == 3 {
        assert(command_table(i).name@.len() != command_table(j).name@.len());
    } else if i == 5 && j == 4 {
        assert(command_table(i).name@.len() != command_table(j).name@.len());
    } else if i == 5 && j == 6 {
        assert(command_table(i).name@.len() != command_table(j).name@.len());
    } else if i == 5 && j == 7 {
        assert(command_table(i).name@.len() != command_table(j).name@.len());
    } else if i == 5 && j == 8 {
        assert(command_table(i).name@.len() != command_table(j).name@.len());
    } else if i == 6 && j == 0 {
        assert(command_table(i).name@.len() != command_table(j).name@.len());
    } else if i == 6 && j == 1 {
        assert(command_table(i).name@.len() != command_table(j).name@.len());
    } else if i == 6 && j == 2 {
        assert(command_table(i).name@.len() != command_table(j).name@.len());
    } else if i == 6 && j == 3 {
        assert(command_table(i).name@.len() != command_table(j).name@.len());
    } else if i == 6 && j == 4 {
        assert(command_table(i).name@[0] != command_table(j).name@[0]);
    } else if i == 6 && j == 5 {
        assert(command_table(i).name@.len() != command_table(j).name@.len());
    } else if i == 6 && j == 7 {
        assert(command_table(i).name@.len() != command_table(j).name@.len());
    } else if i == 6 && j == 8 {
        assert(command_table(i).name@.len() != command_table(j).name@.len());
    } else if i == 7 && j == 0 {
        assert(command_table(i).name@.len() != command_table(j).name@.len());
    } else if i == 7 && j == 1 {
        assert(command_table(i).name@.len() != command_table(j).name@.len());
    } else if i == 7 && j == 2 {
        assert(command_table(i).name@.len() != command_table(j).name@.len());
    } else if i == 7 && j == 3 {
        assert(command_table(i).name@.len() != command_table(j).name@.len());
    } else if i == 7 && j == 4 {
        assert(command_table(i).name@.len() != command_table(j).name@.len());
    } else if i == 7 && j == 5 {
        assert(command_table(i).name@.len() != command_table(j).name@.len());
    } else if i == 7 && j == 6 {
        assert(command_table(i).name@.len() != command_table(j).name@.len());
    } else if i == 7 && j == 8 {
        assert(command_table(i).name@.len() != command_table(j).name@.len());
    } else if i == 8 && j == 0 {
        assert(command_table(i).name@.len() != command_table(j).name@.len());
    } else if i == 8 && j == 1 {
        assert(command_table(i).name@.len() != command_table(j).name@.len());
    } else if i == 8 && j == 2 {
        assert(command_table(i).name@.len() != command_table(j).name@.len());
    } else if i == 8 && j == 3 {
        assert(command_table(i).name@.len() != command_table(j).name@.len());
    } else if i == 8 && j == 4 {
        assert(command_table(i).name@.len() != command_table(j).name@.len());
    } else if i == 8 && j == 5 {
        assert(command_table(i).name@.len() != command_table(j).name@.len());
    } else if i == 8 && j == 6 {
        assert(command_table(i).name@.len() != command_table(j).name@.len());
    } else if i == 8 && j == 7 {
        assert(command_table(i).name@.len() != command_table(j).name@.len());
    }
}

/// The number of commands.
pub const NUM_COMMANDS: usize = 9;

/// The command table, in help-table order.
pub open spec fn command_table(i: int) -> CommandSpec {
    if i == 0 {
        CommandSpec {
            name: "help",
            fields: "[subcommand]",
            description: "show this help, or detail on one command",
            detail: "help — Show the command table, or detailed help for one command.\n\nfields:\n  subcommand  (string, optional)  command to show detail for\n\nexample:\n  jamsession({\"command\": \"help\", \"subcommand\": \"send\"})",
        }
    } else if i == 1 {
        CommandSpec {
            name: "list-members",
            fields: "—",
            description: "list team members and status",
            detail: "list-members — List the members of your team and their status.\n\nfields:\n  (none)\n\nexample:\n  jamsession({\"command\": \"list-members\"})\n\nresponse:\n  {\"members\": [{\"id\": \"agent-1\", \"working_dir\": \"...\", \"status\": \"active\"}]}\n\nRequires team membership.",
        }
    } else if i == 2 {
        CommandSpec {
            name: "broadcast",
            fields: "message",
            description: "send to all members",
            detail: "broadcast — Send a message to all other members of your team.\n\nfields:\n  message  (string, required)  message text\n\nexample:\n  jamsession({\"command\": \"broadcast\", \"message\": \"auth module ready\"})\n\nresponse:\n  {\"delivered_to\": [\"agent-2\", \"agent-3\"]}\n\nMessages are delivered asynchronously. Recipients see them on their next turn.",
        }
    } else if i == 3 {
        CommandSpec {
            name: "send",
            fields: "to, message",
            description: "send to one member",
            detail: "send — Send a direct message to a specific team member.\n\nfields:\n  to       (string, required)  agent id of recipient\n  message  (string, required)  message text\n\nexample:\n  jamsession({\"command\": \"send\", \"to\": \"agent-2\", \"message\": \"can you export UserService?\"})\n\nresponse:\n  {\"delivered\": true}\n\nMessages are delivered asynchronously. The recipient sees it on their next turn.",
        }
    } else if i == 4 {
        CommandSpec {
            name: "post-worklist",
            fields: "item",
            description: "add item to shared worklist",
            detail: "post-worklist — Add an item to the team's shared worklist.\n\nfields:\n  item  (string, required)  the worklist item text\n\nexample:\n  jamsession({\"command\": \"post-worklist\", \"item\": \"Refactor auth middleware\"})\n\nresponse:\n  {\"id\": \"wl-3\", \"items_count\": 5}",
        }
    } else if i == 5 {
        CommandSpec {
            name: "remove-worklist",
            fields: "id",
            description: "remove worklist item",
            detail: "remove-worklist — Remove an item from the team's shared worklist.\n\nfields:\n  id  (string, required)  id of the worklist item to remove\n\nexample:\n  jamsession({\"command\": \"remove-worklist\", \"id\": \"wl-3\"})\n\nresponse:\n  {\"removed\": true, \"items_count\": 4}",
        }
    } else if i == 6 {
        CommandSpec {
            name: "show-worklist",
            fields: "—",
            description: "show shared worklist",
            detail: "show-worklist — Show the team's shared worklist.\n\nfields:\n  (none)\n\nexample:\n  jamsession({\"command\": \"show-worklist\"})\n\nresponse:\n  {\"items\": [{\"id\": \"wl-1\", \"item\": \"...\", \"posted_by\": \"agent-1\"}]}",
        }
    } else if i == 7 {
        CommandSpec {
            name: "store",
            fields: "key, value",
            description: "store a key-value pair",
            detail: "store — Store a key-value pair in the team's shared store.\n\nfields:\n  key    (string, required)   the key\n  value  (any JSON, required)  the value to store\n\nexample:\n  jamsession({\"command\": \"store\", \"key\": \"api-base-url\", \"value\": \"http://localhost:3000\"})\n\nresponse:\n  {\"stored\": true}",
        }
    } else {
        CommandSpec {
            name: "retrieve",
            fields: "key",
            description: "retrieve a stored value",
            detail: "retrieve — Retrieve a value from the team's shared store.\n\nfields:\n  key  (string, required)  the key to retrieve\n\nexample:\n  jamsession({\"command\": \"retrieve\", \"key\": \"api-base-url\"})\n\nresponse:\n  {\"key\": \"api-base-url\", \"value\": \"http://localhost:3000\"}\n\nIf the key does not exist:\n  {\"error\": \"key not found\", \"key\": \"api-base-url\"}",
        }
    }
}

/// The entry `i` of the command table.
fn command_spec(i: usize) -> (c: CommandSpec)
    requires
        i < NUM_COMMANDS,
    ensures
        c == command_table(i as int),
{
    if i == 0 {
        CommandSpec {
            name: "help",
            fields: "[subcommand]",
            description: "show this help, or detail on one command",
            detail: "help — Show the command table, or detailed help for one command.\n\nfields:\n  subcommand  (string, optional)  command to show detail for\n\nexample:\n  jamsession({\"command\": \"help\", \"subcommand\": \"send\"})",
        }
    } else if i == 1 {
        CommandSpec {
            name: "list-members",
            fields: "—",
            description: "list team members and status",
            detail: "list-members — List the members of your team and their status.\n\nfields:\n  (none)\n\nexample:\n  jamsession({\"command\": \"list-members\"})\n\nresponse:\n  {\"members\": [{\"id\": \"agent-1\", \"working_dir\": \"...\", \"status\": \"active\"}]}\n\nRequires team membership.",
        }
    } else if i == 2 {
        CommandSpec {
            name: "broadcast",
            fields: "message",
            description: "send to all members",
            detail: "broadcast — Send a message to all other members of your team.\n\nfields:\n  message  (string, required)  message text\n\nexample:\n  jamsession({\"command\": \"broadcast\", \"message\": \"auth module ready\"})\n\nresponse:\n  {\"delivered_to\": [\"agent-2\", \"agent-3\"]}\n\nMessages are delivered asynchronously. Recipients see them on their next turn.",
        }
    } else if i == 3 {
        CommandSpec {
            name: "send",
            fields: "to, message",
            description: "send to one member",
            detail: "send — Send a direct message to a specific team member.\n\nfields:\n  to       (string, required)  agent id of recipient\n  message  (string, required)  message text\n\nexample:\n  jamsession({\"command\": \"send\", \"to\": \"agent-2\", \"message\": \"can you export UserService?\"})\n\nresponse:\n  {\"delivered\": true}\n\nMessages are delivered asynchronously. The recipient sees it on their next turn.",
        }
    } else if i == 4 {
        CommandSpec {
            name: "post-worklist",
            fields: "item",
            description: "add item to shared worklist",
            detail: "post-worklist — Add an item to the team's shared worklist.\n\nfields:\n  item  (string, required)  the worklist item text\n\nexample:\n  jamsession({\"command\": \"post-worklist\", \"item\": \"Refactor auth middleware\"})\n\nresponse:\n  {\"id\": \"wl-3\", \"items_count\": 5}",
        }
    } else if i == 5 {
        CommandSpec {
            name: "remove-worklist",
            fields: "id",
            description: "remove worklist item",
            detail: "remove-worklist — Remove an item from the team's shared worklist.\n\nfields:\n  id  (string, required)  id of the worklist item to remove\n\nexample:\n  jamsession({\"command\": \"remove-worklist\", \"id\": \"wl-3\"})\n\nresponse:\n  {\"removed\": true, \"items_count\": 4}",
        }
    } else if i == 6 {
        CommandSpec {
            name: "show-worklist",
            fields: "—",
            description: "show shared worklist",
            detail: "show-worklist — Show the team's shared worklist.\n\nfields:\n  (none)\n\nexample:\n  jamsession({\"command\": \"show-worklist\"})\n\nresponse:\n  {\"items\": [{\"id\": \"wl-1\", \"item\": \"...\", \"posted_by\": \"agent-1\"}]}",
        }
    } else if i == 7 {
        CommandSpec {
            name: "store",
            fields: "key, value",
            description: "store a key-value pair",
            detail: "store — Store a key-value pair in the team's shared store.\n\nfields:\n  key    (string, required)   the key\n  value  (any JSON, required)  the value to store\n\nexample:\n  jamsession({\"command\": \"store\", \"key\": \"api-base-url\", \"value\": \"http://localhost:3000\"})\n\nresponse:\n  {\"stored\": true}",
        }
    } else {
        CommandSpec {
            name: "retrieve",
            fields: "key",
            description: "retrieve a stored value",
            detail: "retrieve — Retrieve a value from the team's shared store.\n\nfields:\n  key  (string, required)  the key to retrieve\n\nexample:\n  jamsession({\"command\": \"retrieve\", \"key\": \"api-base-url\"})\n\nresponse:\n  {\"key\": \"api-base-url\", \"value\": \"http://localhost:3000\"}\n\nIf the key does not exist:\n  {\"error\": \"key not found\", \"key\": \"api-base-url\"}",
        }
    }
}

} // verus!

verus! {

/// The larger of two naturals.
pub open spec fn max_nat(a: nat, b: nat) -> nat {
    if a < b {
        b
    } else {
        a
    }
}

/// The width of the name column: the longest of `command` and the names of
/// the first `k` commands, in characters.
pub open spec fn name_width(k: nat) -> nat
    decreases k,
{
    if k == 0 {
        "command"@.len()
    } else {
        max_nat(name_width((k - 1) as nat), command_table(k - 1).name@.len())
    }
}

/// The width of the fields column: the longest of `fields` and the field
/// summaries of the first `k` commands, in characters.
pub open spec fn fields_width(k: nat) -> nat
    decreases k,
{
    if k == 0 {
        "fields"@.len()
    } else {
        max_nat(fields_width((k - 1) as nat), command_table(k - 1).fields@.len())
    }
}

/// One line of the help table.
pub open spec fn table_line(name: Seq<char>, fields: Seq<char>, description: Seq<char>) -> Seq<char> {
    pad_right(name, name_width(9)) + "  "@ + pad_right(fields, fields_width(9)) + "  "@ + description
}

/// The lines for the first `k` commands, each ending in a newline.
pub open spec fn table_rows(k: nat) -> Seq<char>
    decreases k,
{
    if k == 0 {
        Seq::empty()
    } else {
        table_rows((k - 1) as nat) + table_line(
            command_table(k - 1).name@,
            command_table(k - 1).fields@,
            command_table(k - 1).description@,
        ) + "\n"@
    }
}

/// The help table's header line.
pub open spec fn header_line() -> Seq<char> {
    table_line("command"@, "fields"@, "description"@)
}

/// The usage notes that end the general help.
pub open spec fn help_trailer() -> Seq<char> {
    "\nusage: jamsession({\"command\": \"<cmd>\", ...fields})\n\nexamples:\n  jamsession({\"command\": \"send\", \"to\": \"agent-2\", \"message\": \"done with header\"})\n  jamsession({\"command\": \"store\", \"key\": \"status\", \"value\": \"blocked on API\"})\n\nnote: team commands require membership. Ask your user to run\n/jamsession:join-team if you are not yet on a team."@
}

/// The full command table plus usage and examples: a title, the header, a
/// rule of `─` as long as the header, one padded line per command, and the
/// usage notes.
pub open spec fn general_help_text() -> Seq<char> {
    "jamsession commands\n\n"@ + header_line() + "\n"@ + Seq::new(header_line().len(), |i: int| '─')
        + "\n"@ + table_rows(9) + help_trailer()
}

fn widths() -> (r: (usize, usize))
    ensures
        r.0 == name_width(9),
        r.1 == fields_width(9),
{
    let mut nw = "command".unicode_len();
    let mut fw = "fields".unicode_len();
    let mut k: usize = 0;
    while k < NUM_COMMANDS
        invariant
            k <= NUM_COMMANDS,
            nw == name_width(k as nat),
            fw == fields_width(k as nat),
        decreases NUM_COMMANDS - k,
    {
        let spec = command_spec(k);
        let n = spec.name.unicode_len();
        let f = spec.fields.unicode_len();
        if nw < n {
            nw = n;
        }
        if fw < f {
            fw = f;
        }
        k = k + 1;
    }
    (nw, fw)
}

fn append_line(out: &mut String, name: &str, fields: &str, description: &str, nw: usize, fw: usize)
    requires
        nw == name_width(9),
        fw == fields_width(9),
    ensures
        final(out)@ == old(out)@ + table_line(name@, fields@, description@),
{
    append_padded(out, name, nw);
    out.append("  ");
    append_padded(out, fields, fw);
    out.append("  ");
    out.append(description);
}

/// The full command table plus usage and examples.
pub fn general_help() -> (text: String)
    ensures
        text@ == general_help_text(),
{
    let (nw, fw) = widths();
    let mut out = String::from_str("jamsession commands\n\n");
    let mut header = String::new();
    append_line(&mut header, "command", "fields", "description", nw, fw);
    assert(header@ == header_line());
    let hlen = header.unicode_len();
    out.append(header.as_str());
    out.append("\n");
    let ghost before_rule = out@;
    let mut rule: Vec<char> = Vec::new();
    let mut j: usize = 0;
    while j < hlen
        invariant
            j <= hlen,
            rule@ =~= Seq::new(j as nat, |i: int| '─'),
        decreases hlen - j,
    {
        rule.push('─');
        j = j + 1;
    }
    append_chars(&mut out, rule.as_slice());
    out.append("\n");
    let ghost before_rows = out@;
    let mut k: usize = 0;
    while k < NUM_COMMANDS
        invariant
            k <= NUM_COMMANDS,
            nw == name_width(9),
            fw == fields_width(9),
            out@ == before_rows + table_rows(k as nat),
        decreases NUM_COMMANDS - k,
    {
        let spec = command_spec(k);
        append_line(&mut out, spec.name, spec.fields, spec.description, nw, fw);
        out.append("\n");
        k = k + 1;
    }
    out.append(
        "\nusage: jamsession({\"command\": \"<cmd>\", ...fields})\n\nexamples:\n  jamsession({\"command\": \"send\", \"to\": \"agent-2\", \"message\": \"done with header\"})\n  jamsession({\"command\": \"store\", \"key\": \"status\", \"value\": \"blocked on API\"})\n\nnote: team commands require membership. Ask your user to run\n/jamsession:join-team if you are not yet on a team.",
    );
    out
}

} // verus!

verus! {

/// A single invocation of the `jamsession` tool.
#[derive(Debug)]
pub enum JamsessionCommand {
    /// Show the command table, or detailed help for one command.
    Help { subcommand: Option<String> },
    /// List the members of the agent's team and their status.
    ListMembers,
    /// Send a message to all other members of the team.
    Broadcast { message: String },
    /// Send a direct message to a specific team member.
    Send { to: String, message: String },
    /// Add an item to the team's shared worklist.
    PostWorklist { item: String },
    /// Remove an item from the team's shared worklist.
    RemoveWorklist { id: String },
    /// Show the team's shared worklist.
    ShowWorklist,
    /// Store a key-value pair in the team's shared store.
    Store { key: String, value: JsonValue },
    /// Retrieve a value from the team's shared store.
    Retrieve { key: String },
}

/// The mathematical value of a [`JamsessionCommand`].
pub enum CommandView {
    Help { subcommand: Option<Seq<char>> },
    ListMembers,
    Broadcast { message: Seq<char> },
    Send { to: Seq<char>, message: Seq<char> },
    PostWorklist { item: Seq<char> },
    RemoveWorklist { id: Seq<char> },
    ShowWorklist,
    Store { key: Seq<char>, value: JsonValue },
    Retrieve { key: Seq<char> },
}

impl View for JamsessionCommand {
    type V = CommandView;

    open spec fn view(&self) -> CommandView {
        match self {
            JamsessionCommand::Help { subcommand } => CommandView::Help {
                subcommand: match subcommand {
                    Some(s) => Some(s@),
                    None => None,
                },
            },
            JamsessionCommand::ListMembers => CommandView::ListMembers,
            JamsessionCommand::Broadcast { message } => CommandView::Broadcast { message: message@ },
            JamsessionCommand::Send { to, message } => CommandView::Send { to: to@, message: message@ },
            JamsessionCommand::PostWorklist { item } => CommandView::PostWorklist { item: item@ },
            JamsessionCommand::RemoveWorklist { id } => CommandView::RemoveWorklist { id: id@ },
            JamsessionCommand::ShowWorklist => CommandView::ShowWorklist,
            JamsessionCommand::Store { key, value } => CommandView::Store { key: key@, value: *value },
            JamsessionCommand::Retrieve { key } => CommandView::Retrieve { key: key@ },
        }
    }
}

/// A response of the tool: help text, an error with a hint, or an
/// argument error with a detail and a hint.
pub enum Reply {
    Text(Seq<char>),
    Error { error: Seq<char>, hint: Seq<char> },
    InvalidArguments { error: Seq<char>, detail: Seq<char>, hint: Seq<char> },
}

/// `v` is a JSON string holding `t`.
pub open spec fn is_string_value(v: JsonValue, t: Seq<char>) -> bool {
    v matches JsonValue::String(s) && s@ == t
}

/// `v` is the JSON form of the reply `r`: a string, or an object whose
/// members are, in key order, `detail` (for argument errors), `error` and
/// `hint`, each a string.
pub open spec fn is_reply(v: JsonValue, r: Reply) -> bool {
    match r {
        Reply::Text(t) => is_string_value(v, t),
        Reply::Error { error, hint } => v matches JsonValue::Object(m) && m@.len() == 2 && m@[0].0@
            == "error"@ && is_string_value(m@[0].1, error) && m@[1].0@ == "hint"@ && is_string_value(
            m@[1].1,
            hint,
        ),
        Reply::InvalidArguments { error, detail, hint } => v matches JsonValue::Object(m)
            && m@.len() == 3 && m@[0].0@ == "detail"@ && is_string_value(m@[0].1, detail)
            && m@[1].0@ == "error"@ && is_string_value(m@[1].1, error) && m@[2].0@ == "hint"@
            && is_string_value(m@[2].1, hint),
    }
}

/// The reply for an unrecognized command name.
pub open spec fn unknown_command_reply(command: Seq<char>) -> Reply {
    Reply::Error {
        error: "unknown command: "@ + command,
        hint: "Run {\"command\": \"help\"} to see available commands."@,
    }
}

/// The reply for a team command invoked without team membership.
pub open spec fn not_a_team_member_reply() -> Reply {
    Reply::Error {
        error: "not a team member"@,
        hint: "Ask your user to run /jamsession:join-team."@,
    }
}

/// The reply for a known command whose arguments do not decode.
pub open spec fn invalid_arguments_reply(command: Seq<char>, detail: Seq<char>) -> Reply {
    Reply::InvalidArguments {
        error: "invalid arguments for command: "@ + command,
        detail,
        hint: "Run {\"command\": \"help\", \"subcommand\": \""@ + command + "\"} for usage."@,
    }
}

/// The index of the first command in the table from `i` on named `name`.
pub open spec fn find_command_from(name: Seq<char>, i: nat) -> Option<nat>
    decreases 9 - i,
{
    if i >= 9 {
        None
    } else if command_table(i as int).name@ == name {
        Some(i)
    } else {
        find_command_from(name, i + 1)
    }
}

/// The index of the command named `name`, if any.
pub open spec fn find_command(name: Seq<char>) -> Option<nat> {
    find_command_from(name, 0)
}

/// The reply to `help`, with or without a subcommand.
pub open spec fn help_reply(subcommand: Option<Seq<char>>) -> Reply {
    match subcommand {
        None => Reply::Text(general_help_text()),
        Some(name) => match find_command(name) {
            Some(i) => Reply::Text(command_table(i as int).detail@),
            None => unknown_command_reply(name),
        },
    }
}

/// The reply to a decoded command.
pub open spec fn dispatch_reply(cmd: CommandView) -> Reply {
    match cmd {
        CommandView::Help { subcommand } => help_reply(subcommand),
        _ => not_a_team_member_reply(),
    }
}

fn find_command_index(name: &str) -> (r: Option<usize>)
    ensures
        match r {
            Some(i) => find_command(name@) == Some(i as nat) && i < NUM_COMMANDS,
            None => find_command(name@) is None,
        },
{
    let n = chars_of(name);
    let mut i: usize = 0;
    while i < NUM_COMMANDS
        invariant
            i <= NUM_COMMANDS,
            n@ == name@,
            find_command(name@) == find_command_from(name@, i as nat),
        decreases NUM_COMMANDS - i,
    {
        let spec = command_spec(i);
        let c = chars_of(spec.name);
        if same_chars(c.as_slice(), n.as_slice()) {
            return Some(i);
        }
        i = i + 1;
    }
    None
}

fn error_object(error: String, hint: String) -> (v: JsonValue)
    ensures
        is_reply(v, Reply::Error { error: error@, hint: hint@ }),
{
    let mut m: Vec<(String, JsonValue)> = Vec::new();
    m.push((String::from_str("error"), JsonValue::String(error)));
    m.push((String::from_str("hint"), JsonValue::String(hint)));
    JsonValue::Object(m)
}

/// Error returned for an unrecognized command name.
fn unknown_command_error(command: &str) -> (v: JsonValue)
    ensures
        is_reply(v, unknown_command_reply(command@)),
{
    let mut error = String::from_str("unknown command: ");
    error.append(command);
    error_object(error, String::from_str("Run {\"command\": \"help\"} to see available commands."))
}

/// Error returned when a team command is invoked without team membership.
fn not_a_team_member_error() -> (v: JsonValue)
    ensures
        is_reply(v, not_a_team_member_reply()),
{
    error_object(
        String::from_str("not a team member"),
        String::from_str("Ask your user to run /jamsession:join-team."),
    )
}

/// The response for a `help` command: the full command table without a
/// subcommand, that command's detail with one (or an unknown-command error).
fn help(subcommand: Option<&str>) -> (v: JsonValue)
    ensures
        is_reply(
            v,
            help_reply(
                match subcommand {
                    Some(s) => Some(s@),
                    None => None,
                },
            ),
        ),
{
    match subcommand {
        None => JsonValue::String(general_help()),
        Some(name) => match find_command_index(name) {
            Some(i) => JsonValue::String(String::from_str(command_spec(i).detail)),
            None => unknown_command_error(name),
        },
    }
}

/// Dispatch a decoded command.
pub fn dispatch(cmd: JamsessionCommand) -> (v: JsonValue)
    ensures
        is_reply(v, dispatch_reply(cmd@)),
{
    match cmd {
        JamsessionCommand::Help { subcommand } => match subcommand {
            Some(s) => help(Some(s.as_str())),
            None => help(None),
        },
        _ => not_a_team_member_error(),
    }
}

} // verus!

verus! {

/// The text has no fraction or exponent: it is an integer.
pub open spec fn is_integer_text(n: Seq<char>) -> bool {
    forall|i: int| 0 <= i < n.len() ==> n[i] != '.' && n[i] != 'e' && n[i] != 'E'
}

/// How a value that is not a string is described in a decoding error.
pub open spec fn unexpected_text(v: JsonValue) -> Seq<char> {
    match v {
        JsonValue::Null => "unit value"@,
        JsonValue::Bool(b) => if b {
            "boolean `true`"@
        } else {
            "boolean `false`"@
        },
        JsonValue::Number(n) => if is_integer_text(n@) {
            "integer `"@ + n@ + "`"@
        } else {
            "floating point `"@ + n@ + "`"@
        },
        JsonValue::String(_) => "string"@,
        JsonValue::Array(_) => "sequence"@,
        JsonValue::Object(_) => "map"@,
    }
}

/// The detail for an argument of the wrong type.
pub open spec fn invalid_type_text(v: JsonValue) -> Seq<char> {
    "invalid type: "@ + unexpected_text(v) + ", expected a string"@
}

/// The detail for a missing argument.
pub open spec fn missing_field_text(name: Seq<char>) -> Seq<char> {
    "missing field `"@ + name + "`"@
}

/// A string argument accepts a string; an optional one accepts null too.
pub open spec fn accepts(v: JsonValue, optional: bool) -> bool {
    v is String || (optional && v is Null)
}

/// The first member, in member order, that is one of the string arguments
/// `typed` and holds a value they do not accept.
pub open spec fn first_type_error(members: Seq<(String, JsonValue)>, typed: Seq<Seq<char>>, optional: bool) -> Option<JsonValue>
    decreases members.len(),
{
    if members.len() == 0 {
        None
    } else if typed.contains(members[0].0@) && !accepts(members[0].1, optional) {
        Some(members[0].1)
    } else {
        first_type_error(members.drop_first(), typed, optional)
    }
}

/// The first of the `required` arguments, in declaration order, that no member
/// provides.
pub open spec fn first_missing(members: Seq<(String, JsonValue)>, required: Seq<Seq<char>>) -> Option<Seq<char>>
    decreases required.len(),
{
    if required.len() == 0 {
        None
    } else if member(members, required[0]) is None {
        Some(required[0])
    } else {
        first_missing(members, required.drop_first())
    }
}

/// Why the arguments do not decode, if they do not: an argument of the
/// wrong type (the first in member order), else a missing required argument
/// (the first in declaration order).
pub open spec fn argument_error(members: Seq<(String, JsonValue)>, typed: Seq<Seq<char>>, optional: bool, required: Seq<Seq<char>>) -> Option<Seq<char>> {
    match first_type_error(members, typed, optional) {
        Some(v) => Some(invalid_type_text(v)),
        None => match first_missing(members, required) {
            Some(f) => Some(missing_field_text(f)),
            None => None,
        },
    }
}

/// The text held by member `key`, which is a string.
pub open spec fn text_member(members: Seq<(String, JsonValue)>, key: Seq<char>) -> Seq<char> {
    match member(members, key) {
        Some(JsonValue::String(s)) => s@,
        _ => Seq::empty(),
    }
}

/// The arguments (typed, optional, required) of the command named `name`.
pub open spec fn arguments_of(name: Seq<char>) -> (Seq<Seq<char>>, bool, Seq<Seq<char>>) {
    if name == "help"@ {
        (seq!["subcommand"@], true, Seq::empty())
    } else if name == "broadcast"@ {
        (seq!["message"@], false, seq!["message"@])
    } else if name == "send"@ {
        (seq!["to"@, "message"@], false, seq!["to"@, "message"@])
    } else if name == "post-worklist"@ {
        (seq!["item"@], false, seq!["item"@])
    } else if name == "remove-worklist"@ {
        (seq!["id"@], false, seq!["id"@])
    } else if name == "store"@ {
        (seq!["key"@], false, seq!["key"@, "value"@])
    } else if name == "retrieve"@ {
        (seq!["key"@], false, seq!["key"@])
    } else {
        (Seq::empty(), false, Seq::empty())
    }
}

/// The command named `name` with the arguments in `members`, once they decode.
pub open spec fn command_of(name: Seq<char>, members: Seq<(String, JsonValue)>) -> CommandView {
    if name == "help"@ {
        CommandView::Help {
            subcommand: match member(members, "subcommand"@) {
                Some(JsonValue::String(s)) => Some(s@),
                _ => None,
            },
        }
    } else if name == "list-members"@ {
        CommandView::ListMembers
    } else if name == "broadcast"@ {
        CommandView::Broadcast { message: text_member(members, "message"@) }
    } else if name == "send"@ {
        CommandView::Send { to: text_member(members, "to"@), message: text_member(members, "message"@) }
    } else if name == "post-worklist"@ {
        CommandView::PostWorklist { item: text_member(members, "item"@) }
    } else if name == "remove-worklist"@ {
        CommandView::RemoveWorklist { id: text_member(members, "id"@) }
    } else if name == "show-worklist"@ {
        CommandView::ShowWorklist
    } else if name == "store"@ {
        CommandView::Store { key: text_member(members, "key"@), value: member(members, "value"@).unwrap() }
    } else {
        CommandView::Retrieve { key: text_member(members, "key"@) }
    }
}

/// The reply to a tool input: an unknown-command error unless its `command`
/// member is a string naming a command (`<missing>` when there is no such
/// string); an argument error when that command's arguments do not decode;
/// otherwise the reply to the decoded command.
pub open spec fn dispatch_json_reply(input: JsonValue) -> Reply {
    match get_spec(input, "command"@) {
        Some(JsonValue::String(c)) => if find_command(c@) is None {
            unknown_command_reply(c@)
        } else {
            let members = match input {
                JsonValue::Object(m) => m@,
                _ => Seq::empty(),
            };
            let args = arguments_of(c@);
            match argument_error(members, args.0, args.1, args.2) {
                Some(detail) => invalid_arguments_reply(c@, detail),
                None => dispatch_reply(command_of(c@, members)),
            }
        },
        _ => unknown_command_reply("<missing>"@),
    }
}

} // verus!

verus! {

/// The views of a list of string slices.
pub open spec fn str_views(v: Seq<&'static str>) -> Seq<Seq<char>> {
    v.map_values(|s: &'static str| s@)
}

/// A member accepted by the type check holds an accepted value.
proof fn lemma_no_type_error(members: Seq<(String, JsonValue)>, typed: Seq<Seq<char>>, optional: bool, key: Seq<char>)
    requires
        first_type_error(members, typed, optional) is None,
        typed.contains(key),
        member(members, key) is Some,
    ensures
        accepts(member(members, key).unwrap(), optional),
    decreases members.len(),
{
    if members[0].0@ != key {
        lemma_no_type_error(members.drop_first(), typed, optional, key);
    }
}

/// The index of the first member named `key`.
fn find_member(members: &Vec<(String, JsonValue)>, key: &str) -> (r: Option<usize>)
    ensures
        match r {
            Some(j) => j < members@.len() && members@[j as int].0@ == key@ && member(members@, key@) == Some(members@[j as int].1),
            None => member(members@, key@) is None,
        },
{
    let k = chars_of(key);
    let mut i: usize = 0;
    assert(members@.skip(0) == members@);
    while i < members.len()
        invariant
            i <= members@.len(),
            k@ == key@,
            member(members@, key@) == member(members@.skip(i as int), key@),
        decreases members@.len() - i,
    {
        assert(members@.skip(i as int).drop_first() == members@.skip(i + 1));
        assert(members@.skip(i as int)[0] == members@[i as int]);
        let name = chars_of(members[i].0.as_str());
        if same_chars(name.as_slice(), k.as_slice()) {
            return Some(i);
        }
        i = i + 1;
    }
    None
}

fn is_integer_number(n: &str) -> (r: bool)
    ensures
        r == is_integer_text(n@),
{
    let c = chars_of(n);
    let mut i: usize = 0;
    while i < c.len()
        invariant
            i <= c@.len(),
            c@ == n@,
            forall|j: int| 0 <= j < i ==> c@[j] != '.' && c@[j] != 'e' && c@[j] != 'E',
        decreases c@.len() - i,
    {
        if c[i] == '.' || c[i] == 'e' || c[i] == 'E' {
            return false;
        }
        i = i + 1;
    }
    true
}

fn describe_unexpected(v: &JsonValue) -> (s: String)
    ensures
        s@ == unexpected_text(*v),
{
    match v {
        JsonValue::Null => String::from_str("unit value"),
        JsonValue::Bool(b) => if *b {
            String::from_str("boolean `true`")
        } else {
            String::from_str("boolean `false`")
        },
        JsonValue::Number(n) => {
            let mut s = if is_integer_number(n.as_str()) {
                String::from_str("integer `")
            } else {
                String::from_str("floating point `")
            };
            s.append(n.as_str());
            s.append("`");
            s
        },
        JsonValue::String(_) => String::from_str("string"),
        JsonValue::Array(_) => String::from_str("sequence"),
        JsonValue::Object(_) => String::from_str("map"),
    }
}

fn name_in(name: &str, list: &Vec<&'static str>) -> (r: bool)
    ensures
        r == str_views(list@).contains(name@),
{
    let n = chars_of(name);
    let mut i: usize = 0;
    while i < list.len()
        invariant
            i <= list@.len(),
            n@ == name@,
            forall|j: int| 0 <= j < i ==> list@[j]@ != name@,
        decreases list@.len() - i,
    {
        let c = chars_of(list[i]);
        if same_chars(c.as_slice(), n.as_slice()) {
            assert(str_views(list@)[i as int] == name@);
            return true;
        }
        i = i + 1;
    }
    assert forall|j: int| 0 <= j < str_views(list@).len() implies str_views(list@)[j] != name@ by {
        assert(str_views(list@)[j] == list@[j]@);
    }
    false
}

/// Why the arguments in `members` do not decode against the given argument
/// lists, if they do not.
fn argument_error_text(members: &Vec<(String, JsonValue)>, typed: &Vec<&'static str>, optional: bool, required: &Vec<&'static str>) -> (r: Option<String>)
    ensures
        match r {
            Some(d) => argument_error(members@, str_views(typed@), optional, str_views(required@)) == Some(d@),
            None => argument_error(members@, str_views(typed@), optional, str_views(required@)) is None,
        },
{
    let ghost tv = str_views(typed@);
    let mut i: usize = 0;
    assert(members@.skip(0) == members@);
    while i < members.len()
        invariant
            i <= members@.len(),
            tv == str_views(typed@),
            first_type_error(members@, tv, optional) == first_type_error(members@.skip(i as int), tv, optional),
        decreases members@.len() - i,
    {
        assert(members@.skip(i as int).drop_first() == members@.skip(i + 1));
        assert(members@.skip(i as int)[0] == members@[i as int]);
        if name_in(members[i].0.as_str(), typed) {
            let ok = match &members[i].1 {
                JsonValue::String(_) => true,
                JsonValue::Null => optional,
                _ => false,
            };
            if !ok {
                let mut d = String::from_str("invalid type: ");
                let u = describe_unexpected(&members[i].1);
                d.append(u.as_str());
                d.append(", expected a string");
                return Some(d);
            }
        }
        i = i + 1;
    }
    assert(members@.skip(members@.len() as int) =~= Seq::<(String, JsonValue)>::empty());
    let ghost rv = str_views(required@);
    let mut k: usize = 0;
    assert(rv.skip(0) == rv);
    while k < required.len()
        invariant
            k <= required@.len(),
            rv == str_views(required@),
            tv == str_views(typed@),
            first_type_error(members@, tv, optional) is None,
            first_missing(members@, rv) == first_missing(members@, rv.skip(k as int)),
        decreases required@.len() - k,
    {
        assert(rv.skip(k as int).drop_first() == rv.skip(k + 1));
        assert(rv.skip(k as int)[0] == required@[k as int]@);
        if find_member(members, required[k]).is_none() {
            assert(first_missing(members@, rv.skip(k as int)) == Some(required@[k as int]@));
            let mut d = String::from_str("missing field `");
            d.append(required[k]);
            d.append("`");
            return Some(d);
        }
        k = k + 1;
    }
    None
}

/// The argument lists of the command named `name`.
fn arguments_for(name: &str) -> (r: (Vec<&'static str>, bool, Vec<&'static str>))
    ensures
        (str_views(r.0@), r.1, str_views(r.2@)) == arguments_of(name@),
{
    let n = chars_of(name);
    let r: (Vec<&'static str>, bool, Vec<&'static str>) = if same_chars(n.as_slice(), chars_of("help").as_slice()) {
        (vec!["subcommand"], true, vec![])
    } else if same_chars(n.as_slice(), chars_of("broadcast").as_slice()) {
        (vec!["message"], false, vec!["message"])
    } else if same_chars(n.as_slice(), chars_of("send").as_slice()) {
        (vec!["to", "message"], false, vec!["to", "message"])
    } else if same_chars(n.as_slice(), chars_of("post-worklist").as_slice()) {
        (vec!["item"], false, vec!["item"])
    } else if same_chars(n.as_slice(), chars_of("remove-worklist").as_slice()) {
        (vec!["id"], false, vec!["id"])
    } else if same_chars(n.as_slice(), chars_of("store").as_slice()) {
        (vec!["key"], false, vec!["key", "value"])
    } else if same_chars(n.as_slice(), chars_of("retrieve").as_slice()) {
        (vec!["key"], false, vec!["key"])
    } else {
        (vec![], false, vec![])
    };
    assert((str_views(r.0@), r.1, str_views(r.2@)) =~= arguments_of(name@));
    r
}

} // verus!

verus! {

/// Every required argument is present when none is missing.
proof fn lemma_all_present(members: Seq<(String, JsonValue)>, required: Seq<Seq<char>>, key: Seq<char>)
    requires
        first_missing(members, required) is None,
        required.contains(key),
    ensures
        member(members, key) is Some,
    decreases required.len(),
{
    if required[0] != key {
        let k = choose|k: int| 0 <= k < required.len() && required[k] == key;
        assert(required.drop_first()[k - 1] == key);
        lemma_all_present(members, required.drop_first(), key);
    }
}

/// A decoded string argument: present, of the right type.
proof fn lemma_string_argument(members: Seq<(String, JsonValue)>, name: Seq<char>, key: Seq<char>)
    requires
        argument_error(members, arguments_of(name).0, arguments_of(name).1, arguments_of(name).2) is None,
        arguments_of(name).0.contains(key),
        arguments_of(name).2.contains(key),
        !arguments_of(name).1,
    ensures
        member(members, key) matches Some(JsonValue::String(_)),
{
    lemma_all_present(members, arguments_of(name).2, key);
    lemma_no_type_error(members, arguments_of(name).0, false, key);
}

fn text_arg(members: &Vec<(String, JsonValue)>, key: &str) -> (r: String)
    requires
        member(members@, key@) matches Some(JsonValue::String(_)),
    ensures
        r@ == text_member(members@, key@),
{
    match find_member(members, key) {
        Some(j) => match &members[j].1 {
            JsonValue::String(s) => s.clone(),
            _ => String::new(),
        },
        None => String::new(),
    }
}

/// Decode the arguments of the command named `name`.
fn decode(name: &str, members: Vec<(String, JsonValue)>) -> (cmd: JamsessionCommand)
    requires
        argument_error(members@, arguments_of(name@).0, arguments_of(name@).1, arguments_of(name@).2) is None,
    ensures
        cmd@ == command_of(name@, members@),
{
    let mut members = members;
    let ghost m = members@;
    let n = chars_of(name);
    proof {
        reveal_strlit("help");
        reveal_strlit("list-members");
        reveal_strlit("broadcast");
        reveal_strlit("send");
        reveal_strlit("post-worklist");
        reveal_strlit("remove-worklist");
        reveal_strlit("show-worklist");
        reveal_strlit("store");
        reveal_strlit("retrieve");
        reveal_strlit("message");
        reveal_strlit("to");
        reveal_strlit("item");
        reveal_strlit("id");
        reveal_strlit("key");
        reveal_strlit("value");
        reveal_strlit("subcommand");
    }
    if same_chars(n.as_slice(), chars_of("help").as_slice()) {
        let sub = match find_member(&members, "subcommand") {
            Some(j) => match &members[j].1 {
                JsonValue::String(s) => Some(s.clone()),
                _ => None,
            },
            None => None,
        };
        JamsessionCommand::Help { subcommand: sub }
    } else if same_chars(n.as_slice(), chars_of("list-members").as_slice()) {
        JamsessionCommand::ListMembers
    } else if same_chars(n.as_slice(), chars_of("broadcast").as_slice()) {
        proof { lemma_string_argument(m, name@, "message"@); }
        JamsessionCommand::Broadcast { message: text_arg(&members, "message") }
    } else if same_chars(n.as_slice(), chars_of("send").as_slice()) {
        proof {
            lemma_string_argument(m, name@, "to"@);
            lemma_string_argument(m, name@, "message"@);
        }
        JamsessionCommand::Send { to: text_arg(&members, "to"), message: text_arg(&members, "message") }
    } else if same_chars(n.as_slice(), chars_of("post-worklist").as_slice()) {
        proof { lemma_string_argument(m, name@, "item"@); }
        JamsessionCommand::PostWorklist { item: text_arg(&members, "item") }
    } else if same_chars(n.as_slice(), chars_of("remove-worklist").as_slice()) {
        proof { lemma_string_argument(m, name@, "id"@); }
        JamsessionCommand::RemoveWorklist { id: text_arg(&members, "id") }
    } else if same_chars(n.as_slice(), chars_of("show-worklist").as_slice()) {
        JamsessionCommand::ShowWorklist
    } else if same_chars(n.as_slice(), chars_of("store").as_slice()) {
        proof {
            assert(arguments_of(name@).0[0] == "key"@);
            assert(arguments_of(name@).2[0] == "key"@);
            assert(arguments_of(name@).2[1] == "value"@);
            lemma_string_argument(m, name@, "key"@);
            lemma_all_present(m, arguments_of(name@).2, "value"@);
        }
        let key = text_arg(&members, "key");
        match find_member(&members, "value") {
            Some(j) => {
                let (_, value) = members.remove(j);
                JamsessionCommand::Store { key, value }
            },
            None => JamsessionCommand::Store { key, value: JsonValue::Null },
        }
    } else {
        proof {
            if name@ == "retrieve"@ {
                assert(arguments_of(name@).0[0] == "key"@);
                assert(arguments_of(name@).2[0] == "key"@);
                lemma_string_argument(m, name@, "key"@);
            }
        }
        let key = match find_member(&members, "key") {
            Some(j) => match &members[j].1 {
                JsonValue::String(s) => s.clone(),
                _ => String::new(),
            },
            None => String::new(),
        };
        JamsessionCommand::Retrieve { key }
    }
}

fn invalid_arguments_error(command: &str, detail: String) -> (v: JsonValue)
    ensures
        is_reply(v, invalid_arguments_reply(command@, detail@)),
{
    let mut error = String::from_str("invalid arguments for command: ");
    error.append(command);
    let mut hint = String::from_str("Run {\"command\": \"help\", \"subcommand\": \"");
    hint.append(command);
    hint.append("\"} for usage.");
    let mut m: Vec<(String, JsonValue)> = Vec::new();
    m.push((String::from_str("detail"), JsonValue::String(detail)));
    m.push((String::from_str("error"), JsonValue::String(error)));
    m.push((String::from_str("hint"), JsonValue::String(hint)));
    JsonValue::Object(m)
}

/// Parse a raw tool input value and dispatch it, returning a JSON response.
///
/// Unknown commands and malformed input produce a structured error object
/// with a `hint` pointing at `help`.
pub fn dispatch_json(input: JsonValue) -> (out: JsonValue)
    ensures
        is_reply(out, dispatch_json_reply(input)),
{
    let command: String = match input.get("command") {
        Some(JsonValue::String(s)) => s.clone(),
        _ => {
            return unknown_command_error("<missing>");
        },
    };
    if find_command_index(command.as_str()).is_none() {
        return unknown_command_error(command.as_str());
    }
    let ghost whole = input;
    let members = match input {
        JsonValue::Object(m) => m,
        _ => Vec::new(),
    };
    assert(members@ == (match whole {
        JsonValue::Object(m) => m@,
        _ => Seq::empty(),
    }));
    let (typed, optional, required) = arguments_for(command.as_str());
    match argument_error_text(&members, &typed, optional, &required) {
        Some(detail) => invalid_arguments_error(command.as_str(), detail),
        None => dispatch(decode(command.as_str(), members)),
    }
}

} // verus!
