//! Trace enums and the queries over the team tables.
//!
//! The rows are stored in SQLite; the functions here take the rows that a
//! table query returned and compute what the store hands back. The writes
//! (joining or leaving a team, storing a value, draining a queue) are SQL
//! statements run by the executable; here they are modelled as functions on
//! the rows, and the laws about them are proved of that model.

use vstd::prelude::*;
use vstd::string::*;
use crate::order::{lemma_lt_irreflexive, lemma_lt_total, less_than, lex_lt, sort_strings, sorted, strictly_sorted};
use crate::text::{chars_of, same_chars, string_views};

verus! {

broadcast use vstd::string::group_string_axioms;

/// The direction of a traced message.
#[derive(Debug, Clone, Copy, PartialEq, Eq, Structural)]
pub enum TraceDirection {
    ClientToDaemon,
    DaemonToAgent,
    AgentToDaemon,
    DaemonToClient,
    Internal,
}

/// The kind of a traced message.
#[derive(Debug, Clone, Copy, PartialEq, Eq, Structural)]
pub enum TraceKind {
    Request,
    Response,
    Notification,
    Event,
}

/// A stored trace enum value that names no variant.
#[derive(Debug, Clone, PartialEq, Eq)]
pub struct TraceParseError(pub String);

impl TraceParseError {
    /// The error's message: `unknown trace enum value: VALUE`.
    pub fn message(&self) -> (m: String)
        ensures
            m@ == "unknown trace enum value: "@ + self.0@,
    {
        let mut m = String::from_str("unknown trace enum value: ");
        m.append(self.0.as_str());
        m
    }
}

/// The stored (snake_case) name of a direction.
pub open spec fn direction_text(d: TraceDirection) -> Seq<char> {
    match d {
        TraceDirection::ClientToDaemon => "client_to_daemon"@,
        TraceDirection::DaemonToAgent => "daemon_to_agent"@,
        TraceDirection::AgentToDaemon => "agent_to_daemon"@,
        TraceDirection::DaemonToClient => "daemon_to_client"@,
        TraceDirection::Internal => "internal"@,
    }
}

/// The stored (snake_case) name of a kind.
pub open spec fn kind_text(k: TraceKind) -> Seq<char> {
    match k {
        TraceKind::Request => "request"@,
        TraceKind::Response => "response"@,
        TraceKind::Notification => "notification"@,
        TraceKind::Event => "event"@,
    }
}

/// The direction stored as `s`, if any.
pub open spec fn direction_of(s: Seq<char>) -> Option<TraceDirection> {
    if s == "client_to_daemon"@ {
        Some(TraceDirection::ClientToDaemon)
    } else if s == "daemon_to_agent"@ {
        Some(TraceDirection::DaemonToAgent)
    } else if s == "agent_to_daemon"@ {
        Some(TraceDirection::AgentToDaemon)
    } else if s == "daemon_to_client"@ {
        Some(TraceDirection::DaemonToClient)
    } else if s == "internal"@ {
        Some(TraceDirection::Internal)
    } else {
        None
    }
}

/// The kind stored as `s`, if any.
pub open spec fn kind_of(s: Seq<char>) -> Option<TraceKind> {
    if s == "request"@ {
        Some(TraceKind::Request)
    } else if s == "response"@ {
        Some(TraceKind::Response)
    } else if s == "notification"@ {
        Some(TraceKind::Notification)
    } else if s == "event"@ {
        Some(TraceKind::Event)
    } else {
        None
    }
}

fn is_text(value: &Vec<char>, lit: &str) -> (r: bool)
    ensures
        r == (value@ == lit@),
{
    let l = chars_of(lit);
    same_chars(value.as_slice(), l.as_slice())
}

impl TraceDirection {
    /// The stored name of this direction.
    pub fn as_str(&self) -> (s: &'static str)
        ensures
            s@ == direction_text(*self),
    {
        match self {
            TraceDirection::ClientToDaemon => "client_to_daemon",
            TraceDirection::DaemonToAgent => "daemon_to_agent",
            TraceDirection::AgentToDaemon => "agent_to_daemon",
            TraceDirection::DaemonToClient => "daemon_to_client",
            TraceDirection::Internal => "internal",
        }
    }

    /// The direction stored as `value`; an error naming `value` otherwise.
    pub fn parse(value: &str) -> (r: Result<TraceDirection, TraceParseError>)
        ensures
            match r {
                Ok(d) => direction_of(value@) == Some(d),
                Err(e) => direction_of(value@) is None && e.0@ == value@,
            },
    {
        let v = chars_of(value);
        if is_text(&v, "client_to_daemon") {
            Ok(TraceDirection::ClientToDaemon)
        } else if is_text(&v, "daemon_to_agent") {
            Ok(TraceDirection::DaemonToAgent)
        } else if is_text(&v, "agent_to_daemon") {
            Ok(TraceDirection::AgentToDaemon)
        } else if is_text(&v, "daemon_to_client") {
            Ok(TraceDirection::DaemonToClient)
        } else if is_text(&v, "internal") {
            Ok(TraceDirection::Internal)
        } else {
            Err(TraceParseError(String::from_str(value)))
        }
    }
}

impl TraceKind {
    /// The stored name of this kind.
    pub fn as_str(&self) -> (s: &'static str)
        ensures
            s@ == kind_text(*self),
    {
        match self {
            TraceKind::Request => "request",
            TraceKind::Response => "response",
            TraceKind::Notification => "notification",
            TraceKind::Event => "event",
        }
    }

    /// The kind stored as `value`; an error naming `value` otherwise.
    pub fn parse(value: &str) -> (r: Result<TraceKind, TraceParseError>)
        ensures
            match r {
                Ok(k) => kind_of(value@) == Some(k),
                Err(e) => kind_of(value@) is None && e.0@ == value@,
            },
    {
        let v = chars_of(value);
        if is_text(&v, "request") {
            Ok(TraceKind::Request)
        } else if is_text(&v, "response") {
            Ok(TraceKind::Response)
        } else if is_text(&v, "notification") {
            Ok(TraceKind::Notification)
        } else if is_text(&v, "event") {
            Ok(TraceKind::Event)
        } else {
            Err(TraceParseError(String::from_str(value)))
        }
    }
}

/// Reading back a stored direction gives the direction that was stored, and
/// distinct directions are stored under distinct names.
pub proof fn lemma_direction_roundtrip(d: TraceDirection, e: TraceDirection)
    ensures
        direction_of(direction_text(d)) == Some(d),
        direction_text(d) == direction_text(e) ==> d == e,
{
    reveal_strlit("client_to_daemon");
    reveal_strlit("daemon_to_agent");
    reveal_strlit("agent_to_daemon");
    reveal_strlit("daemon_to_client");
    reveal_strlit("internal");
    let a = "client_to_daemon"@;
    let b = "daemon_to_agent"@;
    let c = "agent_to_daemon"@;
    let d2 = "daemon_to_client"@;
    let i = "internal"@;
    assert(a.len() == 16 && d2.len() == 16 && b.len() == 15 && c.len() == 15 && i.len() == 8);
    assert(a[0] != d2[0] && a[0] != b[0] && a[0] != c[0] && b[0] != c[0] && d2[0] != c[0]);
    assert(a != b && a != c && a != d2 && a != i && b != c && b != d2 && b != i && c != d2 && c
        != i && d2 != i);
}

/// Reading back a stored kind gives the kind that was stored, and distinct
/// kinds are stored under distinct names.
pub proof fn lemma_kind_roundtrip(k: TraceKind, l: TraceKind)
    ensures
        kind_of(kind_text(k)) == Some(k),
        kind_text(k) == kind_text(l) ==> k == l,
{
    reveal_strlit("request");
    reveal_strlit("response");
    reveal_strlit("notification");
    reveal_strlit("event");
    let a = "request"@;
    let b = "response"@;
    let c = "notification"@;
    let d = "event"@;
    assert(a.len() == 7 && b.len() == 8 && c.len() == 12 && d.len() == 5);
    assert(a != b && a != c && a != d && b != c && b != d && c != d);
}

} // verus!

verus! {

/// A session's membership in a jamsession team (one row per session: the
/// session id is the table's key).
#[derive(Debug, Clone, PartialEq, Eq)]
pub struct TeamMembership {
    pub session_id: String,
    pub team: String,
    pub joined_at: String,
}

/// A team message queued for a session whose agent was not live at send time;
/// the auto-increment `id` preserves send order.
#[derive(Debug, Clone, PartialEq, Eq)]
pub struct PendingMessage {
    pub id: u64,
    pub session_id: String,
    /// The fully rendered message text to inject into the recipient's turn.
    pub body: String,
    pub queued_at: String,
}

/// An item on a team's shared worklist.
#[derive(Debug, Clone, PartialEq, Eq)]
pub struct WorklistItem {
    pub id: u64,
    pub team: String,
    pub item: String,
    /// The session id of the member who posted the item.
    pub posted_by: String,
    pub posted_at: String,
}

/// A key-value entry in a team's shared store; the value is JSON-encoded.
#[derive(Debug, Clone, PartialEq, Eq)]
pub struct StoreEntry {
    pub id: u64,
    pub team: String,
    pub key: String,
    pub value: String,
    pub updated_at: String,
}

/// The team of the first membership row for `sid`.
pub open spec fn team_of_spec(rows: Seq<TeamMembership>, sid: Seq<char>) -> Option<Seq<char>>
    decreases rows.len(),
{
    if rows.len() == 0 {
        None
    } else if rows[0].session_id@ == sid {
        Some(rows[0].team@)
    } else {
        team_of_spec(rows.drop_first(), sid)
    }
}

/// The team `session_id` belongs to according to the membership rows.
pub fn team_of_session(rows: &[TeamMembership], session_id: &str) -> (r: Option<String>)
    ensures
        match r {
            Some(t) => team_of_spec(rows@, session_id@) == Some(t@),
            None => team_of_spec(rows@, session_id@) is None,
        },
{
    let sid = chars_of(session_id);
    let mut i: usize = 0;
    assert(rows@.skip(0) == rows@);
    while i < rows.len()
        invariant
            i <= rows@.len(),
            sid@ == session_id@,
            team_of_spec(rows@, session_id@) == team_of_spec(rows@.skip(i as int), session_id@),
        decreases rows@.len() - i,
    {
        assert(rows@.skip(i as int).drop_first() == rows@.skip(i + 1));
        assert(rows@.skip(i as int)[0] == rows@[i as int]);
        let row_sid = chars_of(rows[i].session_id.as_str());
        if same_chars(row_sid.as_slice(), sid.as_slice()) {
            return Some(rows[i].team.clone());
        }
        i = i + 1;
    }
    None
}

/// The session ids of the rows whose team is `team`, in row order.
pub open spec fn members_in(rows: Seq<TeamMembership>, team: Seq<char>) -> Seq<Seq<char>>
    decreases rows.len(),
{
    if rows.len() == 0 {
        Seq::empty()
    } else {
        let rest = members_in(rows.drop_last(), team);
        if rows.last().team@ == team {
            rest.push(rows.last().session_id@)
        } else {
            rest
        }
    }
}

/// The session ids of every member of `team`, in ascending order.
pub fn team_members(rows: &[TeamMembership], team: &str) -> (r: Vec<String>)
    ensures
        sorted(string_views(r@)),
        string_views(r@).to_multiset() == members_in(rows@, team@).to_multiset(),
{
    let t = chars_of(team);
    let mut ids: Vec<String> = Vec::new();
    let mut i: usize = 0;
    while i < rows.len()
        invariant
            i <= rows@.len(),
            t@ == team@,
            string_views(ids@) == members_in(rows@.take(i as int), team@),
        decreases rows@.len() - i,
    {
        assert(rows@.take((i + 1) as int).drop_last() == rows@.take(i as int));
        let row_team = chars_of(rows[i].team.as_str());
        if same_chars(row_team.as_slice(), t.as_slice()) {
            ids.push(rows[i].session_id.clone());
            assert(string_views(ids@) == string_views(ids@).drop_last().push(ids@.last()@));
        }
        i = i + 1;
    }
    assert(rows@.take(rows@.len() as int) == rows@);
    sort_strings(ids)
}

/// The teams named by the rows.
pub open spec fn team_names(rows: Seq<TeamMembership>) -> Set<Seq<char>> {
    rows.map_values(|r: TeamMembership| r.team@).to_set()
}

/// The names of all active teams (those with at least one member), sorted and
/// without repeats.
pub fn list_teams(rows: &[TeamMembership]) -> (r: Vec<String>)
    ensures
        strictly_sorted(string_views(r@)),
        string_views(r@).to_set() == team_names(rows@),
{
    let mut names: Vec<String> = Vec::new();
    let mut i: usize = 0;
    while i < rows.len()
        invariant
            i <= rows@.len(),
            string_views(names@) == rows@.take(i as int).map_values(|r: TeamMembership| r.team@),
        decreases rows@.len() - i,
    {
        names.push(rows[i].team.clone());
        assert(rows@.take((i + 1) as int).map_values(|r: TeamMembership| r.team@) =~= rows@.take(
            i as int,
        ).map_values(|r: TeamMembership| r.team@).push(rows@[i as int].team@));
        assert(string_views(names@) =~= rows@.take((i + 1) as int).map_values(
            |r: TeamMembership| r.team@,
        ));
        i = i + 1;
    }
    assert(rows@.take(rows@.len() as int) == rows@);
    let ghost nv = string_views(names@);
    let all = sort_strings(names);
    proof {
        crate::order::lemma_same_multiset_same_set(string_views(all@), nv);
    }
    dedup_sorted(all)
}

/// `v` (sorted) with consecutive repeats removed (`Vec::dedup`).
fn dedup_sorted(v: Vec<String>) -> (r: Vec<String>)
    requires
        sorted(string_views(v@)),
    ensures
        strictly_sorted(string_views(r@)),
        string_views(r@).to_set() == string_views(v@).to_set(),
{
    broadcast use vstd::seq_lib::group_to_multiset_ensures;

    let ghost sv = string_views(v@);
    let mut out: Vec<String> = Vec::new();
    let mut i: usize = 0;
    while i < v.len()
        invariant
            i <= v@.len(),
            sv == string_views(v@),
            sorted(sv),
            strictly_sorted(string_views(out@)),
            string_views(out@).to_set() == sv.take(i as int).to_set(),
            i > 0 ==> out@.len() > 0 && string_views(out@).last() == sv[i - 1],
            i == 0 ==> out@.len() == 0,
        decreases v@.len() - i,
    {
        let ghost ov = string_views(out@);
        assert(sv.take((i + 1) as int) == sv.take(i as int).push(sv[i as int]));
        if out.len() == 0 || less_than(out[out.len() - 1].as_str(), v[i].as_str()) {
            out.push(v[i].clone());
            proof {
                let nv = string_views(out@);
                assert(nv =~= ov.push(sv[i as int]));
                assert forall|a: int, b: int| 0 <= a < b < nv.len() implies lex_lt(
                    #[trigger] nv[a],
                    #[trigger] nv[b],
                ) by {
                    if b == nv.len() - 1 && a < b {
                        if a < ov.len() - 1 {
                            assert(lex_lt(ov[a], ov.last()));
                            crate::order::lemma_lt_transitive(ov[a], ov.last(), sv[i as int]);
                        }
                    }
                }
                ov.lemma_push_to_set_commute(sv[i as int]);
                sv.take(i as int).lemma_push_to_set_commute(sv[i as int]);
            }
        } else {
            proof {
                // sorted: last <= v[i]; not strictly less: they are equal
                assert(sv[i - 1] == ov.last());
                assert(crate::order::lex_le(sv[i - 1], sv[i as int]));
                lemma_lt_total(sv[i - 1], sv[i as int]);
                sv.take(i as int).lemma_push_to_set_commute(sv[i as int]);
                assert(ov.contains(ov.last()));
                assert(ov.to_set().contains(sv[i as int]));
                assert(sv.take((i + 1) as int).to_set() =~= ov.to_set());
            }
        }
        i = i + 1;
    }
    assert(sv.take(v@.len() as int) == sv);
    out
}

} // verus!

verus! {

/// The bodies of the pending rows for `sid`, in row order.
pub open spec fn pending_for(rows: Seq<PendingMessage>, sid: Seq<char>) -> Seq<Seq<char>>
    decreases rows.len(),
{
    if rows.len() == 0 {
        Seq::empty()
    } else {
        let rest = pending_for(rows.drop_last(), sid);
        if rows.last().session_id@ == sid {
            rest.push(rows.last().body@)
        } else {
            rest
        }
    }
}

/// The bodies of the pending messages for `session_id`, in the order of
/// `rows` (the store reads them in ascending id, that is send, order).
pub fn pending_bodies(rows: &[PendingMessage], session_id: &str) -> (r: Vec<String>)
    ensures
        string_views(r@) == pending_for(rows@, session_id@),
{
    let sid = chars_of(session_id);
    let mut out: Vec<String> = Vec::new();
    let mut i: usize = 0;
    while i < rows.len()
        invariant
            i <= rows@.len(),
            sid@ == session_id@,
            string_views(out@) == pending_for(rows@.take(i as int), session_id@),
        decreases rows@.len() - i,
    {
        assert(rows@.take((i + 1) as int).drop_last() == rows@.take(i as int));
        let row_sid = chars_of(rows[i].session_id.as_str());
        if same_chars(row_sid.as_slice(), sid.as_slice()) {
            out.push(rows[i].body.clone());
            assert(string_views(out@) == string_views(out@).drop_last().push(out@.last()@));
        }
        i = i + 1;
    }
    assert(rows@.take(rows@.len() as int) == rows@);
    out
}

/// The worklist rows of `team`, as `(id, item, posted_by)`, in row order.
pub open spec fn worklist_of(rows: Seq<WorklistItem>, team: Seq<char>) -> Seq<(u64, Seq<char>, Seq<char>)>
    decreases rows.len(),
{
    if rows.len() == 0 {
        Seq::empty()
    } else {
        let rest = worklist_of(rows.drop_last(), team);
        let w = rows.last();
        if w.team@ == team {
            rest.push((w.id, w.item@, w.posted_by@))
        } else {
            rest
        }
    }
}

/// The views of worklist tuples.
pub open spec fn item_views(v: Seq<(u64, String, String)>) -> Seq<(u64, Seq<char>, Seq<char>)> {
    v.map_values(|t: (u64, String, String)| (t.0, t.1@, t.2@))
}

/// All items on `team`'s worklist, as `(id, item, posted_by)`, in the order of
/// `rows` (the store reads them in ascending id, that is post, order).
pub fn worklist_items(rows: &[WorklistItem], team: &str) -> (r: Vec<(u64, String, String)>)
    ensures
        item_views(r@) == worklist_of(rows@, team@),
{
    let t = chars_of(team);
    let mut out: Vec<(u64, String, String)> = Vec::new();
    let mut i: usize = 0;
    while i < rows.len()
        invariant
            i <= rows@.len(),
            t@ == team@,
            item_views(out@) == worklist_of(rows@.take(i as int), team@),
        decreases rows@.len() - i,
    {
        assert(rows@.take((i + 1) as int).drop_last() == rows@.take(i as int));
        let row_team = chars_of(rows[i].team.as_str());
        if same_chars(row_team.as_slice(), t.as_slice()) {
            out.push((rows[i].id, rows[i].item.clone(), rows[i].posted_by.clone()));
            assert(item_views(out@) =~= item_views(out@).drop_last().push(
                (rows@[i as int].id, rows@[i as int].item@, rows@[i as int].posted_by@),
            ));
        }
        i = i + 1;
    }
    assert(rows@.take(rows@.len() as int) == rows@);
    out
}

/// The number of items on `team`'s worklist.
pub fn worklist_count(rows: &[WorklistItem], team: &str) -> (n: usize)
    ensures
        n == worklist_of(rows@, team@).len(),
{
    worklist_items(rows, team).len()
}

/// Whether `team`'s worklist holds an item with id `id` (only such an item
/// may be removed).
pub fn worklist_contains(rows: &[WorklistItem], team: &str, id: u64) -> (r: bool)
    ensures
        r == exists|k: int| 0 <= k < worklist_of(rows@, team@).len() && #[trigger] worklist_of(rows@, team@)[k].0 == id,
{
    let items = worklist_items(rows, team);
    let mut i: usize = 0;
    while i < items.len()
        invariant
            i <= items@.len(),
            item_views(items@) == worklist_of(rows@, team@),
            forall|k: int| 0 <= k < i ==> items@[k].0 != id,
        decreases items@.len() - i,
    {
        if items[i].0 == id {
            assert(worklist_of(rows@, team@)[i as int].0 == id);
            return true;
        }
        i = i + 1;
    }
    assert forall|k: int| 0 <= k < worklist_of(rows@, team@).len() implies #[trigger] worklist_of(rows@, team@)[k].0 != id by {
        assert(item_views(items@)[k].0 == items@[k].0);
    }
    false
}

/// The entries of `team` stored under `key`, in row order.
pub open spec fn entries_for(rows: Seq<StoreEntry>, team: Seq<char>, key: Seq<char>) -> Seq<StoreEntry>
    decreases rows.len(),
{
    if rows.len() == 0 {
        Seq::empty()
    } else {
        let rest = entries_for(rows.drop_last(), team, key);
        if rows.last().team@ == team && rows.last().key@ == key {
            rest.push(rows.last())
        } else {
            rest
        }
    }
}

fn matching_entries(rows: &[StoreEntry], team: &str, key: &str) -> (r: Vec<usize>)
    ensures
        r@.len() == entries_for(rows@, team@, key@).len(),
        forall|k: int| 0 <= k < r@.len() ==> #[trigger] r@[k] < rows@.len() && rows@[r@[k] as int] == entries_for(rows@, team@, key@)[k],
{
    let t = chars_of(team);
    let kc = chars_of(key);
    let mut out: Vec<usize> = Vec::new();
    let mut i: usize = 0;
    while i < rows.len()
        invariant
            i <= rows@.len(),
            t@ == team@,
            kc@ == key@,
            out@.len() == entries_for(rows@.take(i as int), team@, key@).len(),
            forall|k: int| 0 <= k < out@.len() ==> #[trigger] out@[k] < i && rows@[out@[k] as int] == entries_for(rows@.take(i as int), team@, key@)[k],
        decreases rows@.len() - i,
    {
        assert(rows@.take((i + 1) as int).drop_last() == rows@.take(i as int));
        assert(rows@.take((i + 1) as int).last() == rows@[i as int]);
        let row_team = chars_of(rows[i].team.as_str());
        let row_key = chars_of(rows[i].key.as_str());
        if same_chars(row_team.as_slice(), t.as_slice()) && same_chars(row_key.as_slice(), kc.as_slice()) {
            out.push(i);
        }
        i = i + 1;
    }
    assert(rows@.take(rows@.len() as int) == rows@);
    out
}

/// The ids of `team`'s entries under `key`: the rows that storing a new
/// value for `key` replaces.
pub fn entries_to_replace(rows: &[StoreEntry], team: &str, key: &str) -> (r: Vec<u64>)
    ensures
        r@ == entries_for(rows@, team@, key@).map_values(|e: StoreEntry| e.id),
{
    let idx = matching_entries(rows, team, key);
    let mut out: Vec<u64> = Vec::new();
    let mut i: usize = 0;
    while i < idx.len()
        invariant
            i <= idx@.len(),
            idx@.len() == entries_for(rows@, team@, key@).len(),
            forall|k: int| 0 <= k < idx@.len() ==> #[trigger] idx@[k] < rows@.len() && rows@[idx@[k] as int] == entries_for(rows@, team@, key@)[k],
            out@ == entries_for(rows@, team@, key@).take(i as int).map_values(|e: StoreEntry| e.id),
        decreases idx@.len() - i,
    {
        let j = idx[i];
        assert(idx@[i as int] == j);
        out.push(rows[j].id);
        assert(entries_for(rows@, team@, key@).take((i + 1) as int).map_values(|e: StoreEntry| e.id)
            =~= entries_for(rows@, team@, key@).take(i as int).map_values(|e: StoreEntry| e.id).push(rows@[j as int].id));
        i = i + 1;
    }
    assert(entries_for(rows@, team@, key@).take(idx@.len() as int) == entries_for(rows@, team@, key@));
    out
}

/// The JSON-encoded value stored under `key` for `team`: that of the first
/// matching row, if any.
pub fn stored_value(rows: &[StoreEntry], team: &str, key: &str) -> (r: Option<String>)
    ensures
        entries_for(rows@, team@, key@).len() == 0 ==> r is None,
        entries_for(rows@, team@, key@).len() > 0 ==> (r matches Some(v) && v@ == entries_for(rows@, team@, key@)[0].value@),
{
    let idx = matching_entries(rows, team, key);
    if idx.len() == 0 {
        None
    } else {
        let j = idx[0];
        assert(idx@[0] == j);
        Some(rows[j].value.clone())
    }
}

/// The membership rows without those of session `sid` (what leaving a team
/// does to the table).
/// This describes the effect of the store's SQL statements on the table; it
/// is a model, and no function of this library performs the write.
pub open spec fn without_session(rows: Seq<TeamMembership>, sid: Seq<char>) -> Seq<TeamMembership>
    decreases rows.len(),
{
    if rows.len() == 0 {
        rows
    } else {
        let rest = without_session(rows.drop_first(), sid);
        if rows[0].session_id@ == sid {
            rest
        } else {
            seq![rows[0]] + rest
        }
    }
}

/// The membership rows once `row`'s session joins `row`'s team: the
/// session's earlier membership is deleted and `row` is added.
/// This describes the effect of the store's SQL statements on the table; it
/// is a model, and no function of this library performs the write.
pub open spec fn after_join(rows: Seq<TeamMembership>, row: TeamMembership) -> Seq<TeamMembership> {
    without_session(rows, row.session_id@).push(row)
}

proof fn lemma_without_session_team(rows: Seq<TeamMembership>, sid: Seq<char>, other: Seq<char>)
    ensures
        team_of_spec(without_session(rows, sid), sid) is None,
        other != sid ==> team_of_spec(without_session(rows, sid), other) == team_of_spec(rows, other),
    decreases rows.len(),
{
    if rows.len() > 0 {
        lemma_without_session_team(rows.drop_first(), sid, other);
        let rest = without_session(rows.drop_first(), sid);
        if rows[0].session_id@ != sid {
            assert((seq![rows[0]] + rest)[0] == rows[0]);
            assert((seq![rows[0]] + rest).drop_first() == rest);
        }
    }
}

proof fn lemma_team_of_push(rows: Seq<TeamMembership>, row: TeamMembership, sid: Seq<char>)
    ensures
        team_of_spec(rows, sid) is Some ==> team_of_spec(rows.push(row), sid) == team_of_spec(rows, sid),
        team_of_spec(rows, sid) is None ==> team_of_spec(rows.push(row), sid) == (if row.session_id@ == sid {
            Some(row.team@)
        } else {
            None
        }),
    decreases rows.len(),
{
    if rows.len() == 0 {
        assert(rows.push(row) == seq![row]);
        assert(seq![row].drop_first() == Seq::<TeamMembership>::empty());
    } else {
        assert(rows.push(row)[0] == rows[0]);
        assert(rows.push(row).drop_first() == rows.drop_first().push(row));
        lemma_team_of_push(rows.drop_first(), row, sid);
    }
}

/// Joining a team replaces the session's membership: afterwards the session
/// is on exactly the team it joined, and every other session's team is what
/// it was.
pub proof fn lemma_join_replaces_membership(rows: Seq<TeamMembership>, row: TeamMembership, other: Seq<char>)
    ensures
        team_of_spec(after_join(rows, row), row.session_id@) == Some(row.team@),
        other != row.session_id@ ==> team_of_spec(after_join(rows, row), other) == team_of_spec(rows, other),
{
    let sid = row.session_id@;
    lemma_without_session_team(rows, sid, other);
    lemma_team_of_push(without_session(rows, sid), row, sid);
    lemma_team_of_push(without_session(rows, sid), row, other);
}

/// Leaving a team removes only the leaving session's membership.
pub proof fn lemma_leave_clears_membership(rows: Seq<TeamMembership>, sid: Seq<char>, other: Seq<char>)
    ensures
        team_of_spec(without_session(rows, sid), sid) is None,
        other != sid ==> team_of_spec(without_session(rows, sid), other) == team_of_spec(rows, other),
{
    lemma_without_session_team(rows, sid, other);
}

/// The store rows without `team`'s entries under `key`.
/// This describes the effect of the store's SQL statements on the table; it
/// is a model, and no function of this library performs the write.
pub open spec fn without_key(rows: Seq<StoreEntry>, team: Seq<char>, key: Seq<char>) -> Seq<StoreEntry>
    decreases rows.len(),
{
    if rows.len() == 0 {
        rows
    } else {
        let rest = without_key(rows.drop_last(), team, key);
        if rows.last().team@ == team && rows.last().key@ == key {
            rest
        } else {
            rest.push(rows.last())
        }
    }
}

/// The store rows once `entry` is stored: the rows that
/// [`entries_to_replace`] names are deleted and `entry` is added.
/// This describes the effect of the store's SQL statements on the table; it
/// is a model, and no function of this library performs the write.
pub open spec fn after_put(rows: Seq<StoreEntry>, entry: StoreEntry) -> Seq<StoreEntry> {
    without_key(rows, entry.team@, entry.key@).push(entry)
}

proof fn lemma_without_key_entries(rows: Seq<StoreEntry>, team: Seq<char>, key: Seq<char>, t: Seq<char>, k: Seq<char>)
    ensures
        entries_for(without_key(rows, team, key), team, key) == Seq::<StoreEntry>::empty(),
        !(t == team && k == key) ==> entries_for(without_key(rows, team, key), t, k) == entries_for(rows, t, k),
    decreases rows.len(),
{
    if rows.len() > 0 {
        lemma_without_key_entries(rows.drop_last(), team, key, t, k);
        let rest = without_key(rows.drop_last(), team, key);
        if !(rows.last().team@ == team && rows.last().key@ == key) {
            assert(rest.push(rows.last()).drop_last() == rest);
        }
    }
}

/// A stored value is read back: after storing `entry`, its team holds
/// exactly one entry under its key (so retrieving the key gives `entry`'s
/// value), and every other team and key reads as before.
pub proof fn lemma_put_then_get(rows: Seq<StoreEntry>, entry: StoreEntry, t: Seq<char>, k: Seq<char>)
    ensures
        entries_for(after_put(rows, entry), entry.team@, entry.key@) == seq![entry],
        !(t == entry.team@ && k == entry.key@) ==> entries_for(after_put(rows, entry), t, k) == entries_for(rows, t, k),
{
    let w = without_key(rows, entry.team@, entry.key@);
    lemma_without_key_entries(rows, entry.team@, entry.key@, t, k);
    assert(after_put(rows, entry).drop_last() == w);
    assert(Seq::<StoreEntry>::empty().push(entry) == seq![entry]);
}

/// The pending rows without those of session `sid` (what taking a session's
/// pending messages does to the table, once [`pending_bodies`] has read them).
/// This describes the effect of the store's SQL statements on the table; it
/// is a model, and no function of this library performs the write.
pub open spec fn without_pending(rows: Seq<PendingMessage>, sid: Seq<char>) -> Seq<PendingMessage>
    decreases rows.len(),
{
    if rows.len() == 0 {
        rows
    } else {
        let rest = without_pending(rows.drop_last(), sid);
        if rows.last().session_id@ == sid {
            rest
        } else {
            rest.push(rows.last())
        }
    }
}

/// Taking a session's pending messages drains them: afterwards it has none,
/// and every other session's queue is as it was.
pub proof fn lemma_take_drains_queue(rows: Seq<PendingMessage>, sid: Seq<char>, other: Seq<char>)
    ensures
        pending_for(without_pending(rows, sid), sid) == Seq::<Seq<char>>::empty(),
        other != sid ==> pending_for(without_pending(rows, sid), other) == pending_for(rows, other),
    decreases rows.len(),
{
    if rows.len() > 0 {
        lemma_take_drains_queue(rows.drop_last(), sid, other);
        let rest = without_pending(rows.drop_last(), sid);
        if rows.last().session_id@ != sid {
            assert(rest.push(rows.last()).drop_last() == rest);
        }
    }
}

} // verus!
