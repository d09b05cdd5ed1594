//! Display of lifecycle-event traces with session ids replaced by stable
//! placeholders: the first session id seen becomes `$session0`, the next new
//! one `$session1`, and so on.

use vstd::prelude::*;
use vstd::string::*;
use crate::dispatcher::{EventView, LifecycleEvent};
use crate::number::{append_decimal, decimal_text};
use crate::text::{append_joined, join, string_views};

verus! {

broadcast use vstd::string::group_string_axioms;

/// The first position of `sid` in `ids` at or after `i`.
pub open spec fn first_index_from(ids: Seq<Seq<char>>, sid: Seq<char>, i: int) -> Option<int>
    decreases ids.len() - i,
{
    if i < 0 || i >= ids.len() {
        None
    } else if ids[i] == sid {
        Some(i)
    } else {
        first_index_from(ids, sid, i + 1)
    }
}

/// The number given to `sid` by the table `ids`: its first position there,
/// or the next free number when it is new.
pub open spec fn slot_of(ids: Seq<Seq<char>>, sid: Seq<char>) -> nat {
    match first_index_from(ids, sid, 0) {
        Some(i) => i as nat,
        None => ids.len(),
    }
}

/// The table after `sid` was seen: unchanged when `sid` is known, else
/// `sid` added at the end.
pub open spec fn with_id(ids: Seq<Seq<char>>, sid: Seq<char>) -> Seq<Seq<char>> {
    if ids.contains(sid) {
        ids
    } else {
        ids.push(sid)
    }
}

/// The placeholder for session number `k`: `$session` then `k` in decimal.
pub open spec fn placeholder(k: nat) -> Seq<char> {
    "$session"@ + decimal_text(k)
}

/// The text of `name(placeholder)` for the session `sid` under `ids`.
pub open spec fn tagged(name: Seq<char>, ids: Seq<Seq<char>>, sid: Seq<char>) -> Seq<char> {
    name + "("@ + placeholder(slot_of(ids, sid)) + ")"@
}

/// The session id an event names, if any.
pub open spec fn event_session(e: EventView) -> Option<Seq<char>> {
    match e {
        EventView::Initialized => None,
        EventView::ClientConnected => None,
        EventView::ClientDisconnected { session_id } => session_id,
        EventView::SessionCreated { session_id } => Some(session_id),
        EventView::SessionLoaded { session_id } => Some(session_id),
        EventView::SessionResumed { session_id } => Some(session_id),
        EventView::AgentQuiescent { session_id } => Some(session_id),
        EventView::AgentKilledIdle { session_id } => Some(session_id),
    }
}

/// The name an event is displayed under.
pub open spec fn event_name(e: EventView) -> Seq<char> {
    match e {
        EventView::Initialized => "Initialized"@,
        EventView::ClientConnected => "ClientConnected"@,
        EventView::ClientDisconnected { .. } => "ClientDisconnected"@,
        EventView::SessionCreated { .. } => "SessionCreated"@,
        EventView::SessionLoaded { .. } => "SessionLoaded"@,
        EventView::SessionResumed { .. } => "SessionResumed"@,
        EventView::AgentQuiescent { .. } => "AgentQuiescent"@,
        EventView::AgentKilledIdle { .. } => "AgentKilledIdle"@,
    }
}

/// How an event is displayed under the table `ids`: its name, followed by
/// the placeholder of its session in parentheses when it names one.
pub open spec fn event_display(e: EventView, ids: Seq<Seq<char>>) -> Seq<char> {
    match event_session(e) {
        None => event_name(e),
        Some(sid) => tagged(event_name(e), ids, sid),
    }
}

/// The table after an event was displayed.
pub open spec fn ids_after(e: EventView, ids: Seq<Seq<char>>) -> Seq<Seq<char>> {
    match event_session(e) {
        None => ids,
        Some(sid) => with_id(ids, sid),
    }
}

/// The displays of `events` in order, starting from the table `ids`.
pub open spec fn displays_from(events: Seq<EventView>, ids: Seq<Seq<char>>) -> Seq<Seq<char>>
    decreases events.len(),
{
    if events.len() == 0 {
        Seq::empty()
    } else {
        seq![event_display(events[0], ids)] + displays_from(events.drop_first(), ids_after(events[0], ids))
    }
}

/// The table after displaying `events` from the table `ids`.
pub open spec fn table_after(events: Seq<EventView>, ids: Seq<Seq<char>>) -> Seq<Seq<char>>
    decreases events.len(),
{
    if events.len() == 0 {
        ids
    } else {
        table_after(events.drop_first(), ids_after(events[0], ids))
    }
}

/// The views of a list of events.
pub open spec fn event_views(v: Seq<LifecycleEvent>) -> Seq<EventView> {
    v.map_values(|e: LifecycleEvent| e@)
}

proof fn lemma_first_index_found(ids: Seq<Seq<char>>, sid: Seq<char>, i: int)
    requires
        0 <= i <= ids.len(),
    ensures
        match first_index_from(ids, sid, i) {
            Some(k) => i <= k < ids.len() && ids[k] == sid && forall|j: int| i <= j < k ==> ids[j] != sid,
            None => forall|j: int| i <= j < ids.len() ==> ids[j] != sid,
        },
    decreases ids.len() - i,
{
    if i < ids.len() && ids[i] != sid {
        lemma_first_index_found(ids, sid, i + 1);
    }
}

/// The placeholder of session `sid`, recording `sid` in `ids` when it is new.
pub fn normalize_session_id(sid: &String, ids: &mut Vec<String>) -> (s: String)
    ensures
        s@ == placeholder(slot_of(string_views(old(ids)@), sid@)),
        string_views(final(ids)@) == with_id(string_views(old(ids)@), sid@),
{
    let ghost views = string_views(ids@);
    proof {
        lemma_first_index_found(views, sid@, 0);
    }
    let mut i: usize = 0;
    while i < ids.len()
        invariant
            i <= ids@.len(),
            views == string_views(ids@),
            first_index_from(views, sid@, 0) == first_index_from(views, sid@, i as int),
        decreases ids@.len() - i,
    {
        if ids[i] == *sid {
            assert(views[i as int] == sid@);
            assert(views.contains(sid@));
            let mut out = String::from_str("$session");
            append_decimal(&mut out, i as u64);
            return out;
        }
        assert(views[i as int] != sid@);
        i = i + 1;
    }
    proof {
        lemma_first_index_found(views, sid@, 0);
        if views.contains(sid@) {
            let k = choose|k: int| 0 <= k < views.len() && views[k] == sid@;
            assert(views[k] == sid@);
        }
    }
    let pos = ids.len();
    ids.push(sid.clone());
    assert(string_views(ids@) == views.push(sid@));
    let mut out = String::from_str("$session");
    append_decimal(&mut out, pos as u64);
    out
}

fn tagged_text(name: &str, sid: &String, ids: &mut Vec<String>) -> (s: String)
    ensures
        s@ == tagged(name@, string_views(old(ids)@), sid@),
        string_views(final(ids)@) == with_id(string_views(old(ids)@), sid@),
{
    let normalized = normalize_session_id(sid, ids);
    let mut out = String::from_str(name);
    out.append("(");
    out.append(normalized.as_str());
    out.append(")");
    out
}

/// Display one lifecycle event, replacing its session id by a placeholder
/// numbered in order of first appearance across the table `session_ids`.
pub fn normalize_event_display(event: &LifecycleEvent, session_ids: &mut Vec<String>) -> (s: String)
    ensures
        s@ == event_display(event@, string_views(old(session_ids)@)),
        string_views(final(session_ids)@) == ids_after(event@, string_views(old(session_ids)@)),
{
    match event {
        LifecycleEvent::Initialized => String::from_str("Initialized"),
        LifecycleEvent::ClientConnected => String::from_str("ClientConnected"),
        LifecycleEvent::ClientDisconnected { session_id: None } => String::from_str("ClientDisconnected"),
        LifecycleEvent::ClientDisconnected { session_id: Some(sid) } => tagged_text("ClientDisconnected", sid, session_ids),
        LifecycleEvent::SessionCreated { session_id } => tagged_text("SessionCreated", session_id, session_ids),
        LifecycleEvent::SessionLoaded { session_id } => tagged_text("SessionLoaded", session_id, session_ids),
        LifecycleEvent::SessionResumed { session_id } => tagged_text("SessionResumed", session_id, session_ids),
        LifecycleEvent::AgentQuiescent { session_id } => tagged_text("AgentQuiescent", session_id, session_ids),
        LifecycleEvent::AgentKilledIdle { session_id } => tagged_text("AgentKilledIdle", session_id, session_ids),
    }
}

/// The displays of a whole event trace, one per line, with session ids
/// numbered from `$session0` in order of first appearance.
pub fn lifecycle_trace(events: &Vec<LifecycleEvent>) -> (s: String)
    ensures
        s@ == join(displays_from(event_views(events@), Seq::empty()), "\n"@),
{
    let mut session_ids: Vec<String> = Vec::new();
    let mut lines: Vec<String> = Vec::new();
    let ghost all = event_views(events@);
    assert(all.skip(0) == all);
    assert(string_views(lines@) == Seq::<Seq<char>>::empty());
    assert(string_views(session_ids@) == Seq::<Seq<char>>::empty());
    let mut i: usize = 0;
    while i < events.len()
        invariant
            i <= events@.len(),
            all == event_views(events@),
            string_views(lines@) + displays_from(all.skip(i as int), string_views(session_ids@))
                == displays_from(all, Seq::empty()),
        decreases events@.len() - i,
    {
        let ghost before = string_views(session_ids@);
        let line = normalize_event_display(&events[i], &mut session_ids);
        proof {
            assert(all.skip(i as int)[0] == events@[i as int]@);
            assert(all.skip(i as int).drop_first() == all.skip(i + 1));
        }
        lines.push(line);
        assert(string_views(lines@) == string_views(lines@.drop_last()).push(line@));
        i = i + 1;
    }
    assert(all.skip(i as int).len() == 0);
    let mut out = String::new();
    append_joined(&mut out, lines.as_slice(), "\n");
    out
}

/// A session id keeps its placeholder: once `sid` has been seen, seeing it
/// again gives the same number and leaves the table as it was.
pub proof fn lemma_placeholder_stable(ids: Seq<Seq<char>>, sid: Seq<char>)
    ensures
        with_id(with_id(ids, sid), sid) == with_id(ids, sid),
        slot_of(with_id(ids, sid), sid) == slot_of(ids, sid),
{
    lemma_first_index_found(ids, sid, 0);
    let t = with_id(ids, sid);
    lemma_first_index_found(t, sid, 0);
    if !ids.contains(sid) {
        assert(t[ids.len() as int] == sid);
        assert(t.contains(sid));
        match first_index_from(t, sid, 0) {
            Some(k) => {
                if k < ids.len() {
                    assert(ids[k] == sid);
                    assert(ids.contains(sid));
                }
            },
            None => {},
        }
    } else {
        let k = choose|k: int| 0 <= k < ids.len() && ids[k] == sid;
        assert(ids[k] == sid);
    }
}

/// Distinct session ids get distinct numbers: the table never holds an id
/// twice, and two different ids in it have different slots.
pub proof fn lemma_placeholders_distinct(ids: Seq<Seq<char>>, a: Seq<char>, b: Seq<char>)
    requires
        ids.no_duplicates(),
    ensures
        with_id(ids, a).no_duplicates(),
        a != b ==> slot_of(with_id(ids, a), a) != slot_of(with_id(ids, a), b),
{
    let t = with_id(ids, a);
    lemma_first_index_found(ids, a, 0);
    lemma_first_index_found(t, a, 0);
    lemma_first_index_found(t, b, 0);
    if !ids.contains(a) {
        assert forall|i: int, j: int| 0 <= i < t.len() && 0 <= j < t.len() && i != j implies t[i] != t[j] by {
            if i == ids.len() {
                assert(!ids.contains(a));
                if t[j] == a {
                    assert(ids[j] == a);
                }
            } else if j == ids.len() {
                if t[i] == a {
                    assert(ids[i] == a);
                }
            }
        }
        assert(t[ids.len() as int] == a);
    } else {
        let k = choose|k: int| 0 <= k < ids.len() && ids[k] == a;
        assert(ids[k] == a);
    }
}

} // verus!
