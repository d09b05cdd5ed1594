//! The dispatcher's tables: sets of ids and maps from ids to session ids
//! (hash tables keyed by the integer id), and the sessions keyed by their id.

use vstd::prelude::*;
use vstd::string::*;
use std::collections::{HashMap, HashSet};
use crate::table::{fold_map, lemma_fold_dom, lemma_fold_index, lemma_fold_push, lemma_fold_remove, unique_keys};
use crate::text::{chars_of, same_chars};

verus! {

broadcast use {vstd::string::group_string_axioms, vstd::std_specs::hash::group_hash_axioms};

/// A set of client or agent ids.
pub struct IdSet {
    ids: HashSet<u64>,
}

impl View for IdSet {
    type V = Set<u64>;

    closed spec fn view(&self) -> Set<u64> {
        self.ids@
    }
}

impl IdSet {
    pub fn new() -> (s: IdSet)
        ensures
            s@ == Set::<u64>::empty(),
    {
        IdSet { ids: HashSet::new() }
    }

    pub fn contains(&self, id: u64) -> (r: bool)
        ensures
            r == self@.contains(id),
    {
        self.ids.contains(&id)
    }

    pub fn insert(&mut self, id: u64)
        ensures
            final(self)@ == old(self)@.insert(id),
    {
        self.ids.insert(id);
    }

    pub fn remove(&mut self, id: u64)
        ensures
            final(self)@ == old(self)@.remove(id),
    {
        self.ids.remove(&id);
    }
}

/// A map from client or agent ids to session ids.
pub struct IdMap {
    entries: HashMap<u64, String>,
}

impl View for IdMap {
    type V = Map<u64, Seq<char>>;

    closed spec fn view(&self) -> Map<u64, Seq<char>> {
        self.entries@.map_values(|s: String| s@)
    }
}

impl IdMap {
    pub fn new() -> (m: IdMap)
        ensures
            m@ == Map::<u64, Seq<char>>::empty(),
    {
        let m = IdMap { entries: HashMap::new() };
        assert(m@ =~= Map::<u64, Seq<char>>::empty());
        m
    }

    pub fn get(&self, id: u64) -> (r: Option<String>)
        ensures
            match r {
                Some(s) => self@.dom().contains(id) && self@[id] == s@,
                None => !self@.dom().contains(id),
            },
    {
        match self.entries.get(&id) {
            Some(s) => Some(s.clone()),
            None => None,
        }
    }

    pub fn insert(&mut self, id: u64, sid: String)
        ensures
            final(self)@ == old(self)@.insert(id, sid@),
    {
        let ghost v = sid@;
        self.entries.insert(id, sid);
        assert(self@ =~= old(self)@.insert(id, v));
    }

    pub fn remove(&mut self, id: u64) -> (r: Option<String>)
        ensures
            final(self)@ == old(self)@.remove(id),
            match r {
                Some(s) => old(self)@.dom().contains(id) && old(self)@[id] == s@,
                None => !old(self)@.dom().contains(id),
            },
    {
        let r = self.entries.remove(&id);
        assert(self@ =~= old(self)@.remove(id));
        r
    }
}

} // verus!

verus! {

/// Where a session's agent is in its lifecycle.
#[derive(Debug, Clone, Copy, PartialEq, Eq, Structural)]
pub enum LifecycleState {
    AgentDead,
    Active,
    TurnComplete,
    Quiescent,
    IdleTimerRunning,
}

/// A session as the store records it.
#[derive(Debug)]
pub struct SessionRecord {
    pub session_id: String,
    pub cwd: String,
    pub created_at: String,
    pub updated_at: String,
}

/// A session as the dispatcher holds it.
#[derive(Debug)]
pub struct Session {
    pub agent_id: u64,
    /// Connected clients, in connection order; agent output goes to the last.
    pub client_ids: Vec<u64>,
    /// Bumped by every event that makes a pending timer stale.
    pub generation: u64,
    pub lifecycle_state: LifecycleState,
    pub respawn_attempted: bool,
    pub record: SessionRecord,
}

/// The mathematical value of a [`Session`].
pub struct SessionView {
    pub agent_id: u64,
    pub client_ids: Seq<u64>,
    pub generation: u64,
    pub state: LifecycleState,
    pub respawn_attempted: bool,
    pub cwd: Seq<char>,
}

impl View for Session {
    type V = SessionView;

    open spec fn view(&self) -> SessionView {
        SessionView {
            agent_id: self.agent_id,
            client_ids: self.client_ids@,
            generation: self.generation,
            state: self.lifecycle_state,
            respawn_attempted: self.respawn_attempted,
            cwd: self.record.cwd@,
        }
    }
}

/// The key of a session entry.
pub open spec fn session_key() -> spec_fn(Session) -> Seq<char> {
    |s: Session| s.record.session_id@
}

/// The value of a session entry.
pub open spec fn session_val() -> spec_fn(Session) -> SessionView {
    |s: Session| s@
}

/// The sessions, keyed by session id.
pub struct SessionTable {
    sessions: Vec<Session>,
}

impl View for SessionTable {
    type V = Map<Seq<char>, SessionView>;

    closed spec fn view(&self) -> Map<Seq<char>, SessionView> {
        fold_map(self.sessions@, session_key(), session_val())
    }
}

impl SessionTable {
    /// Each session id occurs once.
    pub closed spec fn wf(&self) -> bool {
        unique_keys(self.sessions@, session_key())
    }

    pub fn new() -> (t: SessionTable)
        ensures
            t.wf(),
            t@ == Map::<Seq<char>, SessionView>::empty(),
    {
        let t = SessionTable { sessions: Vec::new() };
        assert(t@ =~= Map::<Seq<char>, SessionView>::empty());
        t
    }

    fn index_of(&self, sid: &str) -> (r: Option<usize>)
        requires
            self.wf(),
        ensures
            match r {
                Some(i) => i < self.sessions@.len() && self.sessions@[i as int].record.session_id@ == sid@,
                None => !self@.dom().contains(sid@),
            },
    {
        let k = chars_of(sid);
        let mut i: usize = 0;
        while i < self.sessions.len()
            invariant
                i <= self.sessions@.len(),
                k@ == sid@,
                forall|j: int| 0 <= j < i ==> self.sessions@[j].record.session_id@ != sid@,
            decreases self.sessions@.len() - i,
        {
            let c = chars_of(self.sessions[i].record.session_id.as_str());
            if same_chars(c.as_slice(), k.as_slice()) {
                return Some(i);
            }
            i = i + 1;
        }
        proof {
            lemma_fold_dom(self.sessions@, session_key(), session_val(), sid@);
        }
        None
    }

    pub fn contains(&self, sid: &str) -> (r: bool)
        requires
            self.wf(),
        ensures
            r == self@.dom().contains(sid@),
    {
        match self.index_of(sid) {
            Some(i) => {
                proof {
                    lemma_fold_index(self.sessions@, session_key(), session_val(), i as int);
                }
                true
            },
            None => false,
        }
    }

    /// The session `sid`, if present.
    pub fn get(&self, sid: &str) -> (r: Option<&Session>)
        requires
            self.wf(),
        ensures
            match r {
                Some(s) => self@.dom().contains(sid@) && self@[sid@] == s@ && s.record.session_id@ == sid@,
                None => !self@.dom().contains(sid@),
            },
    {
        match self.index_of(sid) {
            Some(i) => {
                proof {
                    lemma_fold_index(self.sessions@, session_key(), session_val(), i as int);
                }
                Some(&self.sessions[i])
            },
            None => None,
        }
    }

    /// Removes and returns the session `sid`, if present.
    pub fn take(&mut self, sid: &str) -> (r: Option<Session>)
        requires
            old(self).wf(),
        ensures
            final(self).wf(),
            final(self)@ == old(self)@.remove(sid@),
            match r {
                Some(s) => old(self)@.dom().contains(sid@) && old(self)@[sid@] == s@ && s.record.session_id@ == sid@,
                None => !old(self)@.dom().contains(sid@),
            },
    {
        match self.index_of(sid) {
            Some(i) => {
                proof {
                    lemma_fold_index(self.sessions@, session_key(), session_val(), i as int);
                    lemma_fold_remove(self.sessions@, session_key(), session_val(), i as int);
                }
                Some(self.sessions.remove(i))
            },
            None => {
                assert(self@ =~= old(self)@.remove(sid@));
                None
            },
        }
    }

    /// Adds a session whose id is not present.
    pub fn put(&mut self, s: Session)
        requires
            old(self).wf(),
            !old(self)@.dom().contains(s.record.session_id@),
        ensures
            final(self).wf(),
            final(self)@ == old(self)@.insert(s.record.session_id@, s@),
    {
        proof {
            lemma_fold_push(self.sessions@, session_key(), session_val(), s);
        }
        self.sessions.push(s);
    }

    /// The id and working directory of every session.
    pub fn entries(&self) -> (r: Vec<(String, String)>)
        requires
            self.wf(),
        ensures
            forall|k: Seq<char>| self@.dom().contains(k) <==> exists|i: int| 0 <= i < r@.len() && #[trigger] r@[i].0@ == k,
            forall|i: int| 0 <= i < r@.len() ==> self@.dom().contains(#[trigger] r@[i].0@) && self@[r@[i].0@].cwd == r@[i].1@,
    {
        let mut out: Vec<(String, String)> = Vec::new();
        let mut i: usize = 0;
        while i < self.sessions.len()
            invariant
                i <= self.sessions@.len(),
                self.wf(),
                out@.len() == i,
                forall|j: int| 0 <= j < i ==> #[trigger] out@[j].0@ == self.sessions@[j].record.session_id@ && out@[j].1@ == self.sessions@[j].record.cwd@,
            decreases self.sessions@.len() - i,
        {
            out.push((self.sessions[i].record.session_id.clone(), self.sessions[i].record.cwd.clone()));
            i = i + 1;
        }
        proof {
            assert forall|k: Seq<char>| self@.dom().contains(k) <==> exists|i: int| 0 <= i < out@.len() && #[trigger] out@[i].0@ == k by {
                lemma_fold_dom(self.sessions@, session_key(), session_val(), k);
                if self@.dom().contains(k) {
                    let j = choose|j: int| 0 <= j < self.sessions@.len() && session_key()(#[trigger] self.sessions@[j]) == k;
                    assert(out@[j].0@ == k);
                }
            }
            assert forall|i: int| 0 <= i < out@.len() implies self@.dom().contains(#[trigger] out@[i].0@) && self@[out@[i].0@].cwd == out@[i].1@ by {
                lemma_fold_index(self.sessions@, session_key(), session_val(), i);
            }
        }
        out
    }
}

} // verus!
