//! The dispatcher's decisions: the single owner of session state, as a state
//! machine from a state and an event to the next state and the effects to
//! perform (trace rows, lifecycle events, timers, agents to drop).
//!
//! Timers carry the generation of their session when they were started; every
//! event that makes a pending timer stale bumps the generation, and a timer
//! whose generation no longer matches is discarded.

use vstd::prelude::*;
use vstd::string::*;
use crate::tables::{IdMap, IdSet, LifecycleState, Session, SessionRecord, SessionTable, SessionView};
use crate::text::{chars_of, same_chars};

verus! {

broadcast use vstd::string::group_string_axioms;

/// An observable outcome the dispatcher emits.
#[derive(Debug)]
pub enum LifecycleEvent {
    Initialized,
    ClientConnected,
    ClientDisconnected { session_id: Option<String> },
    SessionCreated { session_id: String },
    SessionLoaded { session_id: String },
    SessionResumed { session_id: String },
    AgentQuiescent { session_id: String },
    AgentKilledIdle { session_id: String },
}

/// The mathematical value of a [`LifecycleEvent`].
pub enum EventView {
    Initialized,
    ClientConnected,
    ClientDisconnected { session_id: Option<Seq<char>> },
    SessionCreated { session_id: Seq<char> },
    SessionLoaded { session_id: Seq<char> },
    SessionResumed { session_id: Seq<char> },
    AgentQuiescent { session_id: Seq<char> },
    AgentKilledIdle { session_id: Seq<char> },
}

/// The view of an optional string.
pub open spec fn opt_view(o: Option<String>) -> Option<Seq<char>> {
    match o {
        Some(s) => Some(s@),
        None => None,
    }
}

impl View for LifecycleEvent {
    type V = EventView;

    open spec fn view(&self) -> EventView {
        match self {
            LifecycleEvent::Initialized => EventView::Initialized,
            LifecycleEvent::ClientConnected => EventView::ClientConnected,
            LifecycleEvent::ClientDisconnected { session_id } => EventView::ClientDisconnected { session_id: opt_view(*session_id) },
            LifecycleEvent::SessionCreated { session_id } => EventView::SessionCreated { session_id: session_id@ },
            LifecycleEvent::SessionLoaded { session_id } => EventView::SessionLoaded { session_id: session_id@ },
            LifecycleEvent::SessionResumed { session_id } => EventView::SessionResumed { session_id: session_id@ },
            LifecycleEvent::AgentQuiescent { session_id } => EventView::AgentQuiescent { session_id: session_id@ },
            LifecycleEvent::AgentKilledIdle { session_id } => EventView::AgentKilledIdle { session_id: session_id@ },
        }
    }
}

/// The payload of a trace event row.
#[derive(Debug)]
pub enum TracePayload {
    /// `{}`
    Empty,
    /// `{"agent_id": ID}`
    AgentId(u64),
    /// `{"session_id": ID}`
    SessionId(String),
    /// `{"from": FROM, "to": TO}`
    ModelChange { from: String, to: String },
}

/// The mathematical value of a [`TracePayload`].
pub enum PayloadView {
    Empty,
    AgentId(u64),
    SessionId(Seq<char>),
    ModelChange { from: Seq<char>, to: Seq<char> },
}

impl View for TracePayload {
    type V = PayloadView;

    open spec fn view(&self) -> PayloadView {
        match self {
            TracePayload::Empty => PayloadView::Empty,
            TracePayload::AgentId(a) => PayloadView::AgentId(*a),
            TracePayload::SessionId(s) => PayloadView::SessionId(s@),
            TracePayload::ModelChange { from, to } => PayloadView::ModelChange { from: from@, to: to@ },
        }
    }
}

/// Something the dispatcher's driver must do after a step.
#[derive(Debug)]
pub enum Effect {
    /// Record an internal event row in the trace table.
    Trace { session_id: Option<String>, role: &'static str, method: &'static str, payload: TracePayload },
    /// Emit a lifecycle event to subscribers.
    Emit(LifecycleEvent),
    /// After the quiescence timeout, deliver `agent_quiescent(session_id, generation)`.
    StartQuiescenceTimer { session_id: String, generation: u64 },
    /// After the idle timeout, deliver `idle_timeout(session_id, generation)`.
    StartIdleTimer { session_id: String, generation: u64 },
    /// Drop the agent's handle, which ends its process.
    CloseAgent { agent_id: u64 },
}

/// The mathematical value of an [`Effect`].
pub enum EffectView {
    Trace { session_id: Option<Seq<char>>, role: Seq<char>, method: Seq<char>, payload: PayloadView },
    Emit(EventView),
    StartQuiescenceTimer { session_id: Seq<char>, generation: u64 },
    StartIdleTimer { session_id: Seq<char>, generation: u64 },
    CloseAgent { agent_id: u64 },
}

impl View for Effect {
    type V = EffectView;

    open spec fn view(&self) -> EffectView {
        match self {
            Effect::Trace { session_id, role, method, payload } => EffectView::Trace {
                session_id: opt_view(*session_id),
                role: role@,
                method: method@,
                payload: payload@,
            },
            Effect::Emit(e) => EffectView::Emit(e@),
            Effect::StartQuiescenceTimer { session_id, generation } => EffectView::StartQuiescenceTimer { session_id: session_id@, generation: *generation },
            Effect::StartIdleTimer { session_id, generation } => EffectView::StartIdleTimer { session_id: session_id@, generation: *generation },
            Effect::CloseAgent { agent_id } => EffectView::CloseAgent { agent_id: *agent_id },
        }
    }
}

/// The views of a list of effects.
pub open spec fn effect_views(v: Seq<Effect>) -> Seq<EffectView> {
    v.map_values(|e: Effect| e@)
}

/// The dispatcher's state, as a mathematical value.
pub struct DispatcherView {
    /// Registered client connections.
    pub clients: Set<u64>,
    /// Agents with a live handle.
    pub agents: Set<u64>,
    pub sessions: Map<Seq<char>, SessionView>,
    pub client_to_session: Map<u64, Seq<char>>,
    pub agent_to_session: Map<u64, Seq<char>>,
    /// Whether trace rows are recorded.
    pub trace: bool,
    pub next_agent_id: u64,
}

/// The generation after a bump (counters wrap at the top of `u64`).
pub open spec fn bump(g: u64) -> u64 {
    if g == u64::MAX {
        0
    } else {
        (g + 1) as u64
    }
}

/// A trace event row, when tracing is on.
pub open spec fn traced(trace: bool, sid: Option<Seq<char>>, role: Seq<char>, method: Seq<char>, payload: PayloadView) -> Seq<EffectView> {
    if trace {
        seq![EffectView::Trace { session_id: sid, role, method, payload }]
    } else {
        Seq::empty()
    }
}

/// `ids` without `c`.
pub open spec fn without(ids: Seq<u64>, c: u64) -> Seq<u64>
    decreases ids.len(),
{
    if ids.len() == 0 {
        ids
    } else if ids.last() == c {
        without(ids.drop_last(), c)
    } else {
        without(ids.drop_last(), c).push(ids.last())
    }
}

/// `ids` with `c` appended unless already present.
pub open spec fn with_client(ids: Seq<u64>, c: u64) -> Seq<u64> {
    if ids.contains(c) {
        ids
    } else {
        ids.push(c)
    }
}

/// Every client mapped to a session is connected to that session.
pub open spec fn clients_consistent(v: DispatcherView) -> bool {
    forall|c: u64| #[trigger] v.client_to_session.dom().contains(c) ==> {
        &&& v.sessions.dom().contains(v.client_to_session[c])
        &&& v.sessions[v.client_to_session[c]].client_ids.contains(c)
    }
}

} // verus!

verus! {

/// A client connection registered.
pub open spec fn client_registered_step(s: DispatcherView, c: u64) -> (DispatcherView, Seq<EffectView>) {
    (
        DispatcherView { clients: s.clients.insert(c), ..s },
        traced(s.trace, None, "acp-client"@, "client_connected"@, PayloadView::Empty) + seq![
            EffectView::Emit(EventView::ClientConnected),
        ],
    )
}

/// A client connection ended. The client leaves its session, whose
/// generation is bumped; when that leaves a live agent with no clients, the
/// quiescence timer starts with the new generation.
pub open spec fn client_disconnected_step(s: DispatcherView, c: u64) -> (DispatcherView, Seq<EffectView>) {
    let s1 = DispatcherView { clients: s.clients.remove(c), ..s };
    if !s.client_to_session.dom().contains(c) {
        (s1, traced(s.trace, None, "acp-client"@, "client_disconnected"@, PayloadView::Empty))
    } else {
        let sid = s.client_to_session[c];
        let s2 = DispatcherView { client_to_session: s.client_to_session.remove(c), ..s1 };
        let tr = traced(s.trace, Some(sid), "acp-client"@, "client_disconnected"@, PayloadView::Empty);
        if !s.sessions.dom().contains(sid) {
            (s2, tr)
        } else {
            let old = s.sessions[sid];
            let new = SessionView { client_ids: without(old.client_ids, c), generation: bump(old.generation), ..old };
            let s3 = DispatcherView { sessions: s.sessions.insert(sid, new), ..s2 };
            if old.state == LifecycleState::AgentDead || new.client_ids.len() > 0 {
                (s3, tr)
            } else {
                (s3, tr + seq![
                    EffectView::StartQuiescenceTimer { session_id: sid, generation: new.generation },
                    EffectView::Emit(EventView::ClientDisconnected { session_id: Some(sid) }),
                ])
            }
        }
    }
}

/// An agent finished its handshake for session `sid` on behalf of client `c`.
/// The agent is registered; an existing session is taken over by it (active,
/// with `c` among its clients). The flag says whether the session is new and
/// must be added to the store before [`session_created_step`].
pub open spec fn agent_ready_step(s: DispatcherView, a: u64, sid: Seq<char>, c: u64) -> (DispatcherView, Seq<EffectView>, bool) {
    let s1 = DispatcherView { agents: s.agents.insert(a), agent_to_session: s.agent_to_session.insert(a, sid), ..s };
    let eff = traced(s.trace, Some(sid), "agent"@, "agent_spawned"@, PayloadView::AgentId(a));
    if s.sessions.dom().contains(sid) {
        let old = s.sessions[sid];
        let new = SessionView {
            agent_id: a,
            state: LifecycleState::Active,
            respawn_attempted: false,
            client_ids: with_client(old.client_ids, c),
            ..old
        };
        (DispatcherView { sessions: s.sessions.insert(sid, new), client_to_session: s.client_to_session.insert(c, sid), ..s1 }, eff, false)
    } else {
        (s1, eff, true)
    }
}

/// A new session, now in the store, is created for agent `a` and client `c`.
pub open spec fn session_created_step(s: DispatcherView, a: u64, sid: Seq<char>, c: u64, cwd: Seq<char>) -> DispatcherView {
    let new = SessionView {
        agent_id: a,
        client_ids: seq![c],
        generation: 0,
        state: LifecycleState::Active,
        respawn_attempted: false,
        cwd,
    };
    DispatcherView { sessions: s.sessions.insert(sid, new), client_to_session: s.client_to_session.insert(c, sid), ..s }
}

/// How a session request was answered.
#[derive(Debug, Clone, Copy, PartialEq, Eq, Structural)]
pub enum RequestKind {
    New,
    Load,
    Resume,
}

/// The effects once a session request has been answered successfully.
pub open spec fn outcome_effects(trace: bool, kind: RequestKind, is_new: bool, sid: Seq<char>) -> Seq<EffectView> {
    match kind {
        RequestKind::New => if is_new {
            traced(trace, Some(sid), "daemon"@, "session_created"@, PayloadView::SessionId(sid)) + seq![
                EffectView::Emit(EventView::SessionCreated { session_id: sid }),
            ]
        } else {
            Seq::empty()
        },
        RequestKind::Load => traced(trace, Some(sid), "daemon"@, "session_loaded"@, PayloadView::SessionId(sid)) + seq![
            EffectView::Emit(EventView::SessionLoaded { session_id: sid }),
        ],
        RequestKind::Resume => traced(trace, Some(sid), "daemon"@, "session_resumed"@, PayloadView::SessionId(sid)) + seq![
            EffectView::Emit(EventView::SessionResumed { session_id: sid }),
        ],
    }
}

/// An agent's connection ended. A live session it served becomes dead.
pub open spec fn agent_disconnected_step(s: DispatcherView, a: u64) -> (DispatcherView, Seq<EffectView>) {
    let s1 = DispatcherView { agents: s.agents.remove(a), ..s };
    if !s.agent_to_session.dom().contains(a) {
        (s1, Seq::empty())
    } else {
        let sid = s.agent_to_session[a];
        let s2 = DispatcherView { agent_to_session: s.agent_to_session.remove(a), ..s1 };
        if !s.sessions.dom().contains(sid) || s.sessions[sid].state == LifecycleState::AgentDead {
            (s2, Seq::empty())
        } else {
            let new = SessionView { state: LifecycleState::AgentDead, ..s.sessions[sid] };
            (
                DispatcherView { sessions: s.sessions.insert(sid, new), ..s2 },
                traced(s.trace, Some(sid), "agent"@, "agent_crashed"@, PayloadView::AgentId(a)),
            )
        }
    }
}

/// Where a client's message goes: the agent of the client's session, when
/// that agent has a live handle.
pub open spec fn route_spec(s: DispatcherView, c: u64) -> Option<(u64, Seq<char>)> {
    if !s.client_to_session.dom().contains(c) {
        None
    } else {
        let sid = s.client_to_session[c];
        if !s.sessions.dom().contains(sid) || !s.agents.contains(s.sessions[sid].agent_id) {
            None
        } else {
            Some((s.sessions[sid].agent_id, sid))
        }
    }
}

/// Where a message from an agent goes.
#[derive(Debug)]
pub enum AgentRoute {
    /// The agent serves no session.
    UnknownAgent,
    /// The agent's session is gone.
    NoSession { session_id: String },
    /// The message belongs to the session; it is forwarded to `client` (the
    /// most recently connected client, when it is registered).
    Routed { session_id: String, client: Option<u64> },
}

/// The mathematical value of an [`AgentRoute`].
pub enum AgentRouteView {
    UnknownAgent,
    NoSession { session_id: Seq<char> },
    Routed { session_id: Seq<char>, client: Option<u64> },
}

impl View for AgentRoute {
    type V = AgentRouteView;

    open spec fn view(&self) -> AgentRouteView {
        match self {
            AgentRoute::UnknownAgent => AgentRouteView::UnknownAgent,
            AgentRoute::NoSession { session_id } => AgentRouteView::NoSession { session_id: session_id@ },
            AgentRoute::Routed { session_id, client } => AgentRouteView::Routed { session_id: session_id@, client: *client },
        }
    }
}

/// A message from agent `a`: its session's generation is bumped, and the
/// message goes to the session's last client if that client is registered.
pub open spec fn from_agent_step(s: DispatcherView, a: u64) -> (DispatcherView, AgentRouteView) {
    if !s.agent_to_session.dom().contains(a) {
        (s, AgentRouteView::UnknownAgent)
    } else {
        let sid = s.agent_to_session[a];
        if !s.sessions.dom().contains(sid) {
            (s, AgentRouteView::NoSession { session_id: sid })
        } else {
            let old = s.sessions[sid];
            let new = SessionView { generation: bump(old.generation), ..old };
            let client = if old.client_ids.len() > 0 && s.clients.contains(old.client_ids.last()) {
                Some(old.client_ids.last())
            } else {
                None
            };
            (DispatcherView { sessions: s.sessions.insert(sid, new), ..s }, AgentRouteView::Routed { session_id: sid, client })
        }
    }
}

/// What a `session/load` or `session/resume` request leads to.
#[derive(Debug)]
pub enum Reconnect {
    /// No such session.
    NotFound,
    /// The agent is dead: spawn agent `agent_id` in `cwd` and resume it.
    Respawn { agent_id: u64, cwd: String },
    /// The agent is live: attach the client (after replaying, for a load).
    Live,
}

/// The mathematical value of a [`Reconnect`].
pub enum ReconnectView {
    NotFound,
    Respawn { agent_id: u64, cwd: Seq<char> },
    Live,
}

impl View for Reconnect {
    type V = ReconnectView;

    open spec fn view(&self) -> ReconnectView {
        match self {
            Reconnect::NotFound => ReconnectView::NotFound,
            Reconnect::Respawn { agent_id, cwd } => ReconnectView::Respawn { agent_id: *agent_id, cwd: cwd@ },
            Reconnect::Live => ReconnectView::Live,
        }
    }
}

/// A load or resume of session `sid`: unknown sessions are refused, a dead
/// agent is respawned under a fresh agent id, a live one is attached to.
pub open spec fn reconnect_step(s: DispatcherView, sid: Seq<char>) -> (DispatcherView, ReconnectView) {
    if !s.sessions.dom().contains(sid) {
        (s, ReconnectView::NotFound)
    } else if s.sessions[sid].state == LifecycleState::AgentDead {
        (
            DispatcherView { next_agent_id: bump(s.next_agent_id), ..s },
            ReconnectView::Respawn { agent_id: s.next_agent_id, cwd: s.sessions[sid].cwd },
        )
    } else {
        (s, ReconnectView::Live)
    }
}

/// Client `c` is attached to the live session `sid`; its generation is bumped.
pub open spec fn attach_step(s: DispatcherView, c: u64, sid: Seq<char>) -> DispatcherView {
    let old = s.sessions[sid];
    let new = SessionView { client_ids: with_client(old.client_ids, c), generation: bump(old.generation), ..old };
    DispatcherView { sessions: s.sessions.insert(sid, new), client_to_session: s.client_to_session.insert(c, sid), ..s }
}

/// The quiescence timer of `sid` started at generation `g` fired. If nothing
/// happened since (same generation), the agent is quiescent and the idle
/// timer starts; otherwise the timer is stale and ignored.
pub open spec fn agent_quiescent_step(s: DispatcherView, sid: Seq<char>, g: u64) -> (DispatcherView, Seq<EffectView>) {
    if !s.sessions.dom().contains(sid) || s.sessions[sid].generation != g {
        (s, Seq::empty())
    } else {
        let new = SessionView { state: LifecycleState::Quiescent, ..s.sessions[sid] };
        (
            DispatcherView { sessions: s.sessions.insert(sid, new), ..s },
            traced(s.trace, Some(sid), "agent"@, "agent_quiescent"@, PayloadView::Empty) + seq![
                EffectView::Emit(EventView::AgentQuiescent { session_id: sid }),
                EffectView::StartIdleTimer { session_id: sid, generation: g },
            ],
        )
    }
}

/// The idle timer of `sid` started at generation `g` fired. If nothing
/// happened since, the agent is dropped and the session is dead; otherwise
/// the timer is stale and ignored.
pub open spec fn idle_timeout_step(s: DispatcherView, sid: Seq<char>, g: u64) -> (DispatcherView, Seq<EffectView>) {
    if !s.sessions.dom().contains(sid) || s.sessions[sid].generation != g {
        (s, Seq::empty())
    } else {
        let a = s.sessions[sid].agent_id;
        let new = SessionView { state: LifecycleState::AgentDead, ..s.sessions[sid] };
        (
            DispatcherView {
                agents: s.agents.remove(a),
                agent_to_session: s.agent_to_session.remove(a),
                sessions: s.sessions.insert(sid, new),
                ..s
            },
            seq![EffectView::CloseAgent { agent_id: a }] + traced(s.trace, Some(sid), "agent"@, "agent_killed_idle"@, PayloadView::Empty)
                + seq![EffectView::Emit(EventView::AgentKilledIdle { session_id: sid })],
        )
    }
}

/// `m` without the keys `ks`.
pub open spec fn remove_keys(m: Map<u64, Seq<char>>, ks: Seq<u64>) -> Map<u64, Seq<char>>
    decreases ks.len(),
{
    if ks.len() == 0 {
        m
    } else {
        remove_keys(m, ks.drop_last()).remove(ks.last())
    }
}

/// Session `sid` is removed (its working directory is gone): with it go its
/// agent and the mappings of its clients.
pub open spec fn remove_session_step(s: DispatcherView, sid: Seq<char>) -> (DispatcherView, Seq<EffectView>) {
    if !s.sessions.dom().contains(sid) {
        (s, Seq::empty())
    } else {
        let old = s.sessions[sid];
        (
            DispatcherView {
                sessions: s.sessions.remove(sid),
                agents: s.agents.remove(old.agent_id),
                agent_to_session: s.agent_to_session.remove(old.agent_id),
                client_to_session: remove_keys(s.client_to_session, old.client_ids),
                ..s
            },
            seq![EffectView::CloseAgent { agent_id: old.agent_id }],
        )
    }
}

/// The sessions `sids` are removed, in order.
pub open spec fn remove_sessions_step(s: DispatcherView, sids: Seq<Seq<char>>) -> (DispatcherView, Seq<EffectView>)
    decreases sids.len(),
{
    if sids.len() == 0 {
        (s, Seq::empty())
    } else {
        let (s1, e1) = remove_sessions_step(s, sids.drop_last());
        let (s2, e2) = remove_session_step(s1, sids.last());
        (s2, e1 + e2)
    }
}

/// A stored session is known again after a restart, with a dead agent.
pub open spec fn restore_step(s: DispatcherView, sid: Seq<char>, cwd: Seq<char>) -> DispatcherView {
    if s.sessions.dom().contains(sid) {
        s
    } else {
        DispatcherView {
            sessions: s.sessions.insert(sid, SessionView {
                agent_id: 0,
                client_ids: Seq::empty(),
                generation: 0,
                state: LifecycleState::AgentDead,
                respawn_attempted: false,
                cwd,
            }),
            ..s
        }
    }
}

} // verus!

verus! {

/// `ids` without `c` holds exactly the other ids of `ids`.
pub proof fn lemma_without_contains(ids: Seq<u64>, c: u64, x: u64)
    ensures
        without(ids, c).contains(x) <==> (ids.contains(x) && x != c),
    decreases ids.len(),
{
    if ids.len() > 0 {
        lemma_without_contains(ids.drop_last(), c, x);
        if ids.contains(x) && x != c {
            let i = choose|i: int| 0 <= i < ids.len() && ids[i] == x;
            if i < ids.len() - 1 {
                assert(ids.drop_last()[i] == x);
            }
        }
        if ids.drop_last().contains(x) {
            let i = choose|i: int| 0 <= i < ids.drop_last().len() && ids.drop_last()[i] == x;
            assert(ids[i] == x);
        }
        if ids.last() != c {
            let w = without(ids.drop_last(), c);
            assert(w.push(ids.last())[w.len() as int] == ids.last());
            if w.contains(x) {
                let i = choose|i: int| 0 <= i < w.len() && w[i] == x;
                assert(w.push(ids.last())[i] == x);
            }
            if w.push(ids.last()).contains(x) && x != ids.last() {
                let i = choose|i: int| 0 <= i < w.len() + 1 && w.push(ids.last())[i] == x;
                assert(w[i] == x);
            }
        }
    }
}

fn bump_exec(g: u64) -> (r: u64)
    ensures
        r == bump(g),
{
    if g == u64::MAX {
        0
    } else {
        g + 1
    }
}

fn without_exec(ids: &Vec<u64>, c: u64) -> (r: Vec<u64>)
    ensures
        r@ == without(ids@, c),
{
    let mut out: Vec<u64> = Vec::new();
    let mut i: usize = 0;
    while i < ids.len()
        invariant
            i <= ids@.len(),
            out@ == without(ids@.take(i as int), c),
        decreases ids@.len() - i,
    {
        assert(ids@.take((i + 1) as int).drop_last() == ids@.take(i as int));
        if ids[i] != c {
            out.push(ids[i]);
        }
        i = i + 1;
    }
    assert(ids@.take(ids@.len() as int) == ids@);
    out
}

fn contains_id(ids: &Vec<u64>, c: u64) -> (r: bool)
    ensures
        r == ids@.contains(c),
{
    let mut i: usize = 0;
    while i < ids.len()
        invariant
            i <= ids@.len(),
            forall|j: int| 0 <= j < i ==> ids@[j] != c,
        decreases ids@.len() - i,
    {
        if ids[i] == c {
            return true;
        }
        i = i + 1;
    }
    false
}

fn push_effect(out: &mut Vec<Effect>, e: Effect)
    ensures
        effect_views(final(out)@) == effect_views(old(out)@).push(e@),
{
    let ghost ev = e@;
    out.push(e);
    assert(effect_views(out@) =~= effect_views(old(out)@).push(ev));
}

fn push_trace(out: &mut Vec<Effect>, trace: bool, session_id: Option<String>, role: &'static str, method: &'static str, payload: TracePayload)
    ensures
        effect_views(final(out)@) == effect_views(old(out)@) + traced(trace, opt_view(session_id), role@, method@, payload@),
{
    if trace {
        push_effect(out, Effect::Trace { session_id, role, method, payload });
        assert(effect_views(out@) =~= effect_views(old(out)@) + traced(trace, opt_view(session_id), role@, method@, payload@));
    } else {
        assert(effect_views(out@) =~= effect_views(old(out)@) + traced(trace, opt_view(session_id), role@, method@, payload@));
    }
}

/// The dispatcher's session state.
pub struct DispatcherState {
    clients: IdSet,
    agents: IdSet,
    sessions: SessionTable,
    client_to_session: IdMap,
    agent_to_session: IdMap,
    trace: bool,
    next_agent_id: u64,
}

impl View for DispatcherState {
    type V = DispatcherView;

    closed spec fn view(&self) -> DispatcherView {
        DispatcherView {
            clients: self.clients@,
            agents: self.agents@,
            sessions: self.sessions@,
            client_to_session: self.client_to_session@,
            agent_to_session: self.agent_to_session@,
            trace: self.trace,
            next_agent_id: self.next_agent_id,
        }
    }
}

impl DispatcherState {
    /// The tables are well formed and every client mapped to a session is
    /// connected to that session.
    pub closed spec fn wf(&self) -> bool {
        &&& self.sessions.wf()
        &&& clients_consistent(self@)
    }

    /// An empty dispatcher; trace rows are recorded when `trace` holds.
    /// Agent ids are handed out from 1.
    pub fn new(trace: bool) -> (d: DispatcherState)
        ensures
            d.wf(),
            d@.clients.is_empty(),
            d@.agents.is_empty(),
            d@.sessions.is_empty(),
            d@.client_to_session.is_empty(),
            d@.agent_to_session.is_empty(),
            d@.trace == trace,
            d@.next_agent_id == 1,
    {
        DispatcherState {
            clients: IdSet::new(),
            agents: IdSet::new(),
            sessions: SessionTable::new(),
            client_to_session: IdMap::new(),
            agent_to_session: IdMap::new(),
            trace,
            next_agent_id: 1,
        }
    }

    /// A client connection registered.
    pub fn client_registered(&mut self, client_id: u64) -> (effects: Vec<Effect>)
        requires
            old(self).wf(),
        ensures
            final(self).wf(),
            (final(self)@, effect_views(effects@)) == client_registered_step(old(self)@, client_id),
            !old(self)@.trace ==> records_no_trace(effect_views(effects@)),
    {
        proof {
            if !self@.trace {
                lemma_no_trace_when_tracing_off(self@, DispatcherEvent::ClientRegistered { client: client_id });
            }
        }
        self.clients.insert(client_id);
        let mut out: Vec<Effect> = Vec::new();
        push_trace(&mut out, self.trace, None, "acp-client", "client_connected", TracePayload::Empty);
        push_effect(&mut out, Effect::Emit(LifecycleEvent::ClientConnected));
        assert(effect_views(out@) =~= client_registered_step(old(self)@, client_id).1);
        out
    }

    /// A client connection ended.
    pub fn client_disconnected(&mut self, client_id: u64) -> (effects: Vec<Effect>)
        requires
            old(self).wf(),
        ensures
            final(self).wf(),
            (final(self)@, effect_views(effects@)) == client_disconnected_step(old(self)@, client_id),
            !old(self)@.trace ==> records_no_trace(effect_views(effects@)),
    {
        proof {
            if !self@.trace {
                lemma_no_trace_when_tracing_off(self@, DispatcherEvent::ClientDisconnected { client: client_id });
            }
        }
        let ghost s = self@;
        let mut out: Vec<Effect> = Vec::new();
        self.clients.remove(client_id);
        match self.client_to_session.remove(client_id) {
            None => {
                push_trace(&mut out, self.trace, None, "acp-client", "client_disconnected", TracePayload::Empty);
                assert(self@.client_to_session =~= s.client_to_session);
                assert(self@ == client_disconnected_step(s, client_id).0);
                out
            },
            Some(sid) => {
                push_trace(&mut out, self.trace, Some(sid.clone()), "acp-client", "client_disconnected", TracePayload::Empty);
                match self.sessions.take(sid.as_str()) {
                    None => {
                        assert(self@.sessions =~= s.sessions);
                        assert(self@ == client_disconnected_step(s, client_id).0);
                        out
                    },
                    Some(mut sess) => {
                        let ghost old_view = sess@;
                        sess.client_ids = without_exec(&sess.client_ids, client_id);
                        sess.generation = bump_exec(sess.generation);
                        let dead = sess.lifecycle_state == LifecycleState::AgentDead;
                        let none_left = sess.client_ids.len() == 0;
                        let generation = sess.generation;
                        self.sessions.put(sess);
                        proof {
                            assert(self@.sessions =~= s.sessions.insert(sid@, SessionView {
                                client_ids: without(old_view.client_ids, client_id),
                                generation: bump(old_view.generation),
                                ..old_view
                            }));
                            assert(self@ == client_disconnected_step(s, client_id).0);
                            assert forall|c: u64| #[trigger] self@.client_to_session.dom().contains(c) implies {
                                &&& self@.sessions.dom().contains(self@.client_to_session[c])
                                &&& self@.sessions[self@.client_to_session[c]].client_ids.contains(c)
                            } by {
                                assert(s.client_to_session.dom().contains(c));
                                if s.client_to_session[c] == sid@ {
                                    lemma_without_contains(old_view.client_ids, client_id, c);
                                }
                            }
                        }
                        if !dead && none_left {
                            push_effect(&mut out, Effect::StartQuiescenceTimer { session_id: sid.clone(), generation });
                            push_effect(&mut out, Effect::Emit(LifecycleEvent::ClientDisconnected { session_id: Some(sid) }));
                        }
                        assert(effect_views(out@) =~= client_disconnected_step(s, client_id).1);
                        out
                    },
                }
            },
        }
    }
}

} // verus!

verus! {

impl DispatcherState {
    /// An agent finished its handshake for `session_id` on behalf of
    /// `client_id`. Returns whether the session is new: then the driver adds
    /// it to the store and, on success, calls [`Self::session_created`].
    pub fn agent_ready(&mut self, agent_id: u64, session_id: &str, client_id: u64) -> (r: (Vec<Effect>, bool))
        requires
            old(self).wf(),
        ensures
            final(self).wf(),
            (final(self)@, effect_views(r.0@), r.1) == agent_ready_step(old(self)@, agent_id, session_id@, client_id),
            !old(self)@.trace ==> records_no_trace(effect_views(r.0@)),
    {
        proof {
            if !self@.trace {
                lemma_no_trace_when_tracing_off(self@, DispatcherEvent::AgentReady { agent: agent_id, session_id: session_id@, client: client_id });
            }
        }
        let ghost s = self@;
        self.agents.insert(agent_id);
        self.agent_to_session.insert(agent_id, String::from_str(session_id));
        let mut out: Vec<Effect> = Vec::new();
        push_trace(&mut out, self.trace, Some(String::from_str(session_id)), "agent", "agent_spawned", TracePayload::AgentId(agent_id));
        match self.sessions.take(session_id) {
            Some(mut sess) => {
                let ghost old_view = sess@;
                sess.agent_id = agent_id;
                sess.lifecycle_state = LifecycleState::Active;
                sess.respawn_attempted = false;
                if !contains_id(&sess.client_ids, client_id) {
                    sess.client_ids.push(client_id);
                }
                assert(sess.client_ids@ == with_client(old_view.client_ids, client_id));
                self.sessions.put(sess);
                self.client_to_session.insert(client_id, String::from_str(session_id));
                proof {
                    let new = SessionView {
                        agent_id: agent_id,
                        state: LifecycleState::Active,
                        respawn_attempted: false,
                        client_ids: with_client(old_view.client_ids, client_id),
                        ..old_view
                    };
                    assert(self@.sessions =~= s.sessions.insert(session_id@, new));
                    assert(self@ == agent_ready_step(s, agent_id, session_id@, client_id).0);
                    assert forall|c: u64| #[trigger] self@.client_to_session.dom().contains(c) implies {
                        &&& self@.sessions.dom().contains(self@.client_to_session[c])
                        &&& self@.sessions[self@.client_to_session[c]].client_ids.contains(c)
                    } by {
                        if c == client_id {
                            if !old_view.client_ids.contains(client_id) {
                                assert(new.client_ids[old_view.client_ids.len() as int] == client_id);
                            }
                        } else {
                            assert(s.client_to_session.dom().contains(c));
                            if s.client_to_session[c] == session_id@ {
                                let i = choose|i: int| 0 <= i < old_view.client_ids.len() && old_view.client_ids[i] == c;
                                assert(new.client_ids[i] == c);
                            }
                        }
                    }
                }
                (out, false)
            },
            None => {
                assert(self@.sessions =~= s.sessions);
                (out, true)
            },
        }
    }

    /// A new session, now in the store, is created for `agent_id` and
    /// `client_id` from its record.
    pub fn session_created(&mut self, agent_id: u64, client_id: u64, record: SessionRecord)
        requires
            old(self).wf(),
            !old(self)@.sessions.dom().contains(record.session_id@),
        ensures
            final(self).wf(),
            final(self)@ == session_created_step(old(self)@, agent_id, record.session_id@, client_id, record.cwd@),
    {
        let ghost s = self@;
        let sid = record.session_id.clone();
        let mut clients: Vec<u64> = Vec::new();
        clients.push(client_id);
        let sess = Session {
            agent_id,
            client_ids: clients,
            generation: 0,
            lifecycle_state: LifecycleState::Active,
            respawn_attempted: false,
            record,
        };
        self.sessions.put(sess);
        self.client_to_session.insert(client_id, sid);
        proof {
            let new = session_created_step(s, agent_id, sid@, client_id, self@.sessions[sid@].cwd);
            assert(self@.sessions[sid@].client_ids[0] == client_id);
            assert forall|c: u64| #[trigger] self@.client_to_session.dom().contains(c) implies {
                &&& self@.sessions.dom().contains(self@.client_to_session[c])
                &&& self@.sessions[self@.client_to_session[c]].client_ids.contains(c)
            } by {
                if c != client_id {
                    assert(s.client_to_session.dom().contains(c));
                    assert(s.client_to_session[c] != sid@);
                }
            }
        }
    }

    /// The effects once a session request of `kind` for `session_id` has
    /// been answered successfully (`is_new`: the session was just created).
    pub fn request_outcome(&self, kind: RequestKind, is_new: bool, session_id: &str) -> (effects: Vec<Effect>)
        ensures
            effect_views(effects@) == outcome_effects(self@.trace, kind, is_new, session_id@),
            !self@.trace ==> records_no_trace(effect_views(effects@)),
    {
        proof {
            if !self@.trace {
                lemma_no_trace_when_tracing_off(self@, DispatcherEvent::ClientRegistered { client: 0 });
            }
        }
        let mut out: Vec<Effect> = Vec::new();
        match kind {
            RequestKind::New => {
                if is_new {
                    push_trace(&mut out, self.trace, Some(String::from_str(session_id)), "daemon", "session_created", TracePayload::SessionId(String::from_str(session_id)));
                    push_effect(&mut out, Effect::Emit(LifecycleEvent::SessionCreated { session_id: String::from_str(session_id) }));
                }
            },
            RequestKind::Load => {
                push_trace(&mut out, self.trace, Some(String::from_str(session_id)), "daemon", "session_loaded", TracePayload::SessionId(String::from_str(session_id)));
                push_effect(&mut out, Effect::Emit(LifecycleEvent::SessionLoaded { session_id: String::from_str(session_id) }));
            },
            RequestKind::Resume => {
                push_trace(&mut out, self.trace, Some(String::from_str(session_id)), "daemon", "session_resumed", TracePayload::SessionId(String::from_str(session_id)));
                push_effect(&mut out, Effect::Emit(LifecycleEvent::SessionResumed { session_id: String::from_str(session_id) }));
            },
        }
        assert(effect_views(out@) =~= outcome_effects(self@.trace, kind, is_new, session_id@));
        out
    }

    /// An agent's connection ended.
    pub fn agent_disconnected(&mut self, agent_id: u64) -> (effects: Vec<Effect>)
        requires
            old(self).wf(),
        ensures
            final(self).wf(),
            (final(self)@, effect_views(effects@)) == agent_disconnected_step(old(self)@, agent_id),
            !old(self)@.trace ==> records_no_trace(effect_views(effects@)),
    {
        proof {
            if !self@.trace {
                lemma_no_trace_when_tracing_off(self@, DispatcherEvent::AgentDisconnected { agent: agent_id });
            }
        }
        let ghost s = self@;
        let mut out: Vec<Effect> = Vec::new();
        self.agents.remove(agent_id);
        match self.agent_to_session.remove(agent_id) {
            None => {
                assert(self@.agent_to_session =~= s.agent_to_session);
                assert(effect_views(out@) =~= Seq::<EffectView>::empty());
                out
            },
            Some(sid) => match self.sessions.take(sid.as_str()) {
                None => {
                    assert(self@.sessions =~= s.sessions);
                    assert(effect_views(out@) =~= Seq::<EffectView>::empty());
                    out
                },
                Some(mut sess) => {
                    let ghost old_view = sess@;
                    if sess.lifecycle_state == LifecycleState::AgentDead {
                        self.sessions.put(sess);
                        assert(self@.sessions =~= s.sessions);
                        assert(effect_views(out@) =~= Seq::<EffectView>::empty());
                        out
                    } else {
                        sess.lifecycle_state = LifecycleState::AgentDead;
                        self.sessions.put(sess);
                        assert(self@.sessions =~= s.sessions.insert(sid@, SessionView { state: LifecycleState::AgentDead, ..old_view }));
                        push_trace(&mut out, self.trace, Some(sid), "agent", "agent_crashed", TracePayload::AgentId(agent_id));
                        assert(effect_views(out@) =~= agent_disconnected_step(s, agent_id).1);
                        out
                    }
                },
            },
        }
    }

    /// The session a client is attached to, if any.
    pub fn session_of_client(&self, client_id: u64) -> (r: Option<String>)
        requires
            self.wf(),
        ensures
            match r {
                Some(sid) => self@.client_to_session.dom().contains(client_id) && self@.client_to_session[client_id] == sid@,
                None => !self@.client_to_session.dom().contains(client_id),
            },
    {
        self.client_to_session.get(client_id)
    }

    /// The agent (and session) that a message from `client_id` goes to.
    pub fn route_to_agent(&self, client_id: u64) -> (r: Option<(u64, String)>)
        requires
            self.wf(),
        ensures
            match r {
                Some((a, sid)) => route_spec(self@, client_id) == Some((a, sid@)),
                None => route_spec(self@, client_id) is None,
            },
    {
        let sid = match self.client_to_session.get(client_id) {
            Some(sid) => sid,
            None => return None,
        };
        let agent_id = match self.sessions.get(sid.as_str()) {
            Some(sess) => sess.agent_id,
            None => return None,
        };
        if !self.agents.contains(agent_id) {
            return None;
        }
        Some((agent_id, sid))
    }
}

} // verus!

verus! {

impl DispatcherState {
    /// A message from `agent_id` arrived.
    pub fn from_agent(&mut self, agent_id: u64) -> (r: AgentRoute)
        requires
            old(self).wf(),
        ensures
            final(self).wf(),
            (final(self)@, r@) == from_agent_step(old(self)@, agent_id),
    {
        let ghost s = self@;
        let sid = match self.agent_to_session.get(agent_id) {
            Some(sid) => sid,
            None => return AgentRoute::UnknownAgent,
        };
        match self.sessions.take(sid.as_str()) {
            None => {
                assert(self@.sessions =~= s.sessions);
                AgentRoute::NoSession { session_id: sid }
            },
            Some(mut sess) => {
                let ghost old_view = sess@;
                sess.generation = bump_exec(sess.generation);
                let n = sess.client_ids.len();
                let client = if n > 0 && self.clients.contains(sess.client_ids[n - 1]) {
                    Some(sess.client_ids[n - 1])
                } else {
                    None
                };
                self.sessions.put(sess);
                proof {
                    assert(self@.sessions =~= s.sessions.insert(sid@, SessionView { generation: bump(old_view.generation), ..old_view }));
                    assert forall|c: u64| #[trigger] self@.client_to_session.dom().contains(c) implies {
                        &&& self@.sessions.dom().contains(self@.client_to_session[c])
                        &&& self@.sessions[self@.client_to_session[c]].client_ids.contains(c)
                    } by {
                        assert(s.client_to_session.dom().contains(c));
                    }
                }
                AgentRoute::Routed { session_id: sid, client }
            },
        }
    }

    /// A `session/load` or `session/resume` for `session_id` arrived.
    pub fn reconnect(&mut self, session_id: &str) -> (r: Reconnect)
        requires
            old(self).wf(),
        ensures
            final(self).wf(),
            (final(self)@, r@) == reconnect_step(old(self)@, session_id@),
    {
        let (dead, cwd) = match self.sessions.get(session_id) {
            None => return Reconnect::NotFound,
            Some(sess) => (sess.lifecycle_state == LifecycleState::AgentDead, sess.record.cwd.clone()),
        };
        if dead {
            let agent_id = self.generate_agent_id();
            Reconnect::Respawn { agent_id, cwd }
        } else {
            Reconnect::Live
        }
    }

    /// A fresh agent id.
    pub fn generate_agent_id(&mut self) -> (id: u64)
        requires
            old(self).wf(),
        ensures
            final(self).wf(),
            id == old(self)@.next_agent_id,
            final(self)@ == (DispatcherView { next_agent_id: bump(old(self)@.next_agent_id), ..old(self)@ }),
    {
        let id = self.next_agent_id;
        self.next_agent_id = bump_exec(id);
        id
    }

    /// `client_id` is attached to the live session `session_id`.
    pub fn attach(&mut self, client_id: u64, session_id: &str)
        requires
            old(self).wf(),
            old(self)@.sessions.dom().contains(session_id@),
        ensures
            final(self).wf(),
            final(self)@ == attach_step(old(self)@, client_id, session_id@),
    {
        let ghost s = self@;
        match self.sessions.take(session_id) {
            None => {},
            Some(mut sess) => {
                let ghost old_view = sess@;
                if !contains_id(&sess.client_ids, client_id) {
                    sess.client_ids.push(client_id);
                }
                sess.generation = bump_exec(sess.generation);
                assert(sess.client_ids@ == with_client(old_view.client_ids, client_id));
                self.sessions.put(sess);
                self.client_to_session.insert(client_id, String::from_str(session_id));
                proof {
                    let new = SessionView {
                        client_ids: with_client(old_view.client_ids, client_id),
                        generation: bump(old_view.generation),
                        ..old_view
                    };
                    assert(self@.sessions =~= s.sessions.insert(session_id@, new));
                    assert forall|c: u64| #[trigger] self@.client_to_session.dom().contains(c) implies {
                        &&& self@.sessions.dom().contains(self@.client_to_session[c])
                        &&& self@.sessions[self@.client_to_session[c]].client_ids.contains(c)
                    } by {
                        if c == client_id {
                            if !old_view.client_ids.contains(client_id) {
                                assert(new.client_ids[old_view.client_ids.len() as int] == client_id);
                            }
                        } else {
                            assert(s.client_to_session.dom().contains(c));
                            if s.client_to_session[c] == session_id@ {
                                let i = choose|i: int| 0 <= i < old_view.client_ids.len() && old_view.client_ids[i] == c;
                                assert(new.client_ids[i] == c);
                            }
                        }
                    }
                }
            },
        }
    }

    /// The quiescence timer of `session_id`, started at `generation`, fired.
    pub fn agent_quiescent(&mut self, session_id: &str, generation: u64) -> (effects: Vec<Effect>)
        requires
            old(self).wf(),
        ensures
            final(self).wf(),
            (final(self)@, effect_views(effects@)) == agent_quiescent_step(old(self)@, session_id@, generation),
            !old(self)@.trace ==> records_no_trace(effect_views(effects@)),
    {
        proof {
            if !self@.trace {
                lemma_no_trace_when_tracing_off(self@, DispatcherEvent::AgentQuiescent { session_id: session_id@, generation });
            }
        }
        let ghost s = self@;
        let mut out: Vec<Effect> = Vec::new();
        let current = match self.sessions.get(session_id) {
            None => {
                assert(effect_views(out@) =~= Seq::<EffectView>::empty());
                return out;
            },
            Some(sess) => sess.generation,
        };
        if current != generation {
            assert(effect_views(out@) =~= Seq::<EffectView>::empty());
            return out;
        }
        match self.sessions.take(session_id) {
            None => {},
            Some(mut sess) => {
                let ghost old_view = sess@;
                sess.lifecycle_state = LifecycleState::Quiescent;
                self.sessions.put(sess);
                proof {
                    assert(self@.sessions =~= s.sessions.insert(session_id@, SessionView { state: LifecycleState::Quiescent, ..old_view }));
                    assert forall|c: u64| #[trigger] self@.client_to_session.dom().contains(c) implies {
                        &&& self@.sessions.dom().contains(self@.client_to_session[c])
                        &&& self@.sessions[self@.client_to_session[c]].client_ids.contains(c)
                    } by {
                        assert(s.client_to_session.dom().contains(c));
                    }
                }
            },
        }
        push_trace(&mut out, self.trace, Some(String::from_str(session_id)), "agent", "agent_quiescent", TracePayload::Empty);
        push_effect(&mut out, Effect::Emit(LifecycleEvent::AgentQuiescent { session_id: String::from_str(session_id) }));
        push_effect(&mut out, Effect::StartIdleTimer { session_id: String::from_str(session_id), generation });
        assert(effect_views(out@) =~= agent_quiescent_step(s, session_id@, generation).1);
        out
    }

    /// The idle timer of `session_id`, started at `generation`, fired.
    pub fn idle_timeout(&mut self, session_id: &str, generation: u64) -> (effects: Vec<Effect>)
        requires
            old(self).wf(),
        ensures
            final(self).wf(),
            (final(self)@, effect_views(effects@)) == idle_timeout_step(old(self)@, session_id@, generation),
            !old(self)@.trace ==> records_no_trace(effect_views(effects@)),
    {
        proof {
            if !self@.trace {
                lemma_no_trace_when_tracing_off(self@, DispatcherEvent::IdleTimeout { session_id: session_id@, generation });
            }
        }
        let ghost s = self@;
        let mut out: Vec<Effect> = Vec::new();
        let (current, agent_id) = match self.sessions.get(session_id) {
            None => {
                assert(effect_views(out@) =~= Seq::<EffectView>::empty());
                return out;
            },
            Some(sess) => (sess.generation, sess.agent_id),
        };
        if current != generation {
            assert(effect_views(out@) =~= Seq::<EffectView>::empty());
            return out;
        }
        self.agents.remove(agent_id);
        self.agent_to_session.remove(agent_id);
        match self.sessions.take(session_id) {
            None => {},
            Some(mut sess) => {
                let ghost old_view = sess@;
                sess.lifecycle_state = LifecycleState::AgentDead;
                self.sessions.put(sess);
                proof {
                    assert(self@.sessions =~= s.sessions.insert(session_id@, SessionView { state: LifecycleState::AgentDead, ..old_view }));
                    assert forall|c: u64| #[trigger] self@.client_to_session.dom().contains(c) implies {
                        &&& self@.sessions.dom().contains(self@.client_to_session[c])
                        &&& self@.sessions[self@.client_to_session[c]].client_ids.contains(c)
                    } by {
                        assert(s.client_to_session.dom().contains(c));
                    }
                }
            },
        }
        push_effect(&mut out, Effect::CloseAgent { agent_id });
        push_trace(&mut out, self.trace, Some(String::from_str(session_id)), "agent", "agent_killed_idle", TracePayload::Empty);
        push_effect(&mut out, Effect::Emit(LifecycleEvent::AgentKilledIdle { session_id: String::from_str(session_id) }));
        assert(effect_views(out@) =~= idle_timeout_step(s, session_id@, generation).1);
        out
    }
}

} // verus!

verus! {

/// Removing keys leaves the other entries as they were.
pub proof fn lemma_remove_keys(m: Map<u64, Seq<char>>, ks: Seq<u64>, c: u64)
    ensures
        remove_keys(m, ks).dom().contains(c) <==> (m.dom().contains(c) && !ks.contains(c)),
        remove_keys(m, ks).dom().contains(c) ==> remove_keys(m, ks)[c] == m[c],
    decreases ks.len(),
{
    if ks.len() > 0 {
        lemma_remove_keys(m, ks.drop_last(), c);
        if ks.contains(c) && c != ks.last() {
            let i = choose|i: int| 0 <= i < ks.len() && ks[i] == c;
            assert(ks.drop_last()[i] == c);
        }
        if ks.drop_last().contains(c) {
            let i = choose|i: int| 0 <= i < ks.drop_last().len() && ks.drop_last()[i] == c;
            assert(ks[i] == c);
        }
    }
}

/// Stored sessions become known again, in order, each with a dead agent.
pub open spec fn restore_all_step(s: DispatcherView, records: Seq<(Seq<char>, Seq<char>)>) -> DispatcherView
    decreases records.len(),
{
    if records.len() == 0 {
        s
    } else {
        let r = records.last();
        restore_step(restore_all_step(s, records.drop_last()), r.0, r.1)
    }
}

/// The `(id, cwd)` views of session records.
pub open spec fn record_views(v: Seq<SessionRecord>) -> Seq<(Seq<char>, Seq<char>)> {
    v.map_values(|r: SessionRecord| (r.session_id@, r.cwd@))
}

/// The trace row for a model change made on `sid`.
pub open spec fn model_set_effects(trace: bool, sid: Seq<char>, from: Seq<char>, to: Seq<char>) -> Seq<EffectView> {
    traced(trace, Some(sid), "daemon"@, "model_set"@, PayloadView::ModelChange { from, to })
}

impl DispatcherState {
    /// Session `session_id` is removed, with its agent and client mappings.
    pub fn remove_session(&mut self, session_id: &str) -> (effects: Vec<Effect>)
        requires
            old(self).wf(),
        ensures
            final(self).wf(),
            (final(self)@, effect_views(effects@)) == remove_session_step(old(self)@, session_id@),
            !old(self)@.trace ==> records_no_trace(effect_views(effects@)),
    {
        proof {
            if !self@.trace {
                lemma_no_trace_when_tracing_off(self@, DispatcherEvent::RemoveSession { session_id: session_id@ });
            }
        }
        let ghost s = self@;
        let mut out: Vec<Effect> = Vec::new();
        match self.sessions.take(session_id) {
            None => {
                assert(self@.sessions =~= s.sessions);
                assert(effect_views(out@) =~= Seq::<EffectView>::empty());
                out
            },
            Some(sess) => {
                let ghost old_view = sess@;
                self.agents.remove(sess.agent_id);
                self.agent_to_session.remove(sess.agent_id);
                let ghost mid = self@;
                let mut i: usize = 0;
                while i < sess.client_ids.len()
                    invariant
                        i <= sess.client_ids@.len(),
                        self.sessions.wf(),
                        self@.clients == mid.clients,
                        self@.agents == mid.agents,
                        self@.sessions == mid.sessions,
                        self@.agent_to_session == mid.agent_to_session,
                        self@.trace == mid.trace,
                        self@.next_agent_id == mid.next_agent_id,
                        self.client_to_session@ == remove_keys(s.client_to_session, sess.client_ids@.take(i as int)),
                    decreases sess.client_ids@.len() - i,
                {
                    assert(sess.client_ids@.take((i + 1) as int).drop_last() == sess.client_ids@.take(i as int));
                    self.client_to_session.remove(sess.client_ids[i]);
                    i = i + 1;
                }
                assert(sess.client_ids@.take(sess.client_ids@.len() as int) == sess.client_ids@);
                push_effect(&mut out, Effect::CloseAgent { agent_id: sess.agent_id });
                proof {
                    assert(self@ == remove_session_step(s, session_id@).0);
                    assert forall|c: u64| #[trigger] self@.client_to_session.dom().contains(c) implies {
                        &&& self@.sessions.dom().contains(self@.client_to_session[c])
                        &&& self@.sessions[self@.client_to_session[c]].client_ids.contains(c)
                    } by {
                        lemma_remove_keys(s.client_to_session, old_view.client_ids, c);
                        assert(s.client_to_session.dom().contains(c));
                        assert(s.client_to_session[c] != session_id@);
                    }
                    assert(effect_views(out@) =~= remove_session_step(s, session_id@).1);
                }
                out
            },
        }
    }

    /// The sessions `session_ids` are removed, in order (their working
    /// directories are gone).
    pub fn remove_sessions(&mut self, session_ids: &[String]) -> (effects: Vec<Effect>)
        requires
            old(self).wf(),
        ensures
            final(self).wf(),
            (final(self)@, effect_views(effects@)) == remove_sessions_step(old(self)@, session_ids@.map_values(|t: String| t@)),
            !old(self)@.trace ==> records_no_trace(effect_views(effects@)),
    {
        proof {
            lemma_removals_record_no_trace(self@, session_ids@.map_values(|t: String| t@));
        }
        let ghost s = self@;
        let ghost ids = session_ids@.map_values(|t: String| t@);
        let mut out: Vec<Effect> = Vec::new();
        let mut i: usize = 0;
        while i < session_ids.len()
            invariant
                i <= session_ids@.len(),
                ids == session_ids@.map_values(|t: String| t@),
                self.wf(),
                (self@, effect_views(out@)) == remove_sessions_step(s, ids.take(i as int)),
            decreases session_ids@.len() - i,
        {
            assert(ids.take((i + 1) as int).drop_last() == ids.take(i as int));
            assert(ids.take((i + 1) as int).last() == session_ids@[i as int]@);
            let ghost before = effect_views(out@);
            let mut more = self.remove_session(session_ids[i].as_str());
            let ghost added = effect_views(more@);
            out.append(&mut more);
            assert(effect_views(out@) =~= before + added);
            i = i + 1;
        }
        assert(ids.take(session_ids@.len() as int) == ids);
        out
    }

    /// Stored sessions become known again with a dead agent, unless already
    /// known.
    pub fn restore(&mut self, records: Vec<SessionRecord>)
        requires
            old(self).wf(),
        ensures
            final(self).wf(),
            final(self)@ == restore_all_step(old(self)@, record_views(records@)),
    {
        let ghost s = self@;
        let ghost rv = record_views(records@);
        let mut i: usize = 0;
        while i < records.len()
            invariant
                i <= records@.len(),
                rv == record_views(records@),
                self.wf(),
                self@ == restore_all_step(s, rv.take(i as int)),
            decreases records@.len() - i,
        {
            assert(rv.take((i + 1) as int).drop_last() == rv.take(i as int));
            let ghost before = self@;
            if !self.sessions.contains(records[i].session_id.as_str()) {
                let record = SessionRecord {
                    session_id: records[i].session_id.clone(),
                    cwd: records[i].cwd.clone(),
                    created_at: records[i].created_at.clone(),
                    updated_at: records[i].updated_at.clone(),
                };
                let sess = Session {
                    agent_id: 0,
                    client_ids: Vec::new(),
                    generation: 0,
                    lifecycle_state: LifecycleState::AgentDead,
                    respawn_attempted: false,
                    record,
                };
                self.sessions.put(sess);
                proof {
                    assert(self@.sessions[records@[i as int].session_id@].client_ids =~= Seq::<u64>::empty());
                    assert(self@ =~= restore_step(before, rv[i as int].0, rv[i as int].1));
                    assert forall|c: u64| #[trigger] self@.client_to_session.dom().contains(c) implies {
                        &&& self@.sessions.dom().contains(self@.client_to_session[c])
                        &&& self@.sessions[self@.client_to_session[c]].client_ids.contains(c)
                    } by {
                        assert(before.client_to_session.dom().contains(c));
                    }
                }
            }
            i = i + 1;
        }
        assert(rv.take(records@.len() as int) == rv);
    }

    /// The trace effects for a model change made on `session_id`.
    pub fn model_set(&self, session_id: &str, from: &str, to: &str) -> (effects: Vec<Effect>)
        ensures
            effect_views(effects@) == model_set_effects(self@.trace, session_id@, from@, to@),
            !self@.trace ==> records_no_trace(effect_views(effects@)),
    {
        proof {
            if !self@.trace {
                lemma_no_trace_when_tracing_off(self@, DispatcherEvent::ClientRegistered { client: 0 });
            }
        }
        let mut out: Vec<Effect> = Vec::new();
        push_trace(&mut out, self.trace, Some(String::from_str(session_id)), "daemon", "model_set", TracePayload::ModelChange { from: String::from_str(from), to: String::from_str(to) });
        assert(effect_views(out@) =~= model_set_effects(self@.trace, session_id@, from@, to@));
        out
    }

    /// The id and working directory of every session.
    pub fn session_entries(&self) -> (r: Vec<(String, String)>)
        requires
            self.wf(),
        ensures
            forall|k: Seq<char>| self@.sessions.dom().contains(k) <==> exists|i: int| 0 <= i < r@.len() && #[trigger] r@[i].0@ == k,
            forall|i: int| 0 <= i < r@.len() ==> self@.sessions.dom().contains(#[trigger] r@[i].0@) && self@.sessions[r@[i].0@].cwd == r@[i].1@,
    {
        self.sessions.entries()
    }

    /// Whether `session_id` is a known session.
    pub fn has_session(&self, session_id: &str) -> (r: bool)
        requires
            self.wf(),
        ensures
            r == self@.sessions.dom().contains(session_id@),
    {
        self.sessions.contains(session_id)
    }

    /// Whether trace rows are recorded.
    pub fn tracing(&self) -> (r: bool)
        ensures
            r == self@.trace,
    {
        self.trace
    }
}

} // verus!

verus! {

/// An event that changes the dispatcher's state.
pub enum DispatcherEvent {
    ClientRegistered { client: u64 },
    ClientDisconnected { client: u64 },
    AgentReady { agent: u64, session_id: Seq<char>, client: u64 },
    SessionCreated { agent: u64, session_id: Seq<char>, client: u64, cwd: Seq<char> },
    AgentDisconnected { agent: u64 },
    FromAgent { agent: u64 },
    Reconnect { session_id: Seq<char> },
    Attach { client: u64, session_id: Seq<char> },
    AgentQuiescent { session_id: Seq<char>, generation: u64 },
    IdleTimeout { session_id: Seq<char>, generation: u64 },
    RemoveSession { session_id: Seq<char> },
    Restore { session_id: Seq<char>, cwd: Seq<char> },
}

/// The state after `e`.
pub open spec fn next_state(s: DispatcherView, e: DispatcherEvent) -> DispatcherView {
    match e {
        DispatcherEvent::ClientRegistered { client } => client_registered_step(s, client).0,
        DispatcherEvent::ClientDisconnected { client } => client_disconnected_step(s, client).0,
        DispatcherEvent::AgentReady { agent, session_id, client } => agent_ready_step(s, agent, session_id, client).0,
        DispatcherEvent::SessionCreated { agent, session_id, client, cwd } => session_created_step(s, agent, session_id, client, cwd),
        DispatcherEvent::AgentDisconnected { agent } => agent_disconnected_step(s, agent).0,
        DispatcherEvent::FromAgent { agent } => from_agent_step(s, agent).0,
        DispatcherEvent::Reconnect { session_id } => reconnect_step(s, session_id).0,
        DispatcherEvent::Attach { client, session_id } => attach_step(s, client, session_id),
        DispatcherEvent::AgentQuiescent { session_id, generation } => agent_quiescent_step(s, session_id, generation).0,
        DispatcherEvent::IdleTimeout { session_id, generation } => idle_timeout_step(s, session_id, generation).0,
        DispatcherEvent::RemoveSession { session_id } => remove_session_step(s, session_id).0,
        DispatcherEvent::Restore { session_id, cwd } => restore_step(s, session_id, cwd),
    }
}

/// The event may be taken in state `s`: a session is created only when its
/// id is new, and a client is attached only to a known session (the
/// `requires` of the corresponding steps).
pub open spec fn enabled(s: DispatcherView, e: DispatcherEvent) -> bool {
    match e {
        DispatcherEvent::SessionCreated { session_id, .. } => !s.sessions.dom().contains(session_id),
        DispatcherEvent::Attach { session_id, .. } => s.sessions.dom().contains(session_id),
        _ => true,
    }
}

/// A timer whose generation is not its session's current one (or whose
/// session is gone) is ignored: the state is unchanged and nothing is done.
pub proof fn lemma_stale_timer_is_ignored(s: DispatcherView, sid: Seq<char>, g: u64)
    requires
        !(s.sessions.dom().contains(sid) && s.sessions[sid].generation == g),
    ensures
        agent_quiescent_step(s, sid, g) == (s, Seq::<EffectView>::empty()),
        idle_timeout_step(s, sid, g) == (s, Seq::<EffectView>::empty()),
{
}

/// Activity on a session (a client leaving it, a message from its agent, a
/// client attaching to it) makes every timer started before it stale.
pub proof fn lemma_activity_invalidates_timers(s: DispatcherView, sid: Seq<char>, e: DispatcherEvent)
    requires
        s.sessions.dom().contains(sid),
        enabled(s, e),
        match e {
            DispatcherEvent::ClientDisconnected { client } => s.client_to_session.dom().contains(client) && s.client_to_session[client] == sid,
            DispatcherEvent::FromAgent { agent } => s.agent_to_session.dom().contains(agent) && s.agent_to_session[agent] == sid,
            DispatcherEvent::Attach { session_id, .. } => session_id == sid,
            _ => false,
        },
    ensures
        ({
            let t = next_state(s, e);
            let g = s.sessions[sid].generation;
            &&& t.sessions.dom().contains(sid)
            &&& t.sessions[sid].generation != g
            &&& agent_quiescent_step(t, sid, g) == (t, Seq::<EffectView>::empty())
            &&& idle_timeout_step(t, sid, g) == (t, Seq::<EffectView>::empty())
        }),
{
}

/// Generations never go back: every step leaves each remaining session's
/// generation as it was or larger (short of the top of `u64`).
pub proof fn lemma_generation_monotone(s: DispatcherView, e: DispatcherEvent, sid: Seq<char>)
    requires
        enabled(s, e),
        s.sessions.dom().contains(sid),
        s.sessions[sid].generation < u64::MAX,
        next_state(s, e).sessions.dom().contains(sid),
    ensures
        next_state(s, e).sessions[sid].generation >= s.sessions[sid].generation,
{
}

/// An idle timeout that is not stale ends the session's agent: the agent's
/// handle is dropped first, it serves no session any more, and the session is
/// dead (it keeps its clients and generation).
pub proof fn lemma_idle_timeout_kills_agent(s: DispatcherView, sid: Seq<char>)
    requires
        s.sessions.dom().contains(sid),
    ensures
        ({
            let g = s.sessions[sid].generation;
            let a = s.sessions[sid].agent_id;
            let (t, effects) = idle_timeout_step(s, sid, g);
            &&& t.sessions[sid].state == LifecycleState::AgentDead
            &&& t.sessions[sid].generation == g
            &&& t.sessions[sid].client_ids == s.sessions[sid].client_ids
            &&& !t.agents.contains(a)
            &&& !t.agent_to_session.dom().contains(a)
            &&& effects[0] == EffectView::CloseAgent { agent_id: a }
        }),
{
}

/// The quiescence timer starts exactly when the last client of a session
/// with a live agent leaves, and it carries the session's new generation.
pub proof fn lemma_quiescence_after_last_client(s: DispatcherView, c: u64)
    requires
        s.client_to_session.dom().contains(c),
        s.sessions.dom().contains(s.client_to_session[c]),
    ensures
        ({
            let sid = s.client_to_session[c];
            let (t, effects) = client_disconnected_step(s, c);
            let starts = exists|i: int| 0 <= i < effects.len() && #[trigger] effects[i] == EffectView::StartQuiescenceTimer {
                session_id: sid,
                generation: t.sessions[sid].generation,
            };
            starts <==> (t.sessions[sid].client_ids.len() == 0 && s.sessions[sid].state != LifecycleState::AgentDead)
        }),
{
    let sid = s.client_to_session[c];
    let (t, effects) = client_disconnected_step(s, c);
    let tr = traced(s.trace, Some(sid), "acp-client"@, "client_disconnected"@, PayloadView::Empty);
    let timer = EffectView::StartQuiescenceTimer { session_id: sid, generation: t.sessions[sid].generation };
    if t.sessions[sid].client_ids.len() == 0 && s.sessions[sid].state != LifecycleState::AgentDead {
        assert(effects[tr.len() as int] == timer);
    } else {
        assert(effects == tr);
        assert forall|i: int| 0 <= i < effects.len() implies effects[i] != timer by {
            assert(effects[i] is Trace);
        }
    }
}

/// A message from an agent is forwarded only to its session's most recently
/// connected client, and only while that client is registered.
pub proof fn lemma_agent_output_goes_to_latest_client(s: DispatcherView, a: u64)
    requires
        s.agent_to_session.dom().contains(a),
        s.sessions.dom().contains(s.agent_to_session[a]),
    ensures
        ({
            let ids = s.sessions[s.agent_to_session[a]].client_ids;
            match from_agent_step(s, a).1 {
                AgentRouteView::Routed { client: Some(c), .. } => ids.len() > 0 && c == ids.last() && s.clients.contains(c),
                AgentRouteView::Routed { client: None, .. } => ids.len() == 0 || !s.clients.contains(ids.last()),
                _ => false,
            }
        }),
{
}

/// A client's message goes to an agent only when that agent is live and
/// serves the client's session; otherwise it goes nowhere.
pub proof fn lemma_route_goes_to_the_session_agent(s: DispatcherView, c: u64)
    ensures
        route_spec(s, c) matches Some((a, sid)) ==> {
            &&& s.client_to_session.dom().contains(c)
            &&& s.client_to_session[c] == sid
            &&& s.sessions.dom().contains(sid)
            &&& s.sessions[sid].agent_id == a
            &&& s.agents.contains(a)
        },
        route_spec(s, c) is None ==> !s.client_to_session.dom().contains(c)
            || !s.sessions.dom().contains(s.client_to_session[c])
            || !s.agents.contains(s.sessions[s.client_to_session[c]].agent_id),
{
}

/// A reconnect spawns a new agent exactly when the session's agent is dead:
/// a live (active, finished or quiescent) agent is reattached to and the
/// state is unchanged; an unknown session is refused.
pub proof fn lemma_respawn_only_when_dead(s: DispatcherView, sid: Seq<char>)
    ensures
        !s.sessions.dom().contains(sid) ==> reconnect_step(s, sid) == (s, ReconnectView::NotFound),
        s.sessions.dom().contains(sid) ==> (reconnect_step(s, sid).1 is Respawn <==> s.sessions[sid].state == LifecycleState::AgentDead),
        s.sessions.dom().contains(sid) && s.sessions[sid].state != LifecycleState::AgentDead ==> reconnect_step(s, sid) == (s, ReconnectView::Live),
        reconnect_step(s, sid).1 matches ReconnectView::Respawn { agent_id, cwd } ==> agent_id == s.next_agent_id && cwd == s.sessions[sid].cwd,
{
}

/// An agent that becomes ready for a known session takes it over: the
/// session is served by that agent, is active, has the client among its
/// clients, and the client's messages are routed to the new agent.
pub proof fn lemma_ready_agent_takes_over(s: DispatcherView, a: u64, sid: Seq<char>, c: u64)
    requires
        s.sessions.dom().contains(sid),
    ensures
        ({
            let (t, _, is_new) = agent_ready_step(s, a, sid, c);
            &&& !is_new
            &&& t.sessions[sid].agent_id == a
            &&& t.sessions[sid].state == LifecycleState::Active
            &&& t.sessions[sid].client_ids.contains(c)
            &&& t.agents.contains(a)
            &&& t.agent_to_session[a] == sid
            &&& t.client_to_session[c] == sid
            &&& route_spec(t, c) == Some((a, sid))
        }),
{
    let ids = s.sessions[sid].client_ids;
    if !ids.contains(c) {
        assert(ids.push(c)[ids.len() as int] == c);
    }
}

/// An agent that becomes ready for a new session is registered for it; once
/// the session is created, the client's messages are routed to that agent.
pub proof fn lemma_new_session_routes_to_agent(s: DispatcherView, a: u64, sid: Seq<char>, c: u64, cwd: Seq<char>)
    requires
        !s.sessions.dom().contains(sid),
    ensures
        ({
            let (t, _, is_new) = agent_ready_step(s, a, sid, c);
            let u = session_created_step(t, a, sid, c, cwd);
            &&& is_new
            &&& u.sessions[sid].agent_id == a
            &&& u.sessions[sid].client_ids == seq![c]
            &&& route_spec(u, c) == Some((a, sid))
        }),
{
}

/// Reconnecting to a session whose agent is dead respawns it under a fresh
/// id: two respawns in a row get different ids.
pub proof fn lemma_respawn_ids_differ(s: DispatcherView, sid1: Seq<char>, sid2: Seq<char>)
    requires
        s.sessions.dom().contains(sid1),
        s.sessions.dom().contains(sid2),
        s.sessions[sid1].state == LifecycleState::AgentDead,
        s.sessions[sid2].state == LifecycleState::AgentDead,
    ensures
        ({
            let (t, r1) = reconnect_step(s, sid1);
            let (_, r2) = reconnect_step(t, sid2);
            r1 matches ReconnectView::Respawn { agent_id: a1, .. } && r2 matches ReconnectView::Respawn { agent_id: a2, .. } && a1 != a2
        }),
{
}

/// The effects of event `e` in state `s` (events that answer with a route or
/// a reconnect decision have no effects).
pub open spec fn step_effects(s: DispatcherView, e: DispatcherEvent) -> Seq<EffectView> {
    match e {
        DispatcherEvent::ClientRegistered { client } => client_registered_step(s, client).1,
        DispatcherEvent::ClientDisconnected { client } => client_disconnected_step(s, client).1,
        DispatcherEvent::AgentReady { agent, session_id, client } => agent_ready_step(s, agent, session_id, client).1,
        DispatcherEvent::AgentDisconnected { agent } => agent_disconnected_step(s, agent).1,
        DispatcherEvent::AgentQuiescent { session_id, generation } => agent_quiescent_step(s, session_id, generation).1,
        DispatcherEvent::IdleTimeout { session_id, generation } => idle_timeout_step(s, session_id, generation).1,
        DispatcherEvent::RemoveSession { session_id } => remove_session_step(s, session_id).1,
        _ => Seq::empty(),
    }
}

/// The state after the events `es`, taken in order from `s`, and every
/// effect they produced.
pub open spec fn run(s: DispatcherView, es: Seq<DispatcherEvent>) -> (DispatcherView, Seq<EffectView>)
    decreases es.len(),
{
    if es.len() == 0 {
        (s, Seq::empty())
    } else {
        let (t, done) = run(s, es.drop_last());
        (next_state(t, es.last()), done + step_effects(t, es.last()))
    }
}

/// None of `effects` records a trace row.
pub open spec fn records_no_trace(effects: Seq<EffectView>) -> bool {
    forall|i: int| 0 <= i < effects.len() ==> !(#[trigger] effects[i] is Trace)
}

/// Whether trace rows are recorded is fixed when the dispatcher is made: no
/// step changes it.
pub proof fn lemma_tracing_is_fixed(s: DispatcherView, e: DispatcherEvent)
    ensures
        next_state(s, e).trace == s.trace,
{
}

/// With tracing off, no step records a trace row: not the step's own
/// effects, not the answer to a session request, not a model change.
pub proof fn lemma_no_trace_when_tracing_off(s: DispatcherView, e: DispatcherEvent)
    requires
        !s.trace,
    ensures
        records_no_trace(step_effects(s, e)),
        forall|kind: RequestKind, is_new: bool, sid: Seq<char>| records_no_trace(#[trigger] outcome_effects(s.trace, kind, is_new, sid)),
        forall|sid: Seq<char>, from: Seq<char>, to: Seq<char>| records_no_trace(#[trigger] model_set_effects(s.trace, sid, from, to)),
{
    assert forall|kind: RequestKind, is_new: bool, sid: Seq<char>| records_no_trace(#[trigger] outcome_effects(s.trace, kind, is_new, sid)) by {
        let effects = outcome_effects(s.trace, kind, is_new, sid);
        assert forall|i: int| 0 <= i < effects.len() implies !(#[trigger] effects[i] is Trace) by {
            assert(effects[i] is Emit);
        }
    }
    let effects = step_effects(s, e);
    assert forall|i: int| 0 <= i < effects.len() implies !(#[trigger] effects[i] is Trace) by {
        match e {
            DispatcherEvent::IdleTimeout { session_id, generation } => {
                if s.sessions.dom().contains(session_id) && s.sessions[session_id].generation == generation {
                    assert(effects[i] is CloseAgent || effects[i] is Emit);
                }
            },
            _ => {},
        }
    }
}

/// A trace point records exactly one row, with the given fields, when
/// tracing is on, and none when it is off.
pub proof fn lemma_trace_point(trace: bool, sid: Option<Seq<char>>, role: Seq<char>, method: Seq<char>, payload: PayloadView)
    ensures
        traced(trace, sid, role, method, payload).len() == (if trace { 1int } else { 0int }),
        trace ==> traced(trace, sid, role, method, payload)[0] == (EffectView::Trace { session_id: sid, role, method, payload }),
{
}

/// Removing sessions only closes agents: it records no trace row.
pub proof fn lemma_removals_record_no_trace(s: DispatcherView, sids: Seq<Seq<char>>)
    ensures
        records_no_trace(remove_sessions_step(s, sids).1),
    decreases sids.len(),
{
    if sids.len() > 0 {
        let (s1, e1) = remove_sessions_step(s, sids.drop_last());
        let (s2, e2) = remove_session_step(s1, sids.last());
        lemma_removals_record_no_trace(s, sids.drop_last());
        assert forall|i: int| 0 <= i < (e1 + e2).len() implies !(#[trigger] (e1 + e2)[i] is Trace) by {
            if i < e1.len() {
                assert((e1 + e2)[i] == e1[i]);
            } else {
                assert((e1 + e2)[i] == e2[i - e1.len()]);
            }
        }
    }
}

/// A dispatcher made with tracing off records no trace row, whatever events
/// it goes through.
pub proof fn lemma_run_without_tracing_records_nothing(s: DispatcherView, es: Seq<DispatcherEvent>)
    requires
        !s.trace,
    ensures
        !run(s, es).0.trace,
        records_no_trace(run(s, es).1),
    decreases es.len(),
{
    if es.len() > 0 {
        let (t, done) = run(s, es.drop_last());
        lemma_run_without_tracing_records_nothing(s, es.drop_last());
        lemma_no_trace_when_tracing_off(t, es.last());
        let step = step_effects(t, es.last());
        assert forall|i: int| 0 <= i < (done + step).len() implies !(#[trigger] (done + step)[i] is Trace) by {
            if i < done.len() {
                assert((done + step)[i] == done[i]);
            } else {
                assert((done + step)[i] == step[i - done.len()]);
            }
        }
    }
}

/// Who answers a request that a client sent.
#[derive(Debug, Clone, Copy, PartialEq, Eq, Structural)]
pub enum ClientRequest {
    /// `initialize`: answered by the daemon.
    Initialize,
    /// `session/list`: answered by the daemon from the store.
    ListSessions,
    /// `session/new`: a new agent is spawned.
    NewSession,
    /// `session/load`: the session is replayed and reattached.
    LoadSession,
    /// `session/resume`: the session is reattached.
    ResumeSession,
    /// `session/prompt`: the prompt is stored, then goes to the agent.
    Prompt,
    /// Anything else goes to the client's agent as it is.
    Forward,
}

/// The handler of a client request with method `m`.
pub open spec fn client_request_spec(m: Seq<char>) -> ClientRequest {
    if m == "initialize"@ {
        ClientRequest::Initialize
    } else if m == "session/list"@ {
        ClientRequest::ListSessions
    } else if m == "session/new"@ {
        ClientRequest::NewSession
    } else if m == "session/load"@ {
        ClientRequest::LoadSession
    } else if m == "session/resume"@ {
        ClientRequest::ResumeSession
    } else if m == "session/prompt"@ {
        ClientRequest::Prompt
    } else {
        ClientRequest::Forward
    }
}

/// Which handler answers a client request with method `method`.
pub fn client_request(method: &str) -> (r: ClientRequest)
    ensures
        r == client_request_spec(method@),
{
    let m = chars_of(method);
    if same_chars(m.as_slice(), chars_of("initialize").as_slice()) {
        ClientRequest::Initialize
    } else if same_chars(m.as_slice(), chars_of("session/list").as_slice()) {
        ClientRequest::ListSessions
    } else if same_chars(m.as_slice(), chars_of("session/new").as_slice()) {
        ClientRequest::NewSession
    } else if same_chars(m.as_slice(), chars_of("session/load").as_slice()) {
        ClientRequest::LoadSession
    } else if same_chars(m.as_slice(), chars_of("session/resume").as_slice()) {
        ClientRequest::ResumeSession
    } else if same_chars(m.as_slice(), chars_of("session/prompt").as_slice()) {
        ClientRequest::Prompt
    } else {
        ClientRequest::Forward
    }
}

} // verus!
