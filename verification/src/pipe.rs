//! The conversation the daemon holds with a newly spawned agent before the
//! agent joins the dispatcher: `initialize`, then `session/new` (optionally
//! followed by selecting the configured model and sending the team
//! guidelines) or `session/resume`, then the agent is reported ready. The
//! driver performs each action, and hands the reply back as an event.

use vstd::prelude::*;
use vstd::string::*;
use crate::model::{model_decision, model_decision_spec, ConfigOption, ModelDecision, ModelDecisionView};

verus! {

broadcast use vstd::string::group_string_axioms;

/// What the agent is spawned for.
#[derive(Debug)]
pub enum SessionRequest {
    /// A new session in `cwd`.
    New { cwd: String },
    /// Resuming the stored session `session_id`, in `cwd`.
    Resume { session_id: String, cwd: String },
}

/// The mathematical value of a [`SessionRequest`].
pub enum RequestView {
    New { cwd: Seq<char> },
    Resume { session_id: Seq<char>, cwd: Seq<char> },
}

impl View for SessionRequest {
    type V = RequestView;

    open spec fn view(&self) -> RequestView {
        match self {
            SessionRequest::New { cwd } => RequestView::New { cwd: cwd@ },
            SessionRequest::Resume { session_id, cwd } => RequestView::Resume { session_id: session_id@, cwd: cwd@ },
        }
    }
}

/// Where the conversation with the agent is.
#[derive(Debug, Clone, Copy, PartialEq, Eq, Structural)]
pub enum PipeStage {
    /// `initialize` was sent.
    Initializing,
    /// `session/new` or `session/resume` was sent.
    Opening,
    /// `session/set_config_option` was sent to select the model.
    SettingModel,
    /// The guidelines prompt was sent.
    SendingGuidelines,
    /// The agent was reported ready; messages are forwarded.
    Running,
    /// The connection is over.
    Ended,
}

/// A reply from the agent, or the end of the connection.
#[derive(Debug)]
pub enum PipeEvent {
    /// `initialize` succeeded.
    Initialized,
    /// `session/new` succeeded with this session id and these
    /// configuration options.
    SessionCreated { session_id: String, options: Option<Vec<ConfigOption>> },
    /// `session/resume` succeeded.
    Resumed,
    /// `session/set_config_option` answered (`ok` when it succeeded).
    ModelSetDone { ok: bool },
    /// The guidelines prompt was answered.
    GuidelinesSent,
    /// The connection ended, with the error that ended it if any.
    Ended { error: Option<String> },
}

/// The mathematical value of a [`PipeEvent`].
pub enum EventView {
    Initialized,
    SessionCreated { session_id: Seq<char>, options: Option<Seq<ConfigOption>> },
    Resumed,
    ModelSetDone { ok: bool },
    GuidelinesSent,
    Ended { error: Option<Seq<char>> },
}

impl View for PipeEvent {
    type V = EventView;

    open spec fn view(&self) -> EventView {
        match self {
            PipeEvent::Initialized => EventView::Initialized,
            PipeEvent::SessionCreated { session_id, options } => EventView::SessionCreated {
                session_id: session_id@,
                options: match options {
                    Some(o) => Some(o@),
                    None => None,
                },
            },
            PipeEvent::Resumed => EventView::Resumed,
            PipeEvent::ModelSetDone { ok } => EventView::ModelSetDone { ok: *ok },
            PipeEvent::GuidelinesSent => EventView::GuidelinesSent,
            PipeEvent::Ended { error } => EventView::Ended {
                error: match error {
                    Some(e) => Some(e@),
                    None => None,
                },
            },
        }
    }
}

/// What the driver must do next.
#[derive(Debug)]
pub enum PipeAction {
    /// Send `initialize`.
    SendInitialize,
    /// Send `session/new` for `cwd`.
    SendNewSession { cwd: String },
    /// Send `session/resume` for `session_id` in `cwd`.
    SendResumeSession { session_id: String, cwd: String },
    /// Send `session/set_config_option` setting `option_id` to `model`.
    SendSetModel { session_id: String, option_id: String, model: String },
    /// Tell the dispatcher the model of `session_id` changed.
    ReportModelSet { session_id: String, from: String, to: String },
    /// Send the team guidelines as a prompt.
    SendGuidelines { session_id: String },
    /// Install the forwarder and tell the dispatcher the agent is ready.
    ReportReady { agent_id: u64, session_id: String, client_id: u64, cwd: String },
    /// Answer the session request with an internal error.
    RespondError { message: String },
    /// Tell the dispatcher the agent's connection is gone.
    ReportDisconnected { agent_id: u64 },
}

/// The mathematical value of a [`PipeAction`].
pub enum ActionView {
    SendInitialize,
    SendNewSession { cwd: Seq<char> },
    SendResumeSession { session_id: Seq<char>, cwd: Seq<char> },
    SendSetModel { session_id: Seq<char>, option_id: Seq<char>, model: Seq<char> },
    ReportModelSet { session_id: Seq<char>, from: Seq<char>, to: Seq<char> },
    SendGuidelines { session_id: Seq<char> },
    ReportReady { agent_id: u64, session_id: Seq<char>, client_id: u64, cwd: Seq<char> },
    RespondError { message: Seq<char> },
    ReportDisconnected { agent_id: u64 },
}

impl View for PipeAction {
    type V = ActionView;

    open spec fn view(&self) -> ActionView {
        match self {
            PipeAction::SendInitialize => ActionView::SendInitialize,
            PipeAction::SendNewSession { cwd } => ActionView::SendNewSession { cwd: cwd@ },
            PipeAction::SendResumeSession { session_id, cwd } => ActionView::SendResumeSession { session_id: session_id@, cwd: cwd@ },
            PipeAction::SendSetModel { session_id, option_id, model } => ActionView::SendSetModel {
                session_id: session_id@,
                option_id: option_id@,
                model: model@,
            },
            PipeAction::ReportModelSet { session_id, from, to } => ActionView::ReportModelSet { session_id: session_id@, from: from@, to: to@ },
            PipeAction::SendGuidelines { session_id } => ActionView::SendGuidelines { session_id: session_id@ },
            PipeAction::ReportReady { agent_id, session_id, client_id, cwd } => ActionView::ReportReady {
                agent_id: *agent_id,
                session_id: session_id@,
                client_id: *client_id,
                cwd: cwd@,
            },
            PipeAction::RespondError { message } => ActionView::RespondError { message: message@ },
            PipeAction::ReportDisconnected { agent_id } => ActionView::ReportDisconnected { agent_id: *agent_id },
        }
    }
}

/// The views of a list of actions.
pub open spec fn action_views(v: Seq<PipeAction>) -> Seq<ActionView> {
    v.map_values(|a: PipeAction| a@)
}

/// The conversation with one agent.
pub struct AgentPipe {
    agent_id: u64,
    client_id: u64,
    request: SessionRequest,
    send_guidelines: bool,
    default_model: Option<String>,
    stage: PipeStage,
    session_id: Option<String>,
    model_from: Option<String>,
    answered: bool,
}

/// The mathematical value of an [`AgentPipe`].
pub struct PipeView {
    pub agent_id: u64,
    pub client_id: u64,
    pub request: RequestView,
    pub send_guidelines: bool,
    pub default_model: Option<Seq<char>>,
    pub stage: PipeStage,
    /// The session id, once the session is open.
    pub session_id: Option<Seq<char>>,
    /// The model being replaced while a model change is in flight.
    pub model_from: Option<Seq<char>>,
    /// Whether the session request has been answered (ready or failed).
    pub answered: bool,
}

/// The view of an optional string.
pub open spec fn opt_text(o: Option<String>) -> Option<Seq<char>> {
    match o {
        Some(s) => Some(s@),
        None => None,
    }
}

impl View for AgentPipe {
    type V = PipeView;

    closed spec fn view(&self) -> PipeView {
        PipeView {
            agent_id: self.agent_id,
            client_id: self.client_id,
            request: self.request@,
            send_guidelines: self.send_guidelines,
            default_model: opt_text(self.default_model),
            stage: self.stage,
            session_id: opt_text(self.session_id),
            model_from: opt_text(self.model_from),
            answered: self.answered,
        }
    }
}

/// The working directory of a request.
pub open spec fn request_cwd(r: RequestView) -> Seq<char> {
    match r {
        RequestView::New { cwd } => cwd,
        RequestView::Resume { cwd, .. } => cwd,
    }
}

/// The conversation at its start: `initialize` is sent first.
pub open spec fn pipe_start(agent_id: u64, client_id: u64, request: RequestView, send_guidelines: bool, default_model: Option<Seq<char>>) -> (PipeView, Seq<ActionView>) {
    (
        PipeView {
            agent_id,
            client_id,
            request,
            send_guidelines,
            default_model,
            stage: PipeStage::Initializing,
            session_id: None,
            model_from: None,
            answered: false,
        },
        seq![ActionView::SendInitialize],
    )
}

/// The agent is reported ready for the session `sid`.
pub open spec fn pipe_ready(s: PipeView, sid: Seq<char>) -> (PipeView, Seq<ActionView>) {
    (
        PipeView { stage: PipeStage::Running, session_id: Some(sid), answered: true, ..s },
        seq![ActionView::ReportReady { agent_id: s.agent_id, session_id: sid, client_id: s.client_id, cwd: request_cwd(s.request) }],
    )
}

/// Once the model is settled: the guidelines when they are to be sent,
/// else the agent is ready.
pub open spec fn pipe_after_model(s: PipeView, sid: Seq<char>) -> (PipeView, Seq<ActionView>) {
    if s.send_guidelines {
        (
            PipeView { stage: PipeStage::SendingGuidelines, session_id: Some(sid), model_from: None, ..s },
            seq![ActionView::SendGuidelines { session_id: sid }],
        )
    } else {
        pipe_ready(PipeView { model_from: None, ..s }, sid)
    }
}

/// One step of the conversation. Replies that do not fit the current stage
/// are ignored; the end of the connection answers a still unanswered request
/// with its error and is always reported.
pub open spec fn pipe_step(s: PipeView, e: EventView) -> (PipeView, Seq<ActionView>) {
    if s.stage == PipeStage::Ended {
        (s, Seq::empty())
    } else {
        match e {
            EventView::Ended { error } => {
                let answer = match error {
                    Some(msg) => if s.answered {
                        Seq::empty()
                    } else {
                        seq![ActionView::RespondError { message: msg }]
                    },
                    None => Seq::empty(),
                };
                (
                    PipeView { stage: PipeStage::Ended, answered: s.answered || error is Some, ..s },
                    answer + seq![ActionView::ReportDisconnected { agent_id: s.agent_id }],
                )
            },
            EventView::Initialized => if s.stage == PipeStage::Initializing {
                match s.request {
                    RequestView::New { cwd } => (PipeView { stage: PipeStage::Opening, ..s }, seq![ActionView::SendNewSession { cwd }]),
                    RequestView::Resume { session_id, cwd } => (
                        PipeView { stage: PipeStage::Opening, ..s },
                        seq![ActionView::SendResumeSession { session_id, cwd }],
                    ),
                }
            } else {
                (s, Seq::empty())
            },
            EventView::SessionCreated { session_id, options } => if s.stage == PipeStage::Opening && s.request is New {
                let s1 = PipeView { session_id: Some(session_id), ..s };
                match s.default_model {
                    Some(m) => match model_decision_spec(options, m) {
                        ModelDecisionView::Change { option_id, from } => (
                            PipeView { stage: PipeStage::SettingModel, model_from: Some(from), ..s1 },
                            seq![ActionView::SendSetModel { session_id, option_id, model: m }],
                        ),
                        _ => pipe_after_model(s1, session_id),
                    },
                    None => pipe_after_model(s1, session_id),
                }
            } else {
                (s, Seq::empty())
            },
            EventView::Resumed => match s.request {
                RequestView::Resume { session_id, .. } => if s.stage == PipeStage::Opening {
                    pipe_ready(s, session_id)
                } else {
                    (s, Seq::empty())
                },
                RequestView::New { .. } => (s, Seq::empty()),
            },
            EventView::ModelSetDone { ok } => if s.stage == PipeStage::SettingModel && s.session_id is Some
                && s.model_from is Some && s.default_model is Some {
                let sid = s.session_id->0;
                let report = if ok {
                    seq![ActionView::ReportModelSet { session_id: sid, from: s.model_from->0, to: s.default_model->0 }]
                } else {
                    Seq::empty()
                };
                let (s2, rest) = pipe_after_model(s, sid);
                (s2, report + rest)
            } else {
                (s, Seq::empty())
            },
            EventView::GuidelinesSent => if s.stage == PipeStage::SendingGuidelines && s.session_id is Some {
                pipe_ready(s, s.session_id->0)
            } else {
                (s, Seq::empty())
            },
        }
    }
}

fn clone_opt(o: &Option<String>) -> (r: Option<String>)
    ensures
        opt_text(r) == opt_text(*o),
{
    match o {
        Some(s) => Some(s.clone()),
        None => None,
    }
}

impl AgentPipe {
    /// Start the conversation with agent `agent_id`, spawned for client
    /// `client_id`.
    pub fn start(agent_id: u64, client_id: u64, request: SessionRequest, send_guidelines: bool, default_model: Option<String>) -> (r: (AgentPipe, Vec<PipeAction>))
        ensures
            (r.0@, action_views(r.1@)) == pipe_start(agent_id, client_id, request@, send_guidelines, opt_text(default_model)),
    {
        let pipe = AgentPipe {
            agent_id,
            client_id,
            request,
            send_guidelines,
            default_model,
            stage: PipeStage::Initializing,
            session_id: None,
            model_from: None,
            answered: false,
        };
        let actions = vec![PipeAction::SendInitialize];
        assert(action_views(actions@) == seq![ActionView::SendInitialize]);
        (pipe, actions)
    }

    /// Where the conversation is.
    pub fn stage(&self) -> (r: PipeStage)
        ensures
            r == self@.stage,
    {
        self.stage
    }

    fn cwd(&self) -> (r: String)
        ensures
            r@ == request_cwd(self@.request),
    {
        match &self.request {
            SessionRequest::New { cwd } => cwd.clone(),
            SessionRequest::Resume { cwd, .. } => cwd.clone(),
        }
    }

    fn ready(&mut self, sid: String) -> (r: Vec<PipeAction>)
        ensures
            (final(self)@, action_views(r@)) == pipe_ready(old(self)@, sid@),
    {
        let cwd = self.cwd();
        self.stage = PipeStage::Running;
        self.answered = true;
        self.session_id = Some(sid.clone());
        let actions = vec![PipeAction::ReportReady { agent_id: self.agent_id, session_id: sid, client_id: self.client_id, cwd }];
        assert(action_views(actions@) == pipe_ready(old(self)@, sid@).1);
        actions
    }

    fn after_model(&mut self, sid: String) -> (r: Vec<PipeAction>)
        ensures
            (final(self)@, action_views(r@)) == pipe_after_model(old(self)@, sid@),
    {
        self.model_from = None;
        if self.send_guidelines {
            self.stage = PipeStage::SendingGuidelines;
            self.session_id = Some(sid.clone());
            let actions = vec![PipeAction::SendGuidelines { session_id: sid }];
            assert(action_views(actions@) == pipe_after_model(old(self)@, sid@).1);
            actions
        } else {
            self.ready(sid)
        }
    }

    /// Take the next event; returns what to do.
    pub fn step(&mut self, event: PipeEvent) -> (r: Vec<PipeAction>)
        ensures
            (final(self)@, action_views(r@)) == pipe_step(old(self)@, event@),
    {
        let ghost e = event@;
        if self.stage == PipeStage::Ended {
            return Vec::new();
        }
        match event {
            PipeEvent::Ended { error } => {
                let mut actions: Vec<PipeAction> = Vec::new();
                let failed = error.is_some();
                match error {
                    Some(msg) => {
                        if !self.answered {
                            actions.push(PipeAction::RespondError { message: msg });
                        }
                    },
                    None => {},
                }
                actions.push(PipeAction::ReportDisconnected { agent_id: self.agent_id });
                self.stage = PipeStage::Ended;
                self.answered = self.answered || failed;
                assert(action_views(actions@) == pipe_step(old(self)@, e).1);
                actions
            },
            PipeEvent::Initialized => {
                if self.stage != PipeStage::Initializing {
                    return Vec::new();
                }
                self.stage = PipeStage::Opening;
                let action = match &self.request {
                    SessionRequest::New { cwd } => PipeAction::SendNewSession { cwd: cwd.clone() },
                    SessionRequest::Resume { session_id, cwd } => PipeAction::SendResumeSession { session_id: session_id.clone(), cwd: cwd.clone() },
                };
                let actions = vec![action];
                assert(action_views(actions@) == pipe_step(old(self)@, e).1);
                actions
            },
            PipeEvent::SessionCreated { session_id, options } => {
                let is_new = match &self.request {
                    SessionRequest::New { .. } => true,
                    SessionRequest::Resume { .. } => false,
                };
                if self.stage != PipeStage::Opening || !is_new {
                    return Vec::new();
                }
                self.session_id = Some(session_id.clone());
                let decision = match &self.default_model {
                    Some(m) => Some(model_decision(options.as_ref(), m.as_str())),
                    None => None,
                };
                match decision {
                    Some(ModelDecision::Change { option_id, from }) => {
                        let model = match &self.default_model {
                            Some(m) => m.clone(),
                            None => String::new(),
                        };
                        self.stage = PipeStage::SettingModel;
                        self.model_from = Some(from);
                        let actions = vec![PipeAction::SendSetModel { session_id, option_id, model }];
                        assert(action_views(actions@) == pipe_step(old(self)@, e).1);
                        actions
                    },
                    _ => self.after_model(session_id),
                }
            },
            PipeEvent::Resumed => {
                let sid = match &self.request {
                    SessionRequest::Resume { session_id, .. } => session_id.clone(),
                    SessionRequest::New { .. } => {
                        return Vec::new();
                    },
                };
                if self.stage != PipeStage::Opening {
                    return Vec::new();
                }
                self.ready(sid)
            },
            PipeEvent::ModelSetDone { ok } => {
                if self.stage != PipeStage::SettingModel {
                    return Vec::new();
                }
                let (sid, from, to) = match (&self.session_id, &self.model_from, &self.default_model) {
                    (Some(sid), Some(from), Some(to)) => (sid.clone(), from.clone(), to.clone()),
                    _ => {
                        return Vec::new();
                    },
                };
                let mut actions: Vec<PipeAction> = Vec::new();
                if ok {
                    actions.push(PipeAction::ReportModelSet { session_id: sid.clone(), from, to });
                }
                let ghost before = actions@;
                let mut rest = self.after_model(sid);
                let ghost rest_v = rest@;
                actions.append(&mut rest);
                assert(actions@ == before + rest_v);
                assert(action_views(actions@) == action_views(before) + action_views(rest_v));
                assert(action_views(actions@) == pipe_step(old(self)@, e).1);
                actions
            },
            PipeEvent::GuidelinesSent => {
                if self.stage != PipeStage::SendingGuidelines {
                    return Vec::new();
                }
                let sid = match &self.session_id {
                    Some(sid) => sid.clone(),
                    None => {
                        return Vec::new();
                    },
                };
                self.ready(sid)
            },
        }
    }
}

/// What holds of every state the conversation reaches.
pub open spec fn pipe_inv(s: PipeView) -> bool {
    &&& (s.stage == PipeStage::Running ==> s.answered && s.session_id is Some)
    &&& (s.stage == PipeStage::Initializing || s.stage == PipeStage::Opening || s.stage == PipeStage::SettingModel
        || s.stage == PipeStage::SendingGuidelines ==> !s.answered)
    &&& (s.request is Resume ==> s.stage != PipeStage::SettingModel && s.stage != PipeStage::SendingGuidelines)
    &&& (s.stage == PipeStage::SettingModel ==> s.session_id is Some && s.model_from is Some && s.default_model is Some)
    &&& (s.stage == PipeStage::SendingGuidelines ==> s.session_id is Some && s.send_guidelines)
}

/// Whether an action answers the session request.
pub open spec fn is_answer(a: ActionView) -> bool {
    a is ReportReady || a is RespondError
}

/// The number of actions among `acts` that answer the session request.
pub open spec fn answers(acts: Seq<ActionView>) -> nat
    decreases acts.len(),
{
    if acts.len() == 0 {
        0
    } else {
        answers(acts.drop_last()) + if is_answer(acts.last()) { 1nat } else { 0nat }
    }
}

proof fn lemma_answers_concat(a: Seq<ActionView>, b: Seq<ActionView>)
    ensures
        answers(a + b) == answers(a) + answers(b),
    decreases b.len(),
{
    if b.len() == 0 {
        assert(a + b == a);
    } else {
        assert((a + b).drop_last() == a + b.drop_last());
        lemma_answers_concat(a, b.drop_last());
    }
}

proof fn lemma_answers_small(acts: Seq<ActionView>)
    requires
        acts.len() <= 2,
    ensures
        answers(acts) == (if acts.len() >= 1 && is_answer(acts[0]) { 1nat } else { 0nat }) + (if acts.len() >= 2 && is_answer(acts[1]) { 1nat } else { 0nat }),
{
    reveal_with_fuel(answers, 3);
    if acts.len() >= 1 {
        assert(acts.drop_last().len() == acts.len() - 1);
        if acts.len() == 2 {
            assert(acts.drop_last().drop_last().len() == 0);
            assert(acts.drop_last().last() == acts[0]);
        }
    }
}

/// The conversation starts in a state where the invariant holds.
pub proof fn lemma_start_inv(agent_id: u64, client_id: u64, request: RequestView, send_guidelines: bool, default_model: Option<Seq<char>>)
    ensures
        pipe_inv(pipe_start(agent_id, client_id, request, send_guidelines, default_model).0),
{
}

/// Every step keeps the invariant.
pub proof fn lemma_step_inv(s: PipeView, e: EventView)
    requires
        pipe_inv(s),
    ensures
        pipe_inv(pipe_step(s, e).0),
{
}

/// The session request is answered at most once: a step answers it (with
/// the agent ready, or with an error) only while it is unanswered, answers
/// it at most once, and afterwards it counts as answered.
pub proof fn lemma_answered_at_most_once(s: PipeView, e: EventView)
    requires
        pipe_inv(s),
    ensures
        answers(pipe_step(s, e).1) <= 1,
        s.answered ==> answers(pipe_step(s, e).1) == 0,
        answers(pipe_step(s, e).1) == 1 ==> pipe_step(s, e).0.answered,
        s.answered ==> pipe_step(s, e).0.answered,
{
    let acts = pipe_step(s, e).1;
    if s.stage != PipeStage::Ended {
        match e {
            EventView::ModelSetDone { ok } => {
                if s.stage == PipeStage::SettingModel && s.session_id is Some && s.model_from is Some && s.default_model is Some {
                    let sid = s.session_id->0;
                    let report = if ok {
                        seq![ActionView::ReportModelSet { session_id: sid, from: s.model_from->0, to: s.default_model->0 }]
                    } else {
                        Seq::empty()
                    };
                    let rest = pipe_after_model(s, sid).1;
                    lemma_answers_concat(report, rest);
                    lemma_answers_small(report);
                    lemma_answers_small(rest);
                }
            },
            EventView::Ended { error } => {
                let answer = match error {
                    Some(msg) => if s.answered {
                        Seq::empty()
                    } else {
                        seq![ActionView::RespondError { message: msg }]
                    },
                    None => Seq::<ActionView>::empty(),
                };
                lemma_answers_concat(answer, seq![ActionView::ReportDisconnected { agent_id: s.agent_id }]);
                lemma_answers_small(answer);
                lemma_answers_small(seq![ActionView::ReportDisconnected { agent_id: s.agent_id }]);
            },
            _ => {
                lemma_answers_small(acts);
            },
        }
    } else {
        lemma_answers_small(acts);
    }
}

/// A connection that fails before the agent is ready answers the session
/// request with the failure, then reports the disconnection; one that ends
/// after the agent was ready only reports the disconnection.
pub proof fn lemma_failure_is_answered(s: PipeView, msg: Seq<char>)
    requires
        pipe_inv(s),
        s.stage != PipeStage::Ended,
    ensures
        !s.answered ==> pipe_step(s, EventView::Ended { error: Some(msg) }).1 == seq![
            ActionView::RespondError { message: msg },
            ActionView::ReportDisconnected { agent_id: s.agent_id },
        ],
        s.stage == PipeStage::Running ==> pipe_step(s, EventView::Ended { error: Some(msg) }).1 == seq![
            ActionView::ReportDisconnected { agent_id: s.agent_id },
        ],
        pipe_step(s, EventView::Ended { error: Some(msg) }).0.stage == PipeStage::Ended,
{
}

/// The end of the connection is reported exactly once: by the step that
/// takes the `Ended` event, after which the conversation does nothing more.
pub proof fn lemma_disconnect_reported_once(s: PipeView, e: EventView)
    ensures
        s.stage == PipeStage::Ended ==> pipe_step(s, e).1.len() == 0 && pipe_step(s, e).0 == s,
        s.stage != PipeStage::Ended ==> (e is Ended <==> pipe_step(s, e).0.stage == PipeStage::Ended),
        s.stage != PipeStage::Ended && e is Ended ==> pipe_step(s, e).1.last() == (ActionView::ReportDisconnected { agent_id: s.agent_id }),
        forall|i: int| 0 <= i < pipe_step(s, e).1.len() && #[trigger] pipe_step(s, e).1[i] is ReportDisconnected ==> e is Ended,
{
    let acts = pipe_step(s, e).1;
    if s.stage != PipeStage::Ended {
        match e {
            EventView::ModelSetDone { ok } => {
                if s.stage == PipeStage::SettingModel && s.session_id is Some && s.model_from is Some && s.default_model is Some {
                    let sid = s.session_id->0;
                    let report = if ok {
                        seq![ActionView::ReportModelSet { session_id: sid, from: s.model_from->0, to: s.default_model->0 }]
                    } else {
                        Seq::empty()
                    };
                    let rest = pipe_after_model(s, sid).1;
                    assert forall|i: int| 0 <= i < acts.len() implies !(#[trigger] acts[i] is ReportDisconnected) by {
                        if i < report.len() {
                            assert(acts[i] == report[i]);
                        } else {
                            assert(acts[i] == rest[i - report.len()]);
                        }
                    }
                }
            },
            _ => {},
        }
    }
}

/// A resumed session goes straight from `session/resume` to ready: no
/// model is selected and no guidelines are sent, and the agent is reported
/// ready for the requested session, in the requested directory.
pub proof fn lemma_resume_goes_straight_to_ready(s: PipeView, e: EventView)
    requires
        pipe_inv(s),
        s.request is Resume,
    ensures
        forall|i: int| 0 <= i < pipe_step(s, e).1.len() ==> !(#[trigger] pipe_step(s, e).1[i] is SendSetModel)
            && !(pipe_step(s, e).1[i] is SendGuidelines),
        forall|i: int| 0 <= i < pipe_step(s, e).1.len() && #[trigger] pipe_step(s, e).1[i] is ReportReady ==> (
            pipe_step(s, e).1[i] == ActionView::ReportReady {
                agent_id: s.agent_id,
                session_id: s.request->Resume_session_id,
                client_id: s.client_id,
                cwd: s.request->Resume_cwd,
            }),
{
}

/// The configured model is only ever selected in a new session, when a
/// model is configured and the agent's model option holds another one; the
/// guidelines only go to new sessions when they are enabled.
pub proof fn lemma_model_and_guidelines_only_when_configured(s: PipeView, e: EventView)
    requires
        pipe_inv(s),
    ensures
        forall|i: int| 0 <= i < pipe_step(s, e).1.len() && #[trigger] pipe_step(s, e).1[i] is SendSetModel ==> {
            &&& s.request is New
            &&& e matches EventView::SessionCreated { session_id, options }
            &&& s.default_model matches Some(m)
            &&& model_decision_spec(options, m) is Change
        },
        forall|i: int| 0 <= i < pipe_step(s, e).1.len() && #[trigger] pipe_step(s, e).1[i] is SendGuidelines ==> {
            &&& s.request is New
            &&& s.send_guidelines
        },
{
    let acts = pipe_step(s, e).1;
    if s.stage != PipeStage::Ended {
        match e {
            EventView::ModelSetDone { ok } => {
                if s.stage == PipeStage::SettingModel && s.session_id is Some && s.model_from is Some && s.default_model is Some {
                    let sid = s.session_id->0;
                    let report = if ok {
                        seq![ActionView::ReportModelSet { session_id: sid, from: s.model_from->0, to: s.default_model->0 }]
                    } else {
                        Seq::empty()
                    };
                    let rest = pipe_after_model(s, sid).1;
                    assert forall|i: int| 0 <= i < acts.len() implies !(#[trigger] acts[i] is SendSetModel) && (acts[i] is SendGuidelines ==> s.request is New && s.send_guidelines) by {
                        if i < report.len() {
                            assert(acts[i] == report[i]);
                        } else {
                            assert(acts[i] == rest[i - report.len()]);
                        }
                    }
                }
            },
            _ => {},
        }
    }
}

/// With guidelines enabled, a new session is reported ready only once the
/// guidelines have been answered: no other step reports the agent ready.
/// And the reply to `session/new` always goes on to the guidelines (or first
/// to the model change, which is followed by them), whatever model is
/// configured.
pub proof fn lemma_guidelines_precede_ready(s: PipeView, e: EventView)
    requires
        pipe_inv(s),
        s.request is New,
        s.send_guidelines,
    ensures
        forall|i: int| 0 <= i < pipe_step(s, e).1.len() && #[trigger] pipe_step(s, e).1[i] is ReportReady ==> {
            &&& s.stage == PipeStage::SendingGuidelines
            &&& e is GuidelinesSent
        },
        s.stage == PipeStage::Opening && e is SessionCreated ==> {
            let acts = pipe_step(s, e).1;
            &&& acts.len() == 1
            &&& acts[0] is SendGuidelines || acts[0] is SendSetModel
        },
{
    let acts = pipe_step(s, e).1;
    if s.stage != PipeStage::Ended {
        match e {
            EventView::ModelSetDone { ok } => {
                if s.stage == PipeStage::SettingModel && s.session_id is Some && s.model_from is Some && s.default_model is Some {
                    let sid = s.session_id->0;
                    let report = if ok {
                        seq![ActionView::ReportModelSet { session_id: sid, from: s.model_from->0, to: s.default_model->0 }]
                    } else {
                        Seq::empty()
                    };
                    let rest = pipe_after_model(s, sid).1;
                    assert forall|i: int| 0 <= i < acts.len() implies !(#[trigger] acts[i] is ReportReady) by {
                        if i < report.len() {
                            assert(acts[i] == report[i]);
                        } else {
                            assert(acts[i] == rest[i - report.len()]);
                        }
                    }
                }
            },
            _ => {},
        }
    }
}

/// Once `initialize` is answered, the requested session is opened: a new
/// session in the requested directory, or a resume of the requested session.
pub proof fn lemma_initialized_opens_the_request(s: PipeView)
    requires
        s.stage == PipeStage::Initializing,
    ensures
        pipe_step(s, EventView::Initialized).0.stage == PipeStage::Opening,
        s.request matches RequestView::New { cwd } ==> pipe_step(s, EventView::Initialized).1 == seq![ActionView::SendNewSession { cwd }],
        s.request matches RequestView::Resume { session_id, cwd } ==> pipe_step(s, EventView::Initialized).1
            == seq![ActionView::SendResumeSession { session_id, cwd }],
{
}

/// Without guidelines and with no model to change, the reply to
/// `session/new` reports the agent ready for the new session at once.
pub proof fn lemma_plain_new_session_is_ready(s: PipeView, sid: Seq<char>, options: Option<Seq<ConfigOption>>)
    requires
        s.stage == PipeStage::Opening,
        s.request is New,
        !s.send_guidelines,
        s.default_model matches Some(m) ==> !(model_decision_spec(options, m) is Change),
    ensures
        pipe_step(s, EventView::SessionCreated { session_id: sid, options }).1 == seq![ActionView::ReportReady {
            agent_id: s.agent_id,
            session_id: sid,
            client_id: s.client_id,
            cwd: s.request->New_cwd,
        }],
        pipe_step(s, EventView::SessionCreated { session_id: sid, options }).0.stage == PipeStage::Running,
{
}

} // verus!
