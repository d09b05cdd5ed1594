use jamsession::model::ConfigOption;
use jamsession::pipe::{AgentPipe, PipeAction, PipeEvent, PipeStage, SessionRequest};

fn new_request() -> SessionRequest {
    SessionRequest::New { cwd: "/work".to_string() }
}

fn model_options(current: &str) -> Option<Vec<ConfigOption>> {
    Some(vec![ConfigOption {
        id: "model".to_string(),
        is_model: true,
        select_value: Some(current.to_string()),
    }])
}

#[test]
fn new_session_with_model_and_guidelines() {
    let (mut pipe, actions) = AgentPipe::start(7, 3, new_request(), true, Some("opus".to_string()));
    assert!(matches!(actions.as_slice(), [PipeAction::SendInitialize]));
    let actions = pipe.step(PipeEvent::Initialized);
    assert!(matches!(actions.as_slice(), [PipeAction::SendNewSession { cwd }] if cwd == "/work"));
    let actions = pipe.step(PipeEvent::SessionCreated {
        session_id: "s1".to_string(),
        options: model_options("sonnet"),
    });
    match actions.as_slice() {
        [PipeAction::SendSetModel { session_id, option_id, model }] => {
            assert_eq!(session_id, "s1");
            assert_eq!(option_id, "model");
            assert_eq!(model, "opus");
        }
        other => panic!("expected a model change, got {other:?}"),
    }
    let actions = pipe.step(PipeEvent::ModelSetDone { ok: true });
    match actions.as_slice() {
        [PipeAction::ReportModelSet { session_id, from, to }, PipeAction::SendGuidelines { session_id: g }] => {
            assert_eq!(session_id, "s1");
            assert_eq!(from, "sonnet");
            assert_eq!(to, "opus");
            assert_eq!(g, "s1");
        }
        other => panic!("unexpected {other:?}"),
    }
    let actions = pipe.step(PipeEvent::GuidelinesSent);
    match actions.as_slice() {
        [PipeAction::ReportReady { agent_id, session_id, client_id, cwd }] => {
            assert_eq!((*agent_id, *client_id), (7, 3));
            assert_eq!(session_id, "s1");
            assert_eq!(cwd, "/work");
        }
        other => panic!("unexpected {other:?}"),
    }
    assert_eq!(pipe.stage(), PipeStage::Running);
    // The connection ends normally: only the disconnection is reported.
    let actions = pipe.step(PipeEvent::Ended { error: None });
    assert!(matches!(actions.as_slice(), [PipeAction::ReportDisconnected { agent_id: 7 }]));
    assert!(pipe.step(PipeEvent::Ended { error: Some("again".to_string()) }).is_empty());
}

#[test]
fn model_already_set_or_failed_change_goes_on() {
    let (mut pipe, _) = AgentPipe::start(1, 1, new_request(), false, Some("opus".to_string()));
    pipe.step(PipeEvent::Initialized);
    let actions = pipe.step(PipeEvent::SessionCreated {
        session_id: "s".to_string(),
        options: model_options("opus"),
    });
    assert!(matches!(actions.as_slice(), [PipeAction::ReportReady { .. }]));

    let (mut pipe, _) = AgentPipe::start(1, 1, new_request(), false, Some("opus".to_string()));
    pipe.step(PipeEvent::Initialized);
    pipe.step(PipeEvent::SessionCreated { session_id: "s".to_string(), options: model_options("x") });
    let actions = pipe.step(PipeEvent::ModelSetDone { ok: false });
    assert!(matches!(actions.as_slice(), [PipeAction::ReportReady { .. }]));
}

#[test]
fn resume_goes_straight_to_ready() {
    let request = SessionRequest::Resume { session_id: "old".to_string(), cwd: "/w".to_string() };
    let (mut pipe, _) = AgentPipe::start(2, 5, request, true, Some("opus".to_string()));
    let actions = pipe.step(PipeEvent::Initialized);
    assert!(matches!(
        actions.as_slice(),
        [PipeAction::SendResumeSession { session_id, cwd }] if session_id == "old" && cwd == "/w"
    ));
    // A `session/new` reply does not belong to a resume: ignored.
    assert!(pipe
        .step(PipeEvent::SessionCreated { session_id: "x".to_string(), options: None })
        .is_empty());
    let actions = pipe.step(PipeEvent::Resumed);
    assert!(matches!(
        actions.as_slice(),
        [PipeAction::ReportReady { agent_id: 2, session_id, client_id: 5, cwd }] if session_id == "old" && cwd == "/w"
    ));
}

#[test]
fn failure_before_ready_is_answered() {
    let (mut pipe, _) = AgentPipe::start(4, 1, new_request(), false, None);
    pipe.step(PipeEvent::Initialized);
    let actions = pipe.step(PipeEvent::Ended { error: Some("boom".to_string()) });
    match actions.as_slice() {
        [PipeAction::RespondError { message }, PipeAction::ReportDisconnected { agent_id: 4 }] => {
            assert_eq!(message, "boom");
        }
        other => panic!("unexpected {other:?}"),
    }
    assert_eq!(pipe.stage(), PipeStage::Ended);
}

#[test]
fn out_of_order_replies_are_ignored() {
    let (mut pipe, _) = AgentPipe::start(1, 1, new_request(), false, None);
    assert!(pipe.step(PipeEvent::GuidelinesSent).is_empty());
    assert!(pipe.step(PipeEvent::ModelSetDone { ok: true }).is_empty());
    assert!(pipe.step(PipeEvent::Resumed).is_empty());
    assert_eq!(pipe.stage(), PipeStage::Initializing);
}
