use jamsession::cli::{kill_outcome, parse_pid, since_source, KillOutcome, SinceSource};
use jamsession::errors::{check_cwd, RequestError, INTERNAL_ERROR, INVALID_PARAMS};

#[test]
fn since_precedence() {
    let s = |v: &str| Some(v.to_string());
    assert_eq!(
        since_source(s("2026-01-01T00:00:00Z"), true, s("2h")),
        SinceSource::Absolute("2026-01-01T00:00:00Z".to_string())
    );
    assert_eq!(since_source(None, true, s("2h")), SinceSource::Today);
    assert_eq!(since_source(None, false, s("2h")), SinceSource::Ago("2h".to_string()));
    assert_eq!(since_source(None, false, None), SinceSource::Unset);
}

#[test]
fn pid_files() {
    assert_eq!(parse_pid("1234\n"), Some(1234));
    assert_eq!(parse_pid("  42  "), Some(42));
    assert_eq!(parse_pid("-1"), Some(-1));
    assert_eq!(parse_pid(""), None);
    assert_eq!(parse_pid("12a"), None);
    assert_eq!(parse_pid("2147483648"), None);
    assert_eq!(parse_pid("2147483647"), Some(i32::MAX));
}

#[test]
fn kill_results() {
    assert_eq!(kill_outcome(0, None, 3), KillOutcome::Signalled);
    assert_eq!(kill_outcome(-1, Some(3), 3), KillOutcome::Stale);
    assert_eq!(kill_outcome(-1, Some(1), 3), KillOutcome::Failed);
    assert_eq!(kill_outcome(-1, None, 3), KillOutcome::Failed);
}

#[test]
fn request_errors() {
    let e = RequestError::SessionNotFound { session_id: "sess_nonexistent".to_string() };
    assert_eq!(e.code(), INVALID_PARAMS);
    assert_eq!(e.code(), -32602);
    assert_eq!(e.data(), "session not found: sess_nonexistent");
    let e = RequestError::Internal { message: "boom".to_string() };
    assert_eq!(e.code(), INTERNAL_ERROR);
    assert_eq!(e.data(), "boom");
    assert_eq!(check_cwd("/tmp", true), Ok(()));
    let e = check_cwd("relative", true).unwrap_err();
    assert_eq!(e.data(), "invalid cwd: relative");
    assert_eq!(
        check_cwd("/nonexistent/path/that/does/not/exist", false),
        Err(RequestError::InvalidCwd { cwd: "/nonexistent/path/that/does/not/exist".to_string() })
    );
}
