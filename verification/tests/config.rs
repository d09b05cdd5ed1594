use jamsession::config::{AgentChoice, AgentConfig, Config, CustomAgent, DaemonConfig};
use std::time::Duration;

fn daemon() -> DaemonConfig {
    DaemonConfig::default()
}

#[test]
fn defaults_without_a_daemon_section() {
    let c = Config::default();
    assert_eq!(c.log_filter(), None);
    assert_eq!(c.default_model(), None);
    assert_eq!(c.idle_timeout_secs(), 900);
    assert_eq!(c.quiescence_timeout_secs(), 10);
    assert_eq!(c.idle_timeout(), Duration::from_secs(900));
    assert_eq!(c.quiescence_timeout(), Duration::from_secs(10));
    assert!(!c.trace());
    assert!(c.daemon_env().is_empty());
    assert!(matches!(c.into_factory(), AgentChoice::DefaultRegistry));
}

#[test]
fn defaults_with_an_empty_daemon_section() {
    let c = Config { daemon: Some(daemon()), agent: None };
    assert_eq!(c.idle_timeout_secs(), 900);
    assert_eq!(c.quiescence_timeout_secs(), 10);
    assert!(!c.trace());
}

#[test]
fn daemon_settings_are_read() {
    let mut d = daemon();
    d.log_filter = Some("debug".to_string());
    d.idle_timeout_secs = Some(60);
    d.quiescence_timeout_secs = Some(3);
    d.trace = true;
    d.default_model = Some("opus".to_string());
    d.env = vec![("A".to_string(), "1".to_string()), ("B".to_string(), "2".to_string())];
    let c = Config { daemon: Some(d), agent: None };
    assert_eq!(c.log_filter(), Some("debug"));
    assert_eq!(c.default_model(), Some("opus"));
    assert_eq!(c.idle_timeout(), Duration::from_secs(60));
    assert_eq!(c.quiescence_timeout(), Duration::from_secs(3));
    assert!(c.trace());
    assert_eq!(
        c.daemon_env(),
        vec![("A".to_string(), "1".to_string()), ("B".to_string(), "2".to_string())]
    );
}

#[test]
fn custom_agent_wins_over_registry_name() {
    let c = Config {
        daemon: None,
        agent: Some(AgentConfig {
            name: Some("gemini".to_string()),
            custom: Some(CustomAgent {
                path: "/bin/agent".to_string(),
                args: vec!["--acp".to_string()],
                env: Vec::new(),
            }),
        }),
    };
    match c.into_factory() {
        AgentChoice::Custom(custom) => {
            assert_eq!(custom.path, "/bin/agent");
            assert_eq!(custom.args, vec!["--acp".to_string()]);
        }
        other => panic!("expected custom agent, got {other:?}"),
    }
}

#[test]
fn registry_agent_by_name() {
    let c = Config {
        daemon: None,
        agent: Some(AgentConfig { name: Some("gemini".to_string()), custom: None }),
    };
    match c.into_factory() {
        AgentChoice::Registry(name) => assert_eq!(name, "gemini"),
        other => panic!("expected registry agent, got {other:?}"),
    }
    let c = Config { daemon: None, agent: Some(AgentConfig { name: None, custom: None }) };
    assert!(matches!(c.into_factory(), AgentChoice::DefaultRegistry));
}
