use jamsession::model::{model_decision, ConfigOption, ModelDecision};

fn option(id: &str, is_model: bool, value: Option<&str>) -> ConfigOption {
    ConfigOption {
        id: id.to_string(),
        is_model,
        select_value: value.map(|v| v.to_string()),
    }
}

#[test]
fn no_options_no_change() {
    assert!(matches!(model_decision(None, "opus"), ModelDecision::NoOptions));
    let empty: Vec<ConfigOption> = Vec::new();
    assert!(matches!(model_decision(Some(&empty), "opus"), ModelDecision::NoModelOption));
}

#[test]
fn first_model_option_decides() {
    let opts = vec![
        option("mode", false, Some("plan")),
        option("model", true, Some("sonnet")),
        option("model-2", true, Some("opus")),
    ];
    match model_decision(Some(&opts), "opus") {
        ModelDecision::Change { option_id, from } => {
            assert_eq!(option_id, "model");
            assert_eq!(from, "sonnet");
        }
        other => panic!("expected a change, got {other:?}"),
    }
    assert!(matches!(model_decision(Some(&opts), "sonnet"), ModelDecision::AlreadySet));
}

#[test]
fn model_option_that_is_not_a_select() {
    let opts = vec![option("model", true, None)];
    assert!(matches!(model_decision(Some(&opts), "opus"), ModelDecision::NotSelect));
}
