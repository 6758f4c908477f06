use harnessd::models::{
    model_config_arg, normalize_model, normalize_reasoning_effort, reasoning_effort_config_arg,
    ModelError,
};

#[test]
fn normalizes_optional_models() {
    assert_eq!(normalize_model(None).unwrap(), None);
    assert_eq!(normalize_model(Some("  ".to_string())).unwrap(), None);
    assert_eq!(
        normalize_model(Some(" gpt-5.4-mini ".to_string())).unwrap(),
        Some("gpt-5.4-mini".to_string())
    );
}

#[test]
fn rejects_invalid_models() {
    assert!(normalize_model(Some("x\n".to_string())).is_err());
    assert!(normalize_model(Some("x".repeat(129))).is_err());
}

#[test]
fn renders_codex_config_string() {
    assert_eq!(model_config_arg("gpt-5.4-mini"), "model=\"gpt-5.4-mini\"");
    assert_eq!(model_config_arg("a\"b"), "model=\"a\\\"b\"");
}

#[test]
fn normalizes_reasoning_efforts() {
    assert_eq!(normalize_reasoning_effort(None).unwrap(), None);
    assert_eq!(
        normalize_reasoning_effort(Some("default".to_string())).unwrap(),
        None
    );
    assert_eq!(
        normalize_reasoning_effort(Some(" low ".to_string())).unwrap(),
        Some("low".to_string())
    );
    assert!(normalize_reasoning_effort(Some("fast".to_string())).is_err());
    assert_eq!(
        reasoning_effort_config_arg("high"),
        "model_reasoning_effort=\"high\""
    );
}

#[test]
fn model_errors_name_their_cause() {
    assert_eq!(
        normalize_model(Some("x\u{7f}".to_string())),
        Err(ModelError::ModelControlCharacters)
    );
    assert_eq!(
        normalize_model(Some("x".repeat(129))),
        Err(ModelError::ModelTooLong)
    );
    assert_eq!(
        normalize_model(Some(format!("  {}  ", "y".repeat(128)))),
        Ok(Some("y".repeat(128)))
    );
    assert_eq!(
        normalize_reasoning_effort(Some("lo\tw".to_string())),
        Err(ModelError::EffortControlCharacters)
    );
    assert_eq!(
        normalize_reasoning_effort(Some("fast".to_string())),
        Err(ModelError::UnknownEffort)
    );
    assert_eq!(
        normalize_reasoning_effort(Some(" xhigh ".to_string())),
        Ok(Some("xhigh".to_string()))
    );
}

#[test]
fn escapes_backslashes_and_controls_in_config() {
    assert_eq!(model_config_arg("a\\b"), "model=\"a\\\\b\"");
    assert_eq!(model_config_arg("a\nb"), "model=\"a\nb\"");
}
