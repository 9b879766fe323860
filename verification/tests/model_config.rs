use goose::model_config::{
    bool_word_of,
    complete_fast, configured_fast_model_name, configured_toolshim, get_fast_model, get_goose_toolshim,
    get_goose_toolshim_model, global_toolshim, materialize_model_config_inner, parse_bool_config,
    parse_yaml_bool_config, ConfigError, ConfigValueError, FastCompletionAction, FastModelStep, MaterializePlan,
    ModelSettings, YamlValue, GOOSE_TOOLSHIM,
};

fn not_found() -> ConfigError {
    ConfigError::NotFound("KEY".to_string())
}

#[test]
fn bool_words_ignore_case() {
    for word in ["1", "true", "yes", "on", "TRUE", "Yes", "oN"] {
        assert!(matches!(parse_bool_config("K", word), Ok(true)), "{word}");
    }
    for word in ["0", "false", "no", "off", "FALSE", "No", "OFF"] {
        assert!(matches!(parse_bool_config("K", word), Ok(false)), "{word}");
    }
}

#[test]
fn bool_rejects_other_words_with_key_and_value() {
    match parse_bool_config("GOOSE_X", "maybe") {
        Err(ConfigValueError::InvalidBool { key, value }) => {
            assert_eq!(key, "GOOSE_X");
            assert_eq!(value, "maybe");
        }
        other => panic!("expected an error, got {other:?}"),
    }
    // No trimming: surrounding spaces make the word invalid.
    assert!(parse_bool_config("K", " true").is_err());
    assert!(parse_bool_config("K", "").is_err());
}

#[test]
fn yaml_bool_values() {
    assert!(matches!(parse_yaml_bool_config("K", YamlValue::Bool(true)), Ok(true)));
    assert!(matches!(parse_yaml_bool_config("K", YamlValue::Bool(false)), Ok(false)));
    assert!(matches!(parse_yaml_bool_config("K", YamlValue::Number("1".to_string())), Ok(true)));
    assert!(matches!(parse_yaml_bool_config("K", YamlValue::Number("0".to_string())), Ok(false)));
    assert!(parse_yaml_bool_config("K", YamlValue::Number("2".to_string())).is_err());
    assert!(matches!(parse_yaml_bool_config("K", YamlValue::String("On".to_string())), Ok(true)));
    match parse_yaml_bool_config("K", YamlValue::Other("- a\n- b\n".to_string())) {
        Err(ConfigValueError::InvalidBool { key, value }) => {
            assert_eq!(key, "K");
            assert_eq!(value, "- a\n- b");
        }
        other => panic!("expected an error, got {other:?}"),
    }
}

#[test]
fn toolshim_lookups() {
    assert!(matches!(get_goose_toolshim(Ok(YamlValue::Bool(true))), Ok(Some(true))));
    assert!(matches!(get_goose_toolshim(Err(not_found())), Ok(None)));
    match get_goose_toolshim(Ok(YamlValue::String("sometimes".to_string()))) {
        Err(ConfigValueError::InvalidBool { key, .. }) => assert_eq!(key, GOOSE_TOOLSHIM),
        other => panic!("expected an error, got {other:?}"),
    }
    assert!(matches!(
        get_goose_toolshim(Err(ConfigError::Other("bad file".to_string()))),
        Err(ConfigValueError::Config(ConfigError::Other(_)))
    ));
}

#[test]
fn global_toolshim_defaults_to_false() {
    assert!(global_toolshim(Ok(YamlValue::String("yes".to_string()))));
    assert!(!global_toolshim(Ok(YamlValue::String("no".to_string()))));
    assert!(!global_toolshim(Err(not_found())));
    assert!(!global_toolshim(Ok(YamlValue::String("perhaps".to_string()))));
    assert!(!global_toolshim(Err(ConfigError::Other("unreadable".to_string()))));
}

#[test]
fn configured_toolshim_defaults_to_false_but_keeps_errors() {
    assert!(matches!(configured_toolshim(Err(not_found())), Ok(false)));
    assert!(matches!(configured_toolshim(Ok(YamlValue::Number("1".to_string()))), Ok(true)));
    assert!(configured_toolshim(Ok(YamlValue::String("perhaps".to_string()))).is_err());
}

#[test]
fn toolshim_model_must_not_be_blank() {
    assert!(matches!(get_goose_toolshim_model(Err(not_found())), Ok(None)));
    match get_goose_toolshim_model(Ok("  llama3 ".to_string())) {
        Ok(Some(m)) => assert_eq!(m, "  llama3 "),
        other => panic!("expected a model, got {other:?}"),
    }
    match get_goose_toolshim_model(Ok(" \t\n".to_string())) {
        Err(ConfigValueError::EmptyToolshimModel { value }) => assert_eq!(value, " \t\n"),
        other => panic!("expected an error, got {other:?}"),
    }
    assert!(get_goose_toolshim_model(Ok(String::new())).is_err());
}

#[test]
fn fast_model_override_is_trimmed_and_non_empty() {
    assert_eq!(configured_fast_model_name(Ok("  gpt-4o-mini \n".to_string())), Some("gpt-4o-mini".to_string()));
    assert_eq!(configured_fast_model_name(Ok("   ".to_string())), None);
    assert_eq!(configured_fast_model_name(Ok(String::new())), None);
    assert_eq!(configured_fast_model_name(Err(not_found())), None);
    assert_eq!(configured_fast_model_name(Ok("\u{3000}model\u{a0}".to_string())), Some("model".to_string()));
}

#[test]
fn fast_model_resolution_order() {
    let over = Some("fast-override".to_string());
    // The override wins; the provider is not asked.
    match get_fast_model(over.clone(), None, "main") {
        FastModelStep::MaterializeModel(m) => assert_eq!(m, "fast-override"),
        other => panic!("{other:?}"),
    }
    // Without an override the provider's default is asked for, then used.
    assert!(matches!(get_fast_model(None, None, "main"), FastModelStep::LookUpProviderDefault));
    match get_fast_model(None, Some(Some("provider-fast".to_string())), "main") {
        FastModelStep::MaterializeModel(m) => assert_eq!(m, "provider-fast"),
        other => panic!("{other:?}"),
    }
    // No fast model at all, or the main model itself, keeps the main configuration.
    assert!(matches!(get_fast_model(None, Some(None), "main"), FastModelStep::KeepMainModel));
    assert!(matches!(get_fast_model(Some("main".to_string()), None, "main"), FastModelStep::KeepMainModel));
    assert!(matches!(
        get_fast_model(None, Some(Some("main".to_string())), "main"),
        FastModelStep::KeepMainModel
    ));
}

#[test]
fn fast_completion_falls_back_once_to_a_different_main_model() {
    assert_eq!(complete_fast("fast", "main", true), FastCompletionAction::ReturnResponse);
    assert_eq!(complete_fast("fast", "main", false), FastCompletionAction::RetryWithMainModel);
    assert_eq!(complete_fast("main", "main", false), FastCompletionAction::ReturnError);
    assert_eq!(complete_fast("main", "main", true), FastCompletionAction::ReturnResponse);
}

#[test]
fn materialize_plan() {
    let bare = ModelSettings { has_temperature: false, toolshim: true, has_toolshim_model: false };
    assert_eq!(
        materialize_model_config_inner(bare, "openai", true),
        MaterializePlan {
            fill_temperature: true,
            fill_toolshim_model: true,
            apply_default_thinking_effort: true,
            apply_openai_request_params: true,
        }
    );
    let full = ModelSettings { has_temperature: true, toolshim: true, has_toolshim_model: true };
    assert_eq!(
        materialize_model_config_inner(full, "anthropic", false),
        MaterializePlan {
            fill_temperature: false,
            fill_toolshim_model: false,
            apply_default_thinking_effort: false,
            apply_openai_request_params: false,
        }
    );
    let no_shim = ModelSettings { has_temperature: true, toolshim: false, has_toolshim_model: false };
    assert!(!materialize_model_config_inner(no_shim, "OpenAI", true).apply_openai_request_params);
    assert!(!materialize_model_config_inner(no_shim, "OpenAI", true).fill_toolshim_model);
}

#[test]
fn toolshim_errors_name_the_key_and_the_value() {
    match get_goose_toolshim(Ok(YamlValue::Other("[1, 2]\n".to_string()))) {
        Err(ConfigValueError::InvalidBool { key, value }) => {
            assert_eq!(key, "GOOSE_TOOLSHIM");
            assert_eq!(value, "[1, 2]");
        }
        other => panic!("expected an error, got {other:?}"),
    }
    match configured_toolshim(Ok(YamlValue::Number("7".to_string()))) {
        Err(ConfigValueError::InvalidBool { key, value }) => {
            assert_eq!(key, "GOOSE_TOOLSHIM");
            assert_eq!(value, "7");
        }
        other => panic!("expected an error, got {other:?}"),
    }
}

#[test]
fn bool_word_of_words() {
    assert_eq!(bool_word_of("on"), Some(true));
    assert_eq!(bool_word_of("off"), Some(false));
    assert_eq!(bool_word_of("ON"), None);
    assert_eq!(bool_word_of("2"), None);
}
