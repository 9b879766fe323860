use goose::configured::{
    accepts_huggingface_oauth, check_provider_configured, ProviderAnswer, ProviderCheck, ProviderQuery,
    HUGGINGFACE_DISPLAY_NAME, HUGGINGFACE_PROVIDER_NAME, HUGGINGFACE_TOKEN_SECRET_KEY,
};
use goose::providers::{
    ConfigKey, DeclarativeProviderConfig, LoadedProvider, ModelInfo, ProviderEngine, ProviderMetadata,
    ProviderType,
};

fn huggingface_metadata() -> ProviderMetadata {
    ProviderMetadata::new(
        HUGGINGFACE_PROVIDER_NAME,
        HUGGINGFACE_DISPLAY_NAME,
        "Hugging Face provider",
        "Qwen/Qwen3-Coder-480B-A35B-Instruct",
        vec![],
        "https://huggingface.co/docs/inference-providers",
        vec![ConfigKey::new(
            HUGGINGFACE_TOKEN_SECRET_KEY,
            true,
            true,
            None,
            true,
        )],
    )
}

fn declarative_config(name: &str, requires_auth: bool, api_key_env: &str, catalog: Option<&str>) -> DeclarativeProviderConfig {
    DeclarativeProviderConfig {
        name: name.to_string(),
        engine: ProviderEngine::OpenAI,
        display_name: name.to_string(),
        description: None,
        api_key_env: api_key_env.to_string(),
        base_url: "https://example.invalid/v1".to_string(),
        models: vec![],
        headers: None,
        timeout_seconds: None,
        supports_streaming: None,
        requires_auth,
        catalog_provider_id: catalog.map(|c| c.to_string()),
        base_path: None,
        env_vars: None,
        dynamic_models: None,
        skip_canonical_filtering: false,
        model_doc_link: None,
        setup_steps: vec![],
        fast_model: None,
        preserves_thinking: false,
    }
}

/// A test environment: answers every lookup from fixed data.
#[derive(Default, Clone)]
struct Env {
    hf_token: bool,
    provider_file: Option<LoadedProvider>,
    secrets: Vec<String>,
    entry: Option<bool>,
    bool_params: Vec<(String, bool)>,
    current: Option<String>,
    env_vars: Vec<String>,
    stored: Vec<(String, bool)>,
}

impl Env {
    fn answer(&self, q: &ProviderQuery) -> ProviderAnswer {
        match q {
            ProviderQuery::HuggingFaceOAuthToken => ProviderAnswer::Flag(self.hf_token),
            ProviderQuery::LoadProvider(_) => ProviderAnswer::Provider(self.provider_file.clone()),
            ProviderQuery::Secret(n) => ProviderAnswer::Flag(self.secrets.contains(n)),
            ProviderQuery::ProviderEntry(_) => ProviderAnswer::Entry(self.entry),
            ProviderQuery::BoolParam(n) => ProviderAnswer::BoolParam(
                self.bool_params.iter().find(|(k, _)| k == n).map(|(_, v)| *v),
            ),
            ProviderQuery::CurrentProvider => ProviderAnswer::CurrentProvider(self.current.clone()),
            ProviderQuery::EnvVar(n) => ProviderAnswer::Flag(self.env_vars.contains(n)),
            ProviderQuery::StoredValue(n, s) => ProviderAnswer::Flag(self.stored.contains(&(n.clone(), *s))),
        }
    }
}

/// Runs the check against `env`; returns the outcome and the lookups made.
fn run(metadata: &ProviderMetadata, provider_type: ProviderType, env: &Env) -> (bool, Vec<ProviderQuery>) {
    let mut answers = Vec::new();
    let mut asked = Vec::new();
    loop {
        match check_provider_configured(metadata, provider_type, &answers) {
            ProviderCheck::Configured(b) => return (b, asked),
            ProviderCheck::Ask(q) => {
                answers.push(env.answer(&q));
                asked.push(q);
            }
        }
        assert!(asked.len() < 100, "the check must settle");
    }
}

fn metadata(name: &str, keys: Vec<ConfigKey>) -> ProviderMetadata {
    ProviderMetadata::new(name, name, "test provider", "model", vec!["model"], "https://example.invalid", keys)
}

fn names(asked: &[ProviderQuery]) -> Vec<String> {
    asked
        .iter()
        .map(|q| match q {
            ProviderQuery::HuggingFaceOAuthToken => "hf".to_string(),
            ProviderQuery::LoadProvider(n) => format!("load:{n}"),
            ProviderQuery::Secret(n) => format!("secret:{n}"),
            ProviderQuery::ProviderEntry(n) => format!("entry:{n}"),
            ProviderQuery::BoolParam(n) => format!("param:{n}"),
            ProviderQuery::CurrentProvider => "current".to_string(),
            ProviderQuery::EnvVar(n) => format!("env:{n}"),
            ProviderQuery::StoredValue(n, s) => format!("stored:{n}:{s}"),
        })
        .collect()
}

#[test]
fn huggingface_oauth_token_counts_as_configured_without_hf_token() {
    let metadata = huggingface_metadata();
    let env = Env { hf_token: true, ..Env::default() };
    let (configured, asked) = run(&metadata, ProviderType::Builtin, &env);
    assert!(configured);
    assert_eq!(names(&asked), vec!["hf"]);
}

#[test]
fn huggingface_catalog_provider_oauth_counts_as_configured() {
    let mut metadata = huggingface_metadata();
    metadata.name = "custom-huggingface".to_string();

    let loaded_provider = LoadedProvider {
        config: DeclarativeProviderConfig {
            name: metadata.name.clone(),
            engine: ProviderEngine::OpenAI,
            display_name: "Custom Hugging Face".to_string(),
            description: None,
            api_key_env: String::new(),
            base_url: "https://router.huggingface.co/v1".to_string(),
            models: vec![ModelInfo::new("test-model", 128_000)],
            headers: None,
            timeout_seconds: None,
            supports_streaming: None,
            requires_auth: true,
            catalog_provider_id: Some(HUGGINGFACE_PROVIDER_NAME.to_string()),
            base_path: None,
            env_vars: None,
            dynamic_models: None,
            skip_canonical_filtering: false,
            model_doc_link: None,
            setup_steps: vec![],
            fast_model: None,
            preserves_thinking: false,
        },
        is_editable: false,
    };

    assert!(accepts_huggingface_oauth(
        &metadata,
        Some(&loaded_provider),
        &|| true,
    ));
}

#[test]
fn huggingface_oauth_needs_a_huggingface_provider_and_a_token() {
    let hf = huggingface_metadata();
    assert!(!accepts_huggingface_oauth(&hf, None, &|| false));
    let other = metadata("openai", vec![]);
    let called = std::cell::Cell::new(false);
    assert!(!accepts_huggingface_oauth(&other, None, &|| {
        called.set(true);
        true
    }));
    assert!(!called.get(), "the token check runs only for Hugging Face providers");
}

#[test]
fn local_provider_is_configured_without_lookups() {
    let m = metadata("local", vec![ConfigKey::new("LOCAL_KEY", true, false, None, false)]);
    assert!(matches!(
        check_provider_configured(&m, ProviderType::Builtin, &vec![]),
        ProviderCheck::Configured(true)
    ));
}

#[test]
fn huggingface_without_token_falls_back_to_oauth_entry() {
    let m = huggingface_metadata();
    let env = Env { entry: Some(true), ..Env::default() };
    let (configured, asked) = run(&m, ProviderType::Builtin, &env);
    assert!(configured);
    assert_eq!(names(&asked), vec!["hf", "entry:huggingface"]);
}

#[test]
fn oauth_legacy_marker_must_be_true() {
    let m = metadata("copilot", vec![ConfigKey::new("TOKEN", true, true, None, true)]);
    let env = Env { bool_params: vec![("copilot_configured".to_string(), true)], ..Env::default() };
    assert!(run(&m, ProviderType::Builtin, &env).0);
    let env = Env { bool_params: vec![("copilot_configured".to_string(), false)], ..Env::default() };
    let (configured, asked) = run(&m, ProviderType::Builtin, &env);
    assert!(!configured);
    assert_eq!(
        names(&asked),
        vec!["entry:copilot", "param:copilot_configured", "env:TOKEN", "stored:TOKEN:true"]
    );
}

#[test]
fn custom_provider_with_file_is_configured() {
    let m = metadata("my-llm", vec![ConfigKey::new("MY_KEY", true, true, None, false)]);
    let file = LoadedProvider { config: declarative_config("my-llm", true, "MY_KEY", None), is_editable: true };
    let env = Env { provider_file: Some(file.clone()), ..Env::default() };
    let (configured, asked) = run(&m, ProviderType::Custom, &env);
    assert!(configured);
    assert_eq!(names(&asked), vec!["load:my-llm", "secret:MY_KEY"]);
    // The same file for a declarative provider needs its API key.
    let (configured, _) = run(&m, ProviderType::Declarative, &env);
    assert!(!configured);
    let env = Env { provider_file: Some(file), secrets: vec!["MY_KEY".to_string()], ..Env::default() };
    assert!(run(&m, ProviderType::Declarative, &env).0);
}

#[test]
fn declared_provider_without_auth_is_configured() {
    let m = metadata("ollama-box", vec![ConfigKey::new("HOST", true, false, None, false)]);
    let file = LoadedProvider { config: declarative_config("ollama-box", false, "", None), is_editable: false };
    let env = Env { provider_file: Some(file), ..Env::default() };
    let (configured, asked) = run(&m, ProviderType::Declarative, &env);
    assert!(configured);
    assert_eq!(names(&asked), vec!["load:ollama-box"]);
}

#[test]
fn declared_provider_without_file_uses_keys() {
    let m = metadata("decl", vec![ConfigKey::new("DECL_KEY", true, true, None, false)]);
    let env = Env { env_vars: vec!["DECL_KEY".to_string()], ..Env::default() };
    let (configured, asked) = run(&m, ProviderType::Declarative, &env);
    assert!(configured);
    assert_eq!(names(&asked), vec!["load:decl", "env:DECL_KEY", "stored:DECL_KEY:true"]);
}

#[test]
fn zero_config_provider_rules() {
    let m = metadata("zero", vec![]);
    let (configured, asked) = run(&m, ProviderType::Builtin, &Env::default());
    assert!(!configured);
    assert_eq!(names(&asked), vec!["entry:zero", "param:zero_configured", "current"]);
    let env = Env { current: Some("zero".to_string()), ..Env::default() };
    assert!(run(&m, ProviderType::Builtin, &env).0);
    let env = Env { bool_params: vec![("zero_configured".to_string(), false)], ..Env::default() };
    assert!(run(&m, ProviderType::Builtin, &env).0, "any readable marker counts");
    let env = Env { current: Some("other".to_string()), ..Env::default() };
    assert!(!run(&m, ProviderType::Builtin, &env).0);
}

#[test]
fn single_required_key_with_default_or_any_secret() {
    let keys = vec![
        ConfigKey::new("AWS_REGION", true, false, Some("us-east-1"), false),
        ConfigKey::new("AWS_BEARER_TOKEN_BEDROCK", false, true, None, false),
    ];
    let m = metadata("aws_bedrock", keys);
    let (configured, asked) = run(&m, ProviderType::Builtin, &Env::default());
    assert!(!configured);
    assert_eq!(
        names(&asked),
        vec![
            "env:AWS_REGION",
            "stored:AWS_REGION:false",
            "env:AWS_BEARER_TOKEN_BEDROCK",
            "stored:AWS_BEARER_TOKEN_BEDROCK:true"
        ]
    );
    let env = Env { stored: vec![("AWS_BEARER_TOKEN_BEDROCK".to_string(), true)], ..Env::default() };
    assert!(run(&m, ProviderType::Builtin, &env).0);
    let env = Env { env_vars: vec!["AWS_REGION".to_string()], ..Env::default() };
    let (configured, asked) = run(&m, ProviderType::Builtin, &env);
    assert!(configured);
    assert_eq!(names(&asked), vec!["env:AWS_REGION", "stored:AWS_REGION:false"]);
}

#[test]
fn optional_keys_with_defaults_need_the_marker() {
    let m = metadata("lmstudio", vec![ConfigKey::new("LMSTUDIO_HOST", false, false, Some("http://localhost"), false)]);
    let (configured, asked) = run(&m, ProviderType::Builtin, &Env::default());
    assert!(!configured);
    assert_eq!(names(&asked), vec!["param:lmstudio_configured"]);
    let env = Env { bool_params: vec![("lmstudio_configured".to_string(), true)], ..Env::default() };
    assert!(run(&m, ProviderType::Builtin, &env).0);
}

#[test]
fn defaulted_required_keys_or_optional_secret() {
    let keys = vec![
        ConfigKey::new("OPENAI_HOST", true, false, Some("https://api.openai.com"), false),
        ConfigKey::new("OPENAI_BASE_PATH", true, false, Some("v1/chat/completions"), false),
        ConfigKey::new("OPENAI_API_KEY", false, true, None, false),
    ];
    let m = metadata("openai", keys);
    let (configured, asked) = run(&m, ProviderType::Builtin, &Env::default());
    assert!(!configured);
    assert_eq!(asked.len(), 6);
    let env = Env { secrets: vec![], stored: vec![("OPENAI_API_KEY".to_string(), true)], ..Env::default() };
    assert!(run(&m, ProviderType::Builtin, &env).0);
    let env = Env { env_vars: vec!["OPENAI_BASE_PATH".to_string()], ..Env::default() };
    let (configured, asked) = run(&m, ProviderType::Builtin, &env);
    assert!(configured);
    assert_eq!(
        names(&asked),
        vec!["env:OPENAI_HOST", "stored:OPENAI_HOST:false", "env:OPENAI_BASE_PATH"]
    );
}

#[test]
fn required_keys_without_defaults_must_all_be_set() {
    let keys = vec![
        ConfigKey::new("AZURE_ENDPOINT", true, false, None, false),
        ConfigKey::new("AZURE_DEPLOYMENT", true, false, None, false),
        ConfigKey::new("AZURE_API_VERSION", true, false, Some("2024-10-21"), false),
    ];
    let m = metadata("azure", keys);
    let env = Env { env_vars: vec!["AZURE_ENDPOINT".to_string()], ..Env::default() };
    let (configured, asked) = run(&m, ProviderType::Builtin, &env);
    assert!(!configured);
    assert_eq!(
        names(&asked),
        vec![
            "env:AZURE_ENDPOINT",
            "stored:AZURE_ENDPOINT:false",
            "env:AZURE_DEPLOYMENT",
            "stored:AZURE_DEPLOYMENT:false"
        ]
    );
    let env = Env {
        env_vars: vec!["AZURE_ENDPOINT".to_string()],
        stored: vec![("AZURE_DEPLOYMENT".to_string(), false)],
        ..Env::default()
    };
    assert!(run(&m, ProviderType::Builtin, &env).0);
}

#[test]
fn setting_more_keys_never_unconfigures() {
    let keys = vec![
        ConfigKey::new("A", true, false, None, false),
        ConfigKey::new("B", true, true, None, false),
    ];
    let m = metadata("pair", keys);
    let some = Env { env_vars: vec!["A".to_string(), "B".to_string()], ..Env::default() };
    let more = Env {
        env_vars: vec!["A".to_string(), "B".to_string()],
        stored: vec![("A".to_string(), false), ("B".to_string(), true)],
        secrets: vec!["B".to_string()],
        ..Env::default()
    };
    assert!(run(&m, ProviderType::Builtin, &some).0);
    assert!(run(&m, ProviderType::Builtin, &more).0);
}
