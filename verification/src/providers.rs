//! Provider descriptions: the configuration keys a provider declares, and the
//! custom (declarative) provider files users write.

use vstd::prelude::*;
use vstd::string::*;

verus! {

/// Where a provider comes from.
#[derive(Clone, Copy, Debug, PartialEq, Eq, Structural)]
pub enum ProviderType {
    Preferred,
    Builtin,
    /// Defined by a provider file shipped with goose.
    Declarative,
    /// Defined by a provider file the user created.
    Custom,
}

/// A configuration value a provider reads, such as an API key or a host.
#[derive(Clone, Debug)]
pub struct ConfigKey {
    pub name: String,
    pub required: bool,
    /// Stored in the secret store rather than the config file.
    pub secret: bool,
    /// The value used when the key is set nowhere.
    pub default: Option<String>,
    /// Set by an OAuth flow rather than typed in.
    pub oauth_flow: bool,
}

/// The parts of a configuration key that the configured check reads.
pub struct KeyView {
    pub name: Seq<char>,
    pub required: bool,
    pub secret: bool,
    pub has_default: bool,
    pub oauth_flow: bool,
}

impl View for ConfigKey {
    type V = KeyView;

    open spec fn view(&self) -> KeyView {
        KeyView {
            name: self.name@,
            required: self.required,
            secret: self.secret,
            has_default: self.default is Some,
            oauth_flow: self.oauth_flow,
        }
    }
}

fn owned(s: Option<&str>) -> (r: Option<String>)
    ensures
        r is Some <==> s is Some,
        r matches Some(o) ==> o@ == s->0@,
{
    match s {
        Some(t) => Some(String::from_str(t)),
        None => None,
    }
}

impl ConfigKey {
    pub fn new(name: &str, required: bool, secret: bool, default: Option<&str>, oauth_flow: bool) -> (k: ConfigKey)
        ensures
            k.name@ == name@,
            k.required == required,
            k.secret == secret,
            k.default is Some <==> default is Some,
            k.default matches Some(d) ==> d@ == default->0@,
            k.oauth_flow == oauth_flow,
    {
        ConfigKey { name: String::from_str(name), required, secret, default: owned(default), oauth_flow }
    }
}

/// A model a provider offers, with its context window in tokens.
#[derive(Clone, Debug)]
pub struct ModelInfo {
    pub name: String,
    pub context_limit: usize,
}

impl ModelInfo {
    pub fn new(name: &str, context_limit: usize) -> (m: ModelInfo)
        ensures
            m.name@ == name@,
            m.context_limit == context_limit,
    {
        ModelInfo { name: String::from_str(name), context_limit }
    }
}

/// What a provider declares about itself.
#[derive(Clone, Debug)]
pub struct ProviderMetadata {
    pub name: String,
    pub display_name: String,
    pub description: String,
    pub default_model: String,
    pub known_models: Vec<String>,
    pub model_doc_link: String,
    pub config_keys: Vec<ConfigKey>,
}

impl ProviderMetadata {
    /// The provider's configuration keys, in declaration order.
    pub open spec fn keys(&self) -> Seq<KeyView> {
        self.config_keys@.map_values(|k: ConfigKey| k@)
    }

    pub fn new(
        name: &str,
        display_name: &str,
        description: &str,
        default_model: &str,
        model_names: Vec<&str>,
        model_doc_link: &str,
        config_keys: Vec<ConfigKey>,
    ) -> (m: ProviderMetadata)
        ensures
            m.name@ == name@,
            m.display_name@ == display_name@,
            m.description@ == description@,
            m.default_model@ == default_model@,
            m.known_models@.len() == model_names@.len(),
            forall|i: int| 0 <= i < model_names@.len() ==> #[trigger] m.known_models@[i]@ == model_names@[i]@,
            m.model_doc_link@ == model_doc_link@,
            m.config_keys == config_keys,
    {
        let mut known_models: Vec<String> = Vec::new();
        let n = model_names.len();
        for i in 0..n
            invariant
                n == model_names@.len(),
                known_models@.len() == i,
                forall|j: int| 0 <= j < i ==> #[trigger] known_models@[j]@ == model_names@[j]@,
        {
            known_models.push(String::from_str(model_names[i]));
        }
        ProviderMetadata {
            name: String::from_str(name),
            display_name: String::from_str(display_name),
            description: String::from_str(description),
            default_model: String::from_str(default_model),
            known_models,
            model_doc_link: String::from_str(model_doc_link),
            config_keys,
        }
    }
}

/// The API dialect a custom provider speaks.
#[derive(Clone, Copy, Debug, PartialEq, Eq, Structural)]
pub enum ProviderEngine {
    OpenAI,
    Anthropic,
    Ollama,
}

/// A provider file: a provider defined by configuration rather than code.
#[derive(Clone, Debug)]
pub struct DeclarativeProviderConfig {
    pub name: String,
    pub engine: ProviderEngine,
    pub display_name: String,
    pub description: Option<String>,
    /// The secret that holds the API key; empty when there is none.
    pub api_key_env: String,
    pub base_url: String,
    pub models: Vec<ModelInfo>,
    pub headers: Option<Vec<(String, String)>>,
    pub timeout_seconds: Option<u64>,
    pub supports_streaming: Option<bool>,
    pub requires_auth: bool,
    /// The catalog provider this file was made from, if any.
    pub catalog_provider_id: Option<String>,
    pub base_path: Option<String>,
    pub env_vars: Option<Vec<String>>,
    pub dynamic_models: Option<bool>,
    pub skip_canonical_filtering: bool,
    pub model_doc_link: Option<String>,
    pub setup_steps: Vec<String>,
    pub fast_model: Option<String>,
    pub preserves_thinking: bool,
}

/// A provider file as loaded.
#[derive(Clone, Debug)]
pub struct LoadedProvider {
    pub config: DeclarativeProviderConfig,
    pub is_editable: bool,
}

/// The parts of a loaded provider file that the configured check reads.
pub struct DeclaredView {
    pub requires_auth: bool,
    pub api_key_env: Seq<char>,
    pub catalog_provider_id: Option<Seq<char>>,
}

impl View for LoadedProvider {
    type V = DeclaredView;

    open spec fn view(&self) -> DeclaredView {
        DeclaredView {
            requires_auth: self.config.requires_auth,
            api_key_env: self.config.api_key_env@,
            catalog_provider_id: match self.config.catalog_provider_id {
                Some(c) => Some(c@),
                None => None,
            },
        }
    }
}

} // verus!
