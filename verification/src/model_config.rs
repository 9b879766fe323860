//! Model settings read from user configuration: boolean flags, the tool-shim
//! model, the "fast" model, and the steps that complete a model configuration.
//!
//! Reading the configuration store is the caller's work; each function here
//! takes what the read returned.

use vstd::prelude::*;
use vstd::string::*;
use crate::text::{is_trim_of, is_white_space, lemma_trim_empty, lowercase, string_is, to_lowercase, trim};

verus! {

/// The configuration key of the tool-shim flag.
pub const GOOSE_TOOLSHIM: &'static str = "GOOSE_TOOLSHIM";

/// The name of the OpenAI provider, whose requests get extra parameters.
pub const OPEN_AI_PROVIDER_NAME: &'static str = "openai";

/// What reading a configuration value failed with.
#[derive(Clone, Debug)]
pub enum ConfigError {
    /// The key is set nowhere.
    NotFound(String),
    /// The value could not be read or decoded; the message says why.
    Other(String),
}

/// A YAML value as the boolean parser sees it.
#[derive(Clone, Debug)]
pub enum YamlValue {
    Bool(bool),
    /// A number, in its decimal text form.
    Number(String),
    String(String),
    /// Any other value, rendered as YAML text.
    Other(String),
}

/// Why a configuration value was refused.
#[derive(Clone, Debug)]
pub enum ConfigValueError {
    /// `value` of `key` is not one of 1, true, yes, on, 0, false, no, off.
    InvalidBool { key: String, value: String },
    /// The tool-shim model is set but blank.
    EmptyToolshimModel { value: String },
    /// Reading the value failed.
    Config(ConfigError),
}

/// The boolean that a lowercased configuration word stands for.
pub open spec fn bool_word(s: Seq<char>) -> Option<bool> {
    if s == "1"@ || s == "true"@ || s == "yes"@ || s == "on"@ {
        Some(true)
    } else if s == "0"@ || s == "false"@ || s == "no"@ || s == "off"@ {
        Some(false)
    } else {
        None
    }
}

/// The error for a value of `key` that is no boolean.
pub open spec fn is_invalid_bool(e: ConfigValueError, key: Seq<char>, value: Seq<char>) -> bool {
    e matches ConfigValueError::InvalidBool { key: k, value: v } && k@ == key && v@ == value
}

/// Parses a boolean setting, ignoring case: 1, true, yes, on are true and
/// 0, false, no, off are false; anything else is refused.
pub fn parse_bool_config(key: &str, value: &str) -> (r: Result<bool, ConfigValueError>)
    ensures
        match bool_word(lowercase(value@)) {
            Some(b) => r == Ok::<bool, ConfigValueError>(b),
            None => r matches Err(e) && is_invalid_bool(e, key@, value@),
        },
{
    let lower = to_lowercase(value);
    match bool_word_of(lower.as_str()) {
        Some(b) => Ok(b),
        None => Err(ConfigValueError::InvalidBool { key: String::from_str(key), value: String::from_str(value) }),
    }
}

/// The boolean a (lowercased) configuration word stands for: 1, true, yes, on
/// are true; 0, false, no, off are false; any other word stands for none.
pub fn bool_word_of(lower: &str) -> (r: Option<bool>)
    ensures
        r == bool_word(lower@),
        r == Some(true) <==> (lower@ == "1"@ || lower@ == "true"@ || lower@ == "yes"@ || lower@ == "on"@),
        r == Some(false) <==> (lower@ == "0"@ || lower@ == "false"@ || lower@ == "no"@ || lower@ == "off"@),
{
    proof {
        lemma_bool_word_lists_disjoint();
    }
    let w = String::from_str(lower);
    if string_is(&w, "1") || string_is(&w, "true") || string_is(&w, "yes") || string_is(&w, "on") {
        Some(true)
    } else if string_is(&w, "0") || string_is(&w, "false") || string_is(&w, "no") || string_is(&w, "off") {
        Some(false)
    } else {
        None
    }
}

/// The boolean a YAML value stands for, if any.
pub open spec fn yaml_bool(value: YamlValue) -> Option<bool> {
    match value {
        YamlValue::Bool(b) => Some(b),
        YamlValue::Number(n) => bool_word(lowercase(n@)),
        YamlValue::String(s) => bool_word(lowercase(s@)),
        YamlValue::Other(_) => None,
    }
}

/// The text an error quotes for a refused YAML value: numbers and strings as
/// they are, other values as their YAML rendering without surrounding white
/// space.
pub open spec fn yaml_value_shown(value: YamlValue, shown: Seq<char>) -> bool {
    match value {
        YamlValue::Bool(_) => false,
        YamlValue::Number(n) => shown == n@,
        YamlValue::String(s) => shown == s@,
        YamlValue::Other(o) => is_trim_of(o@, shown),
    }
}

/// Parses a boolean setting stored as YAML: a YAML boolean as it is, a number
/// or a string by [`parse_bool_config`], anything else refused.
pub fn parse_yaml_bool_config(key: &str, value: YamlValue) -> (r: Result<bool, ConfigValueError>)
    ensures
        match yaml_bool(value) {
            Some(b) => r == Ok::<bool, ConfigValueError>(b),
            None => r matches Err(ConfigValueError::InvalidBool { key: k, value: v }) && k@ == key@
                && yaml_value_shown(value, v@),
        },
{
    match value {
        YamlValue::Bool(b) => Ok(b),
        YamlValue::Number(n) => parse_bool_config(key, n.as_str()),
        YamlValue::String(s) => parse_bool_config(key, s.as_str()),
        YamlValue::Other(o) => {
            let shown = trim(o.as_str());
            Err(ConfigValueError::InvalidBool { key: String::from_str(key), value: String::from_str(shown) })
        },
    }
}

/// The tool-shim flag as read: `Ok(None)` when it is set nowhere.
pub fn get_goose_toolshim(lookup: Result<YamlValue, ConfigError>) -> (r: Result<Option<bool>, ConfigValueError>)
    ensures
        match lookup {
            Ok(v) => match yaml_bool(v) {
                Some(b) => r == Ok::<Option<bool>, ConfigValueError>(Some(b)),
                None => r matches Err(ConfigValueError::InvalidBool { key: k, value: w }) && k@ == GOOSE_TOOLSHIM@
                    && yaml_value_shown(v, w@),
            },
            Err(ConfigError::NotFound(_)) => r == Ok::<Option<bool>, ConfigValueError>(None),
            Err(e) => r == Err::<Option<bool>, ConfigValueError>(ConfigValueError::Config(e)),
        },
{
    match lookup {
        Ok(v) => match parse_yaml_bool_config(GOOSE_TOOLSHIM, v) {
            Ok(b) => Ok(Some(b)),
            Err(e) => Err(e),
        },
        Err(ConfigError::NotFound(k)) => Ok(None),
        Err(e) => Err(ConfigValueError::Config(e)),
    }
}

/// Whether a tool-shim flag lookup switches the tool shim on.
pub open spec fn toolshim_on(lookup: Result<YamlValue, ConfigError>) -> bool {
    lookup matches Ok(v) && yaml_bool(v) == Some(true)
}

/// The global tool-shim setting: on only when it is set to a true value; unset,
/// unreadable and invalid settings leave it off.
pub fn global_toolshim(lookup: Result<YamlValue, ConfigError>) -> (r: bool)
    ensures
        r == toolshim_on(lookup),
        r == (lookup matches Ok(v) && yaml_bool(v) == Some(true)),
        lookup matches Ok(YamlValue::Bool(b)) ==> r == b,
        lookup is Err ==> !r,
{
    match get_goose_toolshim(lookup) {
        Ok(Some(b)) => b,
        _ => false,
    }
}

/// The tool-shim flag of a new model configuration: off when unset, an error
/// when unreadable or invalid.
pub fn configured_toolshim(lookup: Result<YamlValue, ConfigError>) -> (r: Result<bool, ConfigValueError>)
    ensures
        match lookup {
            Ok(v) => match yaml_bool(v) {
                Some(b) => r == Ok::<bool, ConfigValueError>(b),
                None => r matches Err(ConfigValueError::InvalidBool { key: k, value: w }) && k@ == GOOSE_TOOLSHIM@
                    && yaml_value_shown(v, w@),
            },
            Err(ConfigError::NotFound(_)) => r == Ok::<bool, ConfigValueError>(false),
            Err(e) => r == Err::<bool, ConfigValueError>(ConfigValueError::Config(e)),
        },
{
    match get_goose_toolshim(lookup) {
        Ok(Some(b)) => Ok(b),
        Ok(None) => Ok(false),
        Err(e) => Err(e),
    }
}

/// Whether every character of `s` is white space (so `s` trims to nothing).
pub open spec fn is_blank(s: Seq<char>) -> bool {
    forall|i: int| 0 <= i < s.len() ==> is_white_space(#[trigger] s[i])
}

/// The tool-shim model as read: `Ok(None)` when set nowhere; a blank value is
/// refused.
pub fn get_goose_toolshim_model(lookup: Result<String, ConfigError>) -> (r: Result<Option<String>, ConfigValueError>)
    ensures
        match lookup {
            Ok(v) => if is_blank(v@) {
                r matches Err(ConfigValueError::EmptyToolshimModel { value: w }) && w@ == v@
            } else {
                r matches Ok(Some(m)) && m@ == v@
            },
            Err(ConfigError::NotFound(_)) => r matches Ok(None),
            Err(e) => r == Err::<Option<String>, ConfigValueError>(ConfigValueError::Config(e)),
        },
{
    match lookup {
        Ok(v) => {
            let t = trim(v.as_str());
            proof {
                lemma_trim_empty(v@, t@);
            }
            if t.is_empty() {
                Err(ConfigValueError::EmptyToolshimModel { value: v })
            } else {
                Ok(Some(v))
            }
        },
        Err(ConfigError::NotFound(k)) => Ok(None),
        Err(e) => Err(ConfigValueError::Config(e)),
    }
}

/// The user's fast-model override: the configured name without surrounding
/// white space, or nothing when it is unset, unreadable or blank.
pub fn configured_fast_model_name(lookup: Result<String, ConfigError>) -> (r: Option<String>)
    ensures
        match lookup {
            Ok(v) => (r is Some <==> !is_blank(v@)) && (r matches Some(n) ==> is_trim_of(v@, n@)),
            Err(_) => r is None,
        },
{
    match lookup {
        Ok(v) => {
            let t = trim(v.as_str());
            proof {
                lemma_trim_empty(v@, t@);
            }
            if t.is_empty() {
                None
            } else {
                Some(String::from_str(t))
            }
        },
        Err(_) => None,
    }
}

/// What a model configuration reads of itself to decide how it is completed.
#[derive(Clone, Copy, Debug, PartialEq, Eq, Structural)]
pub struct ModelSettings {
    /// A sampling temperature is set.
    pub has_temperature: bool,
    /// Tool calls go through the tool shim.
    pub toolshim: bool,
    /// A tool-shim model is set.
    pub has_toolshim_model: bool,
}

/// How a model configuration is completed from user configuration, in this
/// order: the configured temperature when none is set; the configured
/// tool-shim model when the shim is on and no model is set; the default
/// maximum of output tokens (always); the default thinking effort; and, for
/// OpenAI, the configured request parameters.
#[derive(Clone, Copy, Debug, PartialEq, Eq, Structural)]
pub struct MaterializePlan {
    pub fill_temperature: bool,
    pub fill_toolshim_model: bool,
    pub apply_default_thinking_effort: bool,
    pub apply_openai_request_params: bool,
}

/// Which completion steps a model configuration gets from user configuration.
pub fn materialize_model_config_inner(
    model: ModelSettings,
    provider_name: &str,
    include_default_thinking_effort: bool,
) -> (plan: MaterializePlan)
    ensures
        plan.fill_temperature == !model.has_temperature,
        plan.fill_toolshim_model == (model.toolshim && !model.has_toolshim_model),
        plan.apply_default_thinking_effort == include_default_thinking_effort,
        plan.apply_openai_request_params == (provider_name@ == OPEN_AI_PROVIDER_NAME@),
{
    let name = String::from_str(provider_name);
    MaterializePlan {
        fill_temperature: !model.has_temperature,
        fill_toolshim_model: model.toolshim && !model.has_toolshim_model,
        apply_default_thinking_effort: include_default_thinking_effort,
        apply_openai_request_params: string_is(&name, OPEN_AI_PROVIDER_NAME),
    }
}

/// The next step in choosing the model for lightweight "fast" tasks (session
/// naming, compaction, summarization).
#[derive(Debug)]
pub enum FastModelStep {
    /// Ask the provider for its declared default fast model.
    LookUpProviderDefault,
    /// Use the main model configuration as it is.
    KeepMainModel,
    /// Build the configuration of this model against the same provider.
    MaterializeModel(String),
}

/// The fast model's name by the resolution order: the user's override first,
/// then the provider's default.
pub open spec fn fast_model_name(configured: Option<String>, provider_default: Option<String>) -> Option<Seq<char>> {
    match configured {
        Some(c) => Some(c@),
        None => match provider_default {
            Some(d) => Some(d@),
            None => None,
        },
    }
}

/// What a resolved fast-model name leads to: a model other than the main one
/// is materialized, anything else keeps the main model.
pub open spec fn fast_model_outcome(name: Option<Seq<char>>, main_model_name: Seq<char>, step: FastModelStep) -> bool {
    match name {
        Some(n) if n != main_model_name => step matches FastModelStep::MaterializeModel(m) && m@ == n,
        _ => step is KeepMainModel,
    }
}

/// Chooses the fast model. Resolution order: `configured` (the user's
/// override), then the provider's declared default, then the main model.
/// `provider_default` is `None` until the provider has been asked, which
/// happens only when there is no override; a name equal to the main model's
/// keeps the main configuration.
pub fn get_fast_model(
    configured: Option<String>,
    provider_default: Option<Option<String>>,
    main_model_name: &str,
) -> (step: FastModelStep)
    ensures
        configured is None && provider_default is None ==> step is LookUpProviderDefault,
        configured is Some && configured->0@ != main_model_name@ ==> (step is MaterializeModel && step->0@
            == configured->0@),
        configured is Some && configured->0@ == main_model_name@ ==> step is KeepMainModel,
        configured is None && provider_default is Some && provider_default->0 is Some
            && provider_default->0->0@ != main_model_name@ ==> (step is MaterializeModel && step->0@
            == provider_default->0->0@),
        configured is None && provider_default is Some && provider_default->0 is Some
            && provider_default->0->0@ == main_model_name@ ==> step is KeepMainModel,
        configured is None && provider_default is Some && provider_default->0 is None ==> step is KeepMainModel,
        configured is Some ==> fast_model_outcome(fast_model_name(configured, None), main_model_name@, step),
        configured is None && provider_default is Some ==> fast_model_outcome(
            fast_model_name(None, provider_default->0),
            main_model_name@,
            step,
        ),
{
    let name = match configured {
        Some(c) => Some(c),
        None => match provider_default {
            None => {
                return FastModelStep::LookUpProviderDefault;
            },
            Some(d) => d,
        },
    };
    match name {
        Some(n) => {
            if string_is(&n, main_model_name) {
                FastModelStep::KeepMainModel
            } else {
                FastModelStep::MaterializeModel(n)
            }
        },
        None => FastModelStep::KeepMainModel,
    }
}

/// What to do after the fast model's completion attempt.
#[derive(Clone, Copy, Debug, PartialEq, Eq, Structural)]
pub enum FastCompletionAction {
    /// Hand back the fast model's response.
    ReturnResponse,
    /// Run the completion once more on the main model and hand back its outcome.
    RetryWithMainModel,
    /// Hand back the fast model's error.
    ReturnError,
}

/// How many completions a fast completion runs: one, and a second on the main
/// model only when the fast attempt failed and the fast model is not the main
/// one.
pub open spec fn fast_completions(fast_model_name: Seq<char>, main_model_name: Seq<char>, fast_attempt_succeeded: bool) -> nat {
    if !fast_attempt_succeeded && fast_model_name != main_model_name {
        2
    } else {
        1
    }
}

/// Decides after a completion on the fast model: a failure falls back to the
/// main model, unless the fast model is the main model. A fast completion thus
/// runs at most two completions: the fast attempt and, after this decision, at
/// most one on the main model, whose outcome is handed back as it is.
pub fn complete_fast(fast_model_name: &str, main_model_name: &str, fast_attempt_succeeded: bool) -> (action: FastCompletionAction)
    ensures
        fast_attempt_succeeded ==> action == FastCompletionAction::ReturnResponse,
        !fast_attempt_succeeded && fast_model_name@ != main_model_name@ ==> action
            == FastCompletionAction::RetryWithMainModel,
        !fast_attempt_succeeded && fast_model_name@ == main_model_name@ ==> action
            == FastCompletionAction::ReturnError,
        fast_completions(fast_model_name@, main_model_name@, fast_attempt_succeeded) == if action
            == FastCompletionAction::RetryWithMainModel {
            2nat
        } else {
            1nat
        },
{
    if fast_attempt_succeeded {
        FastCompletionAction::ReturnResponse
    } else if string_is(&String::from_str(fast_model_name), main_model_name) {
        FastCompletionAction::ReturnError
    } else {
        FastCompletionAction::RetryWithMainModel
    }
}

/// A fast completion runs one or two completions, never more.
pub proof fn law_fast_completion_runs_at_most_twice(
    fast_model_name: Seq<char>,
    main_model_name: Seq<char>,
    fast_attempt_succeeded: bool,
)
    ensures
        1 <= fast_completions(fast_model_name, main_model_name, fast_attempt_succeeded) <= 2,
        fast_attempt_succeeded ==> fast_completions(fast_model_name, main_model_name, fast_attempt_succeeded) == 1,
{
}

/// No false word is a true word.
proof fn lemma_bool_word_lists_disjoint()
    ensures
        "1"@ != "0"@,
        "1"@ != "false"@,
        "1"@ != "no"@,
        "1"@ != "off"@,
        "true"@ != "0"@,
        "true"@ != "false"@,
        "true"@ != "no"@,
        "true"@ != "off"@,
        "yes"@ != "0"@,
        "yes"@ != "false"@,
        "yes"@ != "no"@,
        "yes"@ != "off"@,
        "on"@ != "0"@,
        "on"@ != "false"@,
        "on"@ != "no"@,
        "on"@ != "off"@,
{
    reveal_strlit("1");
    reveal_strlit("true");
    reveal_strlit("yes");
    reveal_strlit("on");
    reveal_strlit("0");
    reveal_strlit("false");
    reveal_strlit("no");
    reveal_strlit("off");
    assert("1"@[0] == '1' && "true"@[0] == 't' && "yes"@[0] == 'y' && "on"@[0] == 'o');
    assert("0"@[0] == '0' && "false"@[0] == 'f' && "no"@[0] == 'n' && "off"@[0] == 'o');
    assert("1"@.len() == 1 && "true"@.len() == 4 && "yes"@.len() == 3 && "on"@.len() == 2);
    assert("0"@.len() == 1 && "false"@.len() == 5 && "no"@.len() == 2 && "off"@.len() == 3);
}

/// Exactly eight words stand for a boolean: 1, true, yes, on for true and
/// 0, false, no, off for false; every other word (such as "y" or "n") stands
/// for none.
pub proof fn law_bool_words(s: Seq<char>)
    ensures
        bool_word(s) == Some(true) <==> (s == "1"@ || s == "true"@ || s == "yes"@ || s == "on"@),
        bool_word(s) == Some(false) <==> (s == "0"@ || s == "false"@ || s == "no"@ || s == "off"@),
        bool_word(s) is None <==> !(s == "1"@ || s == "true"@ || s == "yes"@ || s == "on"@ || s == "0"@
            || s == "false"@ || s == "no"@ || s == "off"@),
{
    lemma_bool_word_lists_disjoint();
}

/// A YAML boolean is taken as it is; a number or string by its lowercased
/// word; any other value is no boolean. The global tool-shim setting is on
/// exactly when the read value is a YAML `true` or a true word.
pub proof fn law_yaml_bool_and_global_toolshim(value: YamlValue, b: bool)
    ensures
        yaml_bool(YamlValue::Bool(b)) == Some(b),
        value is Other ==> yaml_bool(value) is None,
        value matches YamlValue::String(t) ==> yaml_bool(value) == bool_word(lowercase(t@)),
        value matches YamlValue::Number(t) ==> yaml_bool(value) == bool_word(lowercase(t@)),
        toolshim_on(Ok(YamlValue::Bool(b))) == b,
        toolshim_on(Ok(value)) == (yaml_bool(value) == Some(true)),
        forall|e: ConfigError| !toolshim_on(Err(e)),
{
}

/// A resolved fast-model name other than the main model's (compared as whole
/// strings) is materialized; the main model's own name, or no name, keeps the
/// main configuration.
pub proof fn law_fast_model_outcome(name: Option<Seq<char>>, main_model_name: Seq<char>, step: FastModelStep)
    requires
        fast_model_outcome(name, main_model_name, step),
    ensures
        name is Some && name->0 != main_model_name ==> (step is MaterializeModel && step->0@ == name->0),
        name is Some && name->0 == main_model_name ==> step is KeepMainModel,
        name is None ==> step is KeepMainModel,
{
}

/// The user's override is the name that counts, whatever the provider's
/// default; without it, the provider's default.
pub proof fn law_fast_model_name_order(configured: Option<String>, provider_default: Option<String>)
    ensures
        configured is Some ==> fast_model_name(configured, provider_default) == Some(configured->0@),
        configured is None && provider_default is Some ==> fast_model_name(configured, provider_default) == Some(
            provider_default->0@,
        ),
        configured is None && provider_default is None ==> fast_model_name(configured, provider_default) is None,
{
}

/// A value is blank exactly when it trims to nothing.
pub proof fn law_blank_is_trimmed_empty(s: Seq<char>, r: Seq<char>)
    requires
        is_trim_of(s, r),
    ensures
        is_blank(s) <==> r.len() == 0,
{
    lemma_trim_empty(s, r);
}

} // verus!
