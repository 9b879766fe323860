//! Whether a provider has enough configuration or credentials to be usable.
//!
//! The check reads the environment, the config file, the secret store and
//! provider files, lazily and in a fixed order. Those reads are the caller's:
//! [`check_provider_configured`] is handed the answers to the lookups made so
//! far and says which lookup comes next, or the outcome. Its contract is stated
//! against a model of everything those lookups could read,
//! [`ProviderEnvironment`]: answered truthfully, the lookups it asks for are
//! exactly [`provider_lookups`], and its outcome is the one they lead to.

use vstd::prelude::*;
use vstd::string::*;
use crate::providers::{ConfigKey, DeclaredView, KeyView, LoadedProvider, ProviderMetadata, ProviderType};
use crate::text::string_is;

verus! {

/// The provider that is always usable.
pub const LOCAL_PROVIDER_NAME: &'static str = "local";

/// The Hugging Face provider, usable through its OAuth token.
pub const HUGGINGFACE_PROVIDER_NAME: &'static str = "huggingface";

/// The Hugging Face provider's display name.
pub const HUGGINGFACE_DISPLAY_NAME: &'static str = "Hugging Face";

/// The secret that holds a Hugging Face access token.
pub const HUGGINGFACE_TOKEN_SECRET_KEY: &'static str = "HF_TOKEN";

/// A lookup the configured check needs.
#[derive(Clone, Debug)]
pub enum ProviderQuery {
    /// Whether a usable or refreshable Hugging Face OAuth token is stored.
    HuggingFaceOAuthToken,
    /// Load the provider file of this provider.
    LoadProvider(String),
    /// Whether this secret holds a value.
    Secret(String),
    /// The `configured` flag of this provider's entry in the config file.
    ProviderEntry(String),
    /// The boolean config parameter of this name.
    BoolParam(String),
    /// The provider currently selected.
    CurrentProvider,
    /// Whether this environment variable is set.
    EnvVar(String),
    /// Whether this key is set in the config file (`false`) or the secret store
    /// (`true`).
    StoredValue(String, bool),
}

/// A lookup as plain text.
pub enum QueryView {
    HuggingFaceOAuthToken,
    LoadProvider(Seq<char>),
    Secret(Seq<char>),
    ProviderEntry(Seq<char>),
    BoolParam(Seq<char>),
    CurrentProvider,
    EnvVar(Seq<char>),
    StoredValue(Seq<char>, bool),
}

impl View for ProviderQuery {
    type V = QueryView;

    open spec fn view(&self) -> QueryView {
        match self {
            ProviderQuery::HuggingFaceOAuthToken => QueryView::HuggingFaceOAuthToken,
            ProviderQuery::LoadProvider(n) => QueryView::LoadProvider(n@),
            ProviderQuery::Secret(n) => QueryView::Secret(n@),
            ProviderQuery::ProviderEntry(n) => QueryView::ProviderEntry(n@),
            ProviderQuery::BoolParam(n) => QueryView::BoolParam(n@),
            ProviderQuery::CurrentProvider => QueryView::CurrentProvider,
            ProviderQuery::EnvVar(n) => QueryView::EnvVar(n@),
            ProviderQuery::StoredValue(n, s) => QueryView::StoredValue(n@, *s),
        }
    }
}

/// The answer to a lookup.
#[derive(Clone, Debug)]
pub enum ProviderAnswer {
    /// For `HuggingFaceOAuthToken`, `Secret`, `EnvVar` and `StoredValue`.
    Flag(bool),
    /// For `LoadProvider`: the provider file, or `None` when it did not load.
    Provider(Option<LoadedProvider>),
    /// For `ProviderEntry`: the entry's `configured` flag, `None` without entry.
    Entry(Option<bool>),
    /// For `BoolParam`: the value, `None` when it could not be read as a boolean.
    BoolParam(Option<bool>),
    /// For `CurrentProvider`: its name, `None` when none could be read.
    CurrentProvider(Option<String>),
}

/// An answer as plain values.
pub enum AnswerView {
    Flag(bool),
    Provider(Option<DeclaredView>),
    Entry(Option<bool>),
    BoolParam(Option<bool>),
    CurrentProvider(Option<Seq<char>>),
}

impl View for ProviderAnswer {
    type V = AnswerView;

    open spec fn view(&self) -> AnswerView {
        match self {
            ProviderAnswer::Flag(b) => AnswerView::Flag(*b),
            ProviderAnswer::Provider(p) => AnswerView::Provider(
                match p {
                    Some(l) => Some(l@),
                    None => None,
                },
            ),
            ProviderAnswer::Entry(e) => AnswerView::Entry(*e),
            ProviderAnswer::BoolParam(b) => AnswerView::BoolParam(*b),
            ProviderAnswer::CurrentProvider(c) => AnswerView::CurrentProvider(
                match c {
                    Some(s) => Some(s@),
                    None => None,
                },
            ),
        }
    }
}

/// Everything the configured check could read, as it stands.
pub struct ProviderEnvironment {
    /// A usable or refreshable Hugging Face OAuth token is stored.
    pub hf_token_usable: bool,
    /// The provider files that load, by provider name.
    pub providers: Map<Seq<char>, DeclaredView>,
    /// The secrets that hold a value.
    pub secrets: Set<Seq<char>>,
    /// The `configured` flags of provider entries, by provider name.
    pub entries: Map<Seq<char>, bool>,
    /// The config parameters that read as booleans.
    pub bool_params: Map<Seq<char>, bool>,
    /// The provider currently selected, if one can be read.
    pub current_provider: Option<Seq<char>>,
    /// The environment variables that are set.
    pub env_vars: Set<Seq<char>>,
    /// The keys set in the config file (`false`) or the secret store (`true`).
    pub stored_values: Set<(Seq<char>, bool)>,
}

/// The truthful answer to a lookup.
pub open spec fn answer(env: ProviderEnvironment, q: QueryView) -> AnswerView {
    match q {
        QueryView::HuggingFaceOAuthToken => AnswerView::Flag(env.hf_token_usable),
        QueryView::LoadProvider(n) => AnswerView::Provider(
            if env.providers.contains_key(n) {
                Some(env.providers[n])
            } else {
                None
            },
        ),
        QueryView::Secret(n) => AnswerView::Flag(env.secrets.contains(n)),
        QueryView::ProviderEntry(n) => AnswerView::Entry(
            if env.entries.contains_key(n) {
                Some(env.entries[n])
            } else {
                None
            },
        ),
        QueryView::BoolParam(n) => AnswerView::BoolParam(
            if env.bool_params.contains_key(n) {
                Some(env.bool_params[n])
            } else {
                None
            },
        ),
        QueryView::CurrentProvider => AnswerView::CurrentProvider(env.current_provider),
        QueryView::EnvVar(n) => AnswerView::Flag(env.env_vars.contains(n)),
        QueryView::StoredValue(n, s) => AnswerView::Flag(env.stored_values.contains((n, s))),
    }
}

/// A run of lookups and, if the run settles it, the outcome.
pub struct Lookups {
    pub queries: Seq<QueryView>,
    pub decision: Option<bool>,
}

/// Runs `a`, then `b` unless `a` settled the outcome.
pub open spec fn then(a: Lookups, b: Lookups) -> Lookups {
    if a.decision is Some {
        a
    } else {
        Lookups { queries: a.queries + b.queries, decision: b.decision }
    }
}

pub open spec fn nothing() -> Lookups {
    Lookups { queries: Seq::empty(), decision: None }
}

pub open spec fn settled(queries: Seq<QueryView>, outcome: bool) -> Lookups {
    Lookups { queries, decision: Some(outcome) }
}

/// The marker parameter that records a provider as configured through the UI.
pub open spec fn configured_marker(name: Seq<char>) -> Seq<char> {
    name + "_configured"@
}

/// A Hugging Face provider: by name, or a provider file made from the Hugging
/// Face catalog entry.
pub open spec fn is_huggingface_provider(name: Seq<char>, loaded: Option<DeclaredView>) -> bool {
    name == HUGGINGFACE_PROVIDER_NAME@ || (loaded matches Some(p) && p.catalog_provider_id == Some(
        HUGGINGFACE_PROVIDER_NAME@,
    ))
}

/// A provider named Hugging Face counts as configured with a usable OAuth token.
pub open spec fn huggingface_stage(name: Seq<char>, env: ProviderEnvironment) -> Lookups {
    if is_huggingface_provider(name, None) {
        Lookups {
            queries: seq![QueryView::HuggingFaceOAuthToken],
            decision: if env.hf_token_usable { Some(true) } else { None },
        }
    } else {
        nothing()
    }
}

/// Custom and declarative providers whose file loads are settled by the file:
/// a Hugging Face catalog provider with a usable token, a provider that needs no
/// authentication, or one whose API key secret holds a value is configured;
/// otherwise a custom provider is (the user created it on purpose) and a
/// declarative one is not.
pub open spec fn declared_stage(name: Seq<char>, provider_type: ProviderType, env: ProviderEnvironment) -> Lookups {
    if provider_type == ProviderType::Custom || provider_type == ProviderType::Declarative {
        let load = seq![QueryView::LoadProvider(name)];
        if env.providers.contains_key(name) {
            let p = env.providers[name];
            let hf = is_huggingface_provider(name, Some(p));
            let asked = if hf { load.push(QueryView::HuggingFaceOAuthToken) } else { load };
            if hf && env.hf_token_usable {
                settled(asked, true)
            } else if !p.requires_auth {
                settled(asked, true)
            } else if p.api_key_env.len() > 0 {
                settled(
                    asked.push(QueryView::Secret(p.api_key_env)),
                    env.secrets.contains(p.api_key_env) || provider_type == ProviderType::Custom,
                )
            } else {
                settled(asked, provider_type == ProviderType::Custom)
            }
        } else {
            Lookups { queries: load, decision: None }
        }
    } else {
        nothing()
    }
}

pub open spec fn has_oauth_key(keys: Seq<KeyView>) -> bool {
    exists|i: int| 0 <= i < keys.len() && #[trigger] keys[i].oauth_flow
}

pub open spec fn entry_configured(env: ProviderEnvironment, name: Seq<char>) -> bool {
    env.entries.contains_key(name) && env.entries[name]
}

/// Providers with an OAuth key are configured when their entry says so, or
/// when the legacy marker is set to true.
pub open spec fn oauth_stage(name: Seq<char>, keys: Seq<KeyView>, env: ProviderEnvironment) -> Lookups {
    if has_oauth_key(keys) {
        let entry = seq![QueryView::ProviderEntry(name)];
        if entry_configured(env, name) {
            settled(entry, true)
        } else {
            let marker = configured_marker(name);
            Lookups {
                queries: entry.push(QueryView::BoolParam(marker)),
                decision: if env.bool_params.contains_key(marker) && env.bool_params[marker] {
                    Some(true)
                } else {
                    None
                },
            }
        }
    } else {
        nothing()
    }
}

/// Providers without configuration keys are configured when their entry says
/// so, when the marker is set at all, or when they are the current provider.
pub open spec fn zero_config_stage(name: Seq<char>, keys: Seq<KeyView>, env: ProviderEnvironment) -> Lookups {
    if keys.len() == 0 {
        let entry = seq![QueryView::ProviderEntry(name)];
        let marker = configured_marker(name);
        if entry_configured(env, name) {
            settled(entry, true)
        } else if env.bool_params.contains_key(marker) {
            settled(entry.push(QueryView::BoolParam(marker)), true)
        } else {
            settled(
                entry.push(QueryView::BoolParam(marker)).push(QueryView::CurrentProvider),
                env.current_provider == Some(name),
            )
        }
    } else {
        nothing()
    }
}

/// A group of configuration keys that a scan looks at.
#[derive(Clone, Copy, Debug, PartialEq, Eq, Structural)]
pub enum KeyGroup {
    Secret,
    Required,
    RequiredWithoutDefault,
}

pub open spec fn in_group(k: KeyView, g: KeyGroup) -> bool {
    match g {
        KeyGroup::Secret => k.secret,
        KeyGroup::Required => k.required,
        KeyGroup::RequiredWithoutDefault => k.required && !k.has_default,
    }
}

/// A key is set in the environment or in the config file or secret store.
pub open spec fn key_is_set(env: ProviderEnvironment, k: KeyView) -> bool {
    env.env_vars.contains(k.name) || env.stored_values.contains((k.name, k.secret))
}

/// Looks through the keys of a group, in order, for one that is set: its
/// environment variable first, then its stored value. Settles `true` at the
/// first set key and leaves the outcome open when none is.
pub open spec fn any_set_lookups(keys: Seq<KeyView>, g: KeyGroup, env: ProviderEnvironment) -> Lookups
    decreases keys.len(),
{
    if keys.len() == 0 {
        nothing()
    } else {
        let k = keys[0];
        let rest = any_set_lookups(keys.drop_first(), g, env);
        if !in_group(k, g) {
            rest
        } else if env.env_vars.contains(k.name) {
            settled(seq![QueryView::EnvVar(k.name)], true)
        } else if env.stored_values.contains((k.name, k.secret)) {
            settled(seq![QueryView::EnvVar(k.name), QueryView::StoredValue(k.name, k.secret)], true)
        } else {
            then(
                Lookups {
                    queries: seq![QueryView::EnvVar(k.name), QueryView::StoredValue(k.name, k.secret)],
                    decision: None,
                },
                rest,
            )
        }
    }
}

/// Checks that every key of a group is set, in order, reading both the
/// environment variable and the stored value of each. Settles `false` at the
/// first unset key and leaves the outcome open when all are set.
pub open spec fn all_set_lookups(keys: Seq<KeyView>, g: KeyGroup, env: ProviderEnvironment) -> Lookups
    decreases keys.len(),
{
    if keys.len() == 0 {
        nothing()
    } else {
        let k = keys[0];
        let rest = all_set_lookups(keys.drop_first(), g, env);
        let both = seq![QueryView::EnvVar(k.name), QueryView::StoredValue(k.name, k.secret)];
        if !in_group(k, g) {
            rest
        } else if key_is_set(env, k) {
            then(Lookups { queries: both, decision: None }, rest)
        } else {
            settled(both, false)
        }
    }
}

/// The number of required keys.
pub open spec fn required_count(keys: Seq<KeyView>) -> nat
    decreases keys.len(),
{
    if keys.len() == 0 {
        0
    } else {
        required_count(keys.drop_last()) + if keys.last().required { 1nat } else { 0nat }
    }
}

/// The index of the first required key (the length when there is none).
pub open spec fn first_required(keys: Seq<KeyView>) -> int
    decreases keys.len(),
{
    if keys.len() == 0 {
        0
    } else if keys[0].required {
        0
    } else {
        1 + first_required(keys.drop_first())
    }
}

pub open spec fn all_optional_with_defaults(keys: Seq<KeyView>) -> bool {
    forall|i: int| 0 <= i < keys.len() ==> !(#[trigger] keys[i]).required && keys[i].has_default
}

pub open spec fn required_have_defaults(keys: Seq<KeyView>) -> bool {
    forall|i: int| 0 <= i < keys.len() && (#[trigger] keys[i]).required ==> keys[i].has_default
}

/// Settles the outcome by the provider's keys:
/// - one required key, with a default: configured when that key is set, or
///   when any secret key holds a value;
/// - no required key, all keys with defaults: configured when the marker is set;
/// - every required key with a default: configured when a required key is set,
///   or when any secret key holds a value;
/// - otherwise: configured when every required key without a default is set.
pub open spec fn keys_stage(name: Seq<char>, keys: Seq<KeyView>, env: ProviderEnvironment) -> Lookups {
    let f = first_required(keys);
    if required_count(keys) == 1 && keys[f].has_default {
        let k = keys[f];
        let both = seq![QueryView::EnvVar(k.name), QueryView::StoredValue(k.name, k.secret)];
        if key_is_set(env, k) {
            settled(both, true)
        } else {
            let s = any_set_lookups(keys, KeyGroup::Secret, env);
            settled(both + s.queries, s.decision == Some(true))
        }
    } else if required_count(keys) == 0 && all_optional_with_defaults(keys) {
        let marker = configured_marker(name);
        settled(seq![QueryView::BoolParam(marker)], env.bool_params.contains_key(marker))
    } else if required_have_defaults(keys) {
        let r = any_set_lookups(keys, KeyGroup::Required, env);
        if r.decision == Some(true) {
            r
        } else {
            let s = any_set_lookups(keys, KeyGroup::Secret, env);
            settled(r.queries + s.queries, s.decision == Some(true))
        }
    } else {
        let a = all_set_lookups(keys, KeyGroup::RequiredWithoutDefault, env);
        settled(a.queries, a.decision is None)
    }
}

/// The lookups the configured check makes, in order, and its outcome. The
/// `local` provider is configured without any lookup; otherwise the stages run
/// in order until one settles the outcome.
pub open spec fn provider_lookups(
    name: Seq<char>,
    keys: Seq<KeyView>,
    provider_type: ProviderType,
    env: ProviderEnvironment,
) -> Lookups {
    if name == LOCAL_PROVIDER_NAME@ {
        settled(Seq::empty(), true)
    } else {
        then(
            huggingface_stage(name, env),
            then(
                declared_stage(name, provider_type, env),
                then(
                    oauth_stage(name, keys, env),
                    then(zero_config_stage(name, keys, env), keys_stage(name, keys, env)),
                ),
            ),
        )
    }
}

/// Whether the provider is configured in `env`.
pub open spec fn provider_configured(
    name: Seq<char>,
    keys: Seq<KeyView>,
    provider_type: ProviderType,
    env: ProviderEnvironment,
) -> bool {
    provider_lookups(name, keys, provider_type, env).decision == Some(true)
}

/// The answers from position `pos` on are the truthful answers to `queries`,
/// as far as they go.
pub open spec fn agrees(env: ProviderEnvironment, answers: Seq<ProviderAnswer>, pos: int, queries: Seq<QueryView>) -> bool {
    forall|j: int|
        pos <= j < pos + queries.len() && 0 <= j < answers.len() ==> (#[trigger] answers[j])@ == answer(
            env,
            queries[j - pos],
        )
}

/// Where a stage of the check stands with the answers given.
enum Stage {
    /// This lookup is the next one.
    Ask(ProviderQuery),
    /// The stage is done without an outcome; the next stage reads from here.
    Next(usize),
    /// The stage settled the outcome.
    Decided(bool),
}

/// `r` is where the run `l`, begun at `pos`, stands with `answers`.
spec fn stage_ok(env: ProviderEnvironment, answers: Seq<ProviderAnswer>, pos: int, l: Lookups, r: Stage) -> bool {
    match r {
        Stage::Ask(q) => pos <= answers.len() < pos + l.queries.len() && q@ == l.queries[answers.len() - pos],
        Stage::Next(p) => l.decision is None && p == pos + l.queries.len() && p <= answers.len(),
        Stage::Decided(b) => l.decision == Some(b) && pos + l.queries.len() <= answers.len(),
    }
}

proof fn lemma_then_stops(env: ProviderEnvironment, answers: Seq<ProviderAnswer>, pos: int, a: Lookups, b: Lookups, r: Stage)
    requires
        0 <= pos,
        agrees(env, answers, pos, then(a, b).queries),
        agrees(env, answers, pos, a.queries) ==> stage_ok(env, answers, pos, a, r),
        !(r is Next),
    ensures
        stage_ok(env, answers, pos, then(a, b), r),
{
    if a.decision is None {
        assert forall|j: int| pos <= j < pos + a.queries.len() && 0 <= j < answers.len() implies (
        #[trigger] answers[j])@ == answer(env, a.queries[j - pos]) by {
            assert(then(a, b).queries[j - pos] == a.queries[j - pos]);
        }
    }
    match r {
        Stage::Ask(q) => {
            if a.decision is None {
                assert(then(a, b).queries[answers.len() - pos] == a.queries[answers.len() - pos]);
            }
        },
        _ => {},
    }
}

proof fn lemma_then_continues(
    env: ProviderEnvironment,
    answers: Seq<ProviderAnswer>,
    pos: int,
    a: Lookups,
    b: Lookups,
    p: int,
    r: Stage,
)
    requires
        0 <= pos,
        agrees(env, answers, pos, then(a, b).queries),
        agrees(env, answers, pos, a.queries) ==> stage_ok(env, answers, pos, a, Stage::Next(p as usize)),
        agrees(env, answers, p, b.queries) ==> stage_ok(env, answers, p, b, r),
        0 <= p <= usize::MAX,
    ensures
        stage_ok(env, answers, pos, then(a, b), r),
{
    if a.decision is None {
        assert forall|j: int| pos <= j < pos + a.queries.len() && 0 <= j < answers.len() implies (
        #[trigger] answers[j])@ == answer(env, a.queries[j - pos]) by {
            assert(then(a, b).queries[j - pos] == a.queries[j - pos]);
        }
    }
    assert(a.decision is None);
    assert(p == pos + a.queries.len());
    assert forall|j: int| p <= j < p + b.queries.len() && 0 <= j < answers.len() implies (
    #[trigger] answers[j])@ == answer(env, b.queries[j - p]) by {
        assert(then(a, b).queries[j - pos] == b.queries[j - p]);
    }
    match r {
        Stage::Ask(q) => {
            assert(then(a, b).queries[answers.len() - pos] == b.queries[answers.len() - p]);
        },
        _ => {},
    }
}

fn huggingface_step(name: &String, answers: &Vec<ProviderAnswer>, pos: usize) -> (r: Stage)
    requires
        pos <= answers@.len(),
    ensures
        forall|env: ProviderEnvironment|
            agrees(env, answers@, pos as int, #[trigger] huggingface_stage(name@, env).queries) ==> stage_ok(
                env,
                answers@,
                pos as int,
                huggingface_stage(name@, env),
                r,
            ),
        r matches Stage::Next(p) ==> pos <= p <= answers@.len(),
{
    if !string_is(name, HUGGINGFACE_PROVIDER_NAME) {
        return Stage::Next(pos);
    }
    if pos >= answers.len() {
        return Stage::Ask(ProviderQuery::HuggingFaceOAuthToken);
    }
    match &answers[pos] {
        ProviderAnswer::Flag(true) => Stage::Decided(true),
        _ => Stage::Next(pos + 1),
    }
}

/// Whether the provider is a Hugging Face provider: by name, or, with its
/// provider file, by the catalog entry it was made from.
pub fn is_huggingface(name: &String, loaded: Option<&LoadedProvider>) -> (r: bool)
    ensures
        r == is_huggingface_provider(
            name@,
            match loaded {
                Some(l) => Some(l@),
                None => None,
            },
        ),
{
    if string_is(name, HUGGINGFACE_PROVIDER_NAME) {
        return true;
    }
    match loaded {
        Some(p) => match &p.config.catalog_provider_id {
            Some(c) => string_is(c, HUGGINGFACE_PROVIDER_NAME),
            None => false,
        },
        None => false,
    }
}

fn declared_step(name: &String, provider_type: ProviderType, answers: &Vec<ProviderAnswer>, pos: usize) -> (r: Stage)
    requires
        pos <= answers@.len(),
    ensures
        forall|env: ProviderEnvironment|
            agrees(env, answers@, pos as int, #[trigger] declared_stage(name@, provider_type, env).queries)
                ==> stage_ok(env, answers@, pos as int, declared_stage(name@, provider_type, env), r),
        r matches Stage::Next(p) ==> pos <= p <= answers@.len(),
{
    if !(provider_type == ProviderType::Custom || provider_type == ProviderType::Declarative) {
        return Stage::Next(pos);
    }
    if pos >= answers.len() {
        return Stage::Ask(ProviderQuery::LoadProvider(name.clone()));
    }
    let p = match &answers[pos] {
        ProviderAnswer::Provider(Some(p)) => p,
        _ => {
            return Stage::Next(pos + 1);
        },
    };
    let mut at = pos + 1;
    let hf = is_huggingface(name, Some(p));
    if hf {
        if at >= answers.len() {
            return Stage::Ask(ProviderQuery::HuggingFaceOAuthToken);
        }
        match &answers[at] {
            ProviderAnswer::Flag(true) => {
                return Stage::Decided(true);
            },
            _ => {},
        }
        at = at + 1;
    }
    if !p.config.requires_auth {
        return Stage::Decided(true);
    }
    if !p.config.api_key_env.as_str().is_empty() {
        if at >= answers.len() {
            return Stage::Ask(ProviderQuery::Secret(p.config.api_key_env.clone()));
        }
        return match &answers[at] {
            ProviderAnswer::Flag(true) => Stage::Decided(true),
            _ => Stage::Decided(provider_type == ProviderType::Custom),
        };
    }
    Stage::Decided(provider_type == ProviderType::Custom)
}

fn any_oauth_key(metadata: &ProviderMetadata) -> (r: bool)
    ensures
        r == has_oauth_key(metadata.keys()),
{
    let n = metadata.config_keys.len();
    for i in 0..n
        invariant
            n == metadata.config_keys@.len(),
            forall|j: int| 0 <= j < i ==> !(#[trigger] metadata.keys()[j]).oauth_flow,
    {
        if metadata.config_keys[i].oauth_flow {
            assert(metadata.keys()[i as int].oauth_flow);
            return true;
        }
    }
    false
}

fn marker_of(name: &String) -> (m: String)
    ensures
        m@ == configured_marker(name@),
{
    let mut m = name.clone();
    m.append("_configured");
    m
}

fn oauth_step(metadata: &ProviderMetadata, answers: &Vec<ProviderAnswer>, pos: usize) -> (r: Stage)
    requires
        pos <= answers@.len(),
    ensures
        forall|env: ProviderEnvironment|
            agrees(env, answers@, pos as int, #[trigger] oauth_stage(metadata.name@, metadata.keys(), env).queries)
                ==> stage_ok(env, answers@, pos as int, oauth_stage(metadata.name@, metadata.keys(), env), r),
        r matches Stage::Next(p) ==> pos <= p <= answers@.len(),
{
    if !any_oauth_key(metadata) {
        return Stage::Next(pos);
    }
    if pos >= answers.len() {
        return Stage::Ask(ProviderQuery::ProviderEntry(metadata.name.clone()));
    }
    match &answers[pos] {
        ProviderAnswer::Entry(Some(true)) => {
            return Stage::Decided(true);
        },
        _ => {},
    }
    if pos + 1 >= answers.len() {
        return Stage::Ask(ProviderQuery::BoolParam(marker_of(&metadata.name)));
    }
    match &answers[pos + 1] {
        ProviderAnswer::BoolParam(Some(true)) => Stage::Decided(true),
        _ => Stage::Next(pos + 2),
    }
}

fn zero_config_step(metadata: &ProviderMetadata, answers: &Vec<ProviderAnswer>, pos: usize) -> (r: Stage)
    requires
        pos <= answers@.len(),
    ensures
        forall|env: ProviderEnvironment|
            agrees(env, answers@, pos as int, #[trigger] zero_config_stage(metadata.name@, metadata.keys(), env).queries)
                ==> stage_ok(env, answers@, pos as int, zero_config_stage(metadata.name@, metadata.keys(), env), r),
        r matches Stage::Next(p) ==> pos <= p <= answers@.len(),
{
    if metadata.config_keys.len() != 0 {
        return Stage::Next(pos);
    }
    if pos >= answers.len() {
        return Stage::Ask(ProviderQuery::ProviderEntry(metadata.name.clone()));
    }
    match &answers[pos] {
        ProviderAnswer::Entry(Some(true)) => {
            return Stage::Decided(true);
        },
        _ => {},
    }
    if pos + 1 >= answers.len() {
        return Stage::Ask(ProviderQuery::BoolParam(marker_of(&metadata.name)));
    }
    match &answers[pos + 1] {
        ProviderAnswer::BoolParam(Some(_)) => {
            return Stage::Decided(true);
        },
        _ => {},
    }
    if pos + 2 >= answers.len() {
        return Stage::Ask(ProviderQuery::CurrentProvider);
    }
    match &answers[pos + 2] {
        ProviderAnswer::CurrentProvider(Some(current)) => Stage::Decided(*current == metadata.name),
        _ => Stage::Decided(false),
    }
}

fn key_in_group(k: &ConfigKey, g: KeyGroup) -> (r: bool)
    ensures
        r == in_group(k@, g),
{
    match g {
        KeyGroup::Secret => k.secret,
        KeyGroup::Required => k.required,
        KeyGroup::RequiredWithoutDefault => k.required && k.default.is_none(),
    }
}

fn is_flag_true(a: &ProviderAnswer) -> (r: bool)
    ensures
        r == (a@ == AnswerView::Flag(true)),
{
    match a {
        ProviderAnswer::Flag(b) => *b,
        _ => false,
    }
}

/// The keys of `metadata` from index `i` on.
spec fn keys_from(metadata: &ProviderMetadata, i: int) -> Seq<KeyView> {
    metadata.keys().subrange(i, metadata.keys().len() as int)
}

proof fn lemma_keys_from(metadata: &ProviderMetadata, i: int)
    requires
        0 <= i < metadata.keys().len(),
    ensures
        keys_from(metadata, i).len() > 0,
        keys_from(metadata, i)[0] == metadata.config_keys@[i]@,
        keys_from(metadata, i).drop_first() == keys_from(metadata, i + 1),
{
    assert(keys_from(metadata, i).drop_first() =~= keys_from(metadata, i + 1));
}

fn any_set_from(metadata: &ProviderMetadata, i: usize, g: KeyGroup, answers: &Vec<ProviderAnswer>, pos: usize) -> (r: Stage)
    requires
        pos <= answers@.len(),
        i <= metadata.config_keys@.len(),
    ensures
        forall|env: ProviderEnvironment|
            agrees(env, answers@, pos as int, #[trigger] any_set_lookups(keys_from(metadata, i as int), g, env).queries)
                ==> stage_ok(env, answers@, pos as int, any_set_lookups(keys_from(metadata, i as int), g, env), r),
        r matches Stage::Next(p) ==> pos <= p <= answers@.len(),
    decreases metadata.config_keys@.len() - i,
{
    if i >= metadata.config_keys.len() {
        assert(keys_from(metadata, i as int).len() == 0);
        return Stage::Next(pos);
    }
    proof {
        lemma_keys_from(metadata, i as int);
    }
    let k = &metadata.config_keys[i];
    if !key_in_group(k, g) {
        let r = any_set_from(metadata, i + 1, g, answers, pos);
        assert forall|env: ProviderEnvironment|
            #[trigger] any_set_lookups(keys_from(metadata, i as int), g, env) == any_set_lookups(
                keys_from(metadata, i + 1),
                g,
                env,
            ) by {}
        return r;
    }
    if pos >= answers.len() {
        return Stage::Ask(ProviderQuery::EnvVar(k.name.clone()));
    }
    if is_flag_true(&answers[pos]) {
        return Stage::Decided(true);
    }
    if pos + 1 >= answers.len() {
        return Stage::Ask(ProviderQuery::StoredValue(k.name.clone(), k.secret));
    }
    if is_flag_true(&answers[pos + 1]) {
        return Stage::Decided(true);
    }
    let r = any_set_from(metadata, i + 1, g, answers, pos + 2);
    proof {
        let both = seq![QueryView::EnvVar(k.name@), QueryView::StoredValue(k.name@, k.secret)];
        let a = Lookups { queries: both, decision: None };
        assert forall|env: ProviderEnvironment|
            agrees(env, answers@, pos as int, #[trigger] any_set_lookups(keys_from(metadata, i as int), g, env).queries)
            implies stage_ok(env, answers@, pos as int, any_set_lookups(keys_from(metadata, i as int), g, env), r) by {
            let l = any_set_lookups(keys_from(metadata, i as int), g, env);
            let rest = any_set_lookups(keys_from(metadata, i + 1), g, env);
            assert(answers@[pos as int]@ == answer(env, l.queries[0]));
            assert(!env.env_vars.contains(k.name@));
            assert(answers@[pos + 1]@ == answer(env, l.queries[1]));
            assert(l == then(a, rest));
            lemma_then_continues(env, answers@, pos as int, a, rest, pos + 2, r);
        }
    }
    r
}

fn all_set_from(metadata: &ProviderMetadata, i: usize, g: KeyGroup, answers: &Vec<ProviderAnswer>, pos: usize) -> (r: Stage)
    requires
        pos <= answers@.len(),
        i <= metadata.config_keys@.len(),
    ensures
        forall|env: ProviderEnvironment|
            agrees(env, answers@, pos as int, #[trigger] all_set_lookups(keys_from(metadata, i as int), g, env).queries)
                ==> stage_ok(env, answers@, pos as int, all_set_lookups(keys_from(metadata, i as int), g, env), r),
        r matches Stage::Next(p) ==> pos <= p <= answers@.len(),
    decreases metadata.config_keys@.len() - i,
{
    if i >= metadata.config_keys.len() {
        assert(keys_from(metadata, i as int).len() == 0);
        return Stage::Next(pos);
    }
    proof {
        lemma_keys_from(metadata, i as int);
    }
    let k = &metadata.config_keys[i];
    if !key_in_group(k, g) {
        let r = all_set_from(metadata, i + 1, g, answers, pos);
        assert forall|env: ProviderEnvironment|
            #[trigger] all_set_lookups(keys_from(metadata, i as int), g, env) == all_set_lookups(
                keys_from(metadata, i + 1),
                g,
                env,
            ) by {}
        return r;
    }
    if pos >= answers.len() {
        return Stage::Ask(ProviderQuery::EnvVar(k.name.clone()));
    }
    if pos + 1 >= answers.len() {
        return Stage::Ask(ProviderQuery::StoredValue(k.name.clone(), k.secret));
    }
    if !(is_flag_true(&answers[pos]) || is_flag_true(&answers[pos + 1])) {
        return Stage::Decided(false);
    }
    let r = all_set_from(metadata, i + 1, g, answers, pos + 2);
    proof {
        let both = seq![QueryView::EnvVar(k.name@), QueryView::StoredValue(k.name@, k.secret)];
        let a = Lookups { queries: both, decision: None };
        assert forall|env: ProviderEnvironment|
            agrees(env, answers@, pos as int, #[trigger] all_set_lookups(keys_from(metadata, i as int), g, env).queries)
            implies stage_ok(env, answers@, pos as int, all_set_lookups(keys_from(metadata, i as int), g, env), r) by {
            let l = all_set_lookups(keys_from(metadata, i as int), g, env);
            let rest = all_set_lookups(keys_from(metadata, i + 1), g, env);
            assert(answers@[pos as int]@ == answer(env, l.queries[0]));
            assert(answers@[pos + 1]@ == answer(env, l.queries[1]));
            assert(key_is_set(env, keys_from(metadata, i as int)[0]));
            assert(l == then(a, rest));
            lemma_then_continues(env, answers@, pos as int, a, rest, pos + 2, r);
        }
    }
    r
}

/// A scan that runs after the answered lookups `prefix` and settles the outcome
/// one way only; when it ends open, the outcome is `open_outcome`.
proof fn lemma_settle_scan(
    env: ProviderEnvironment,
    answers: Seq<ProviderAnswer>,
    pos: int,
    prefix: Seq<QueryView>,
    s: Lookups,
    r: Stage,
    out: Stage,
    open_outcome: bool,
)
    requires
        0 <= pos,
        pos + prefix.len() <= answers.len(),
        agrees(env, answers, pos, prefix + s.queries),
        agrees(env, answers, pos + prefix.len(), s.queries) ==> stage_ok(env, answers, pos + prefix.len(), s, r),
        s.decision != Some(open_outcome),
        r is Next ==> out == Stage::Decided(open_outcome),
        !(r is Next) ==> out == r,
    ensures
        stage_ok(
            env,
            answers,
            pos,
            settled(prefix + s.queries, if s.decision is None { open_outcome } else { s.decision->0 }),
            out,
        ),
{
    let p = pos + prefix.len();
    assert forall|j: int| p <= j < p + s.queries.len() && 0 <= j < answers.len() implies (
    #[trigger] answers[j])@ == answer(env, s.queries[j - p]) by {
        assert((prefix + s.queries)[j - pos] == s.queries[j - p]);
    }
    match r {
        Stage::Ask(q) => {
            assert((prefix + s.queries)[answers.len() - pos] == s.queries[answers.len() - p]);
        },
        _ => {},
    }
}

fn required_summary(metadata: &ProviderMetadata) -> (r: (usize, usize))
    ensures
        r.0 == required_count(metadata.keys()),
        r.1 == first_required(metadata.keys()),
        r.0 > 0 ==> r.1 < metadata.config_keys@.len(),
{
    let n = metadata.config_keys.len();
    let ghost keys = metadata.keys();
    let mut count: usize = 0;
    let mut first: usize = n;
    for i in 0..n
        invariant
            n == keys.len(),
            keys == metadata.keys(),
            count == required_count(keys.subrange(0, i as int)),
            count <= i,
            count > 0 ==> first < i,
            first == n || (first < i && keys[first as int].required),
            forall|j: int| 0 <= j < i && j < first ==> !(#[trigger] keys[j]).required,
    {
        assert(keys.subrange(0, i + 1).drop_last() =~= keys.subrange(0, i as int));
        if metadata.config_keys[i].required {
            count = count + 1;
            if first == n {
                first = i;
            }
        }
    }
    assert(keys.subrange(0, n as int) =~= keys);
    proof {
        lemma_first_required(keys, first as int);
    }
    (count, first)
}

proof fn lemma_first_required(keys: Seq<KeyView>, j: int)
    requires
        0 <= j <= keys.len(),
        j == keys.len() || keys[j].required,
        forall|i: int| 0 <= i < j ==> !(#[trigger] keys[i]).required,
    ensures
        first_required(keys) == j,
    decreases j,
{
    if j > 0 {
        let rest = keys.drop_first();
        assert(!keys[0].required);
        assert forall|i: int| 0 <= i < j - 1 implies !(#[trigger] rest[i]).required by {
            assert(rest[i] == keys[i + 1]);
        }
        if j < keys.len() {
            assert(rest[j - 1] == keys[j]);
        }
        lemma_first_required(rest, j - 1);
    }
}

fn all_keys_optional_with_defaults(metadata: &ProviderMetadata) -> (r: bool)
    ensures
        r == all_optional_with_defaults(metadata.keys()),
{
    let n = metadata.config_keys.len();
    for i in 0..n
        invariant
            n == metadata.config_keys@.len(),
            forall|j: int| 0 <= j < i ==> !(#[trigger] metadata.keys()[j]).required && metadata.keys()[j].has_default,
    {
        let k = &metadata.config_keys[i];
        if k.required || k.default.is_none() {
            assert(!(!metadata.keys()[i as int].required && metadata.keys()[i as int].has_default));
            return false;
        }
    }
    true
}

fn required_keys_have_defaults(metadata: &ProviderMetadata) -> (r: bool)
    ensures
        r == required_have_defaults(metadata.keys()),
{
    let n = metadata.config_keys.len();
    for i in 0..n
        invariant
            n == metadata.config_keys@.len(),
            forall|j: int| 0 <= j < i && (#[trigger] metadata.keys()[j]).required ==> metadata.keys()[j].has_default,
    {
        let k = &metadata.config_keys[i];
        if k.required && k.default.is_none() {
            assert(metadata.keys()[i as int].required && !metadata.keys()[i as int].has_default);
            return false;
        }
    }
    true
}

/// The keys stage when exactly one key is required and it has a default.
fn single_required_key_step(metadata: &ProviderMetadata, first: usize, answers: &Vec<ProviderAnswer>, pos: usize) -> (r: Stage)
    requires
        pos <= answers@.len(),
        required_count(metadata.keys()) == 1,
        first == first_required(metadata.keys()),
        first < metadata.config_keys@.len(),
        metadata.keys()[first as int].has_default,
    ensures
        forall|env: ProviderEnvironment|
            agrees(env, answers@, pos as int, #[trigger] keys_stage(metadata.name@, metadata.keys(), env).queries)
                ==> stage_ok(env, answers@, pos as int, keys_stage(metadata.name@, metadata.keys(), env), r),
{
    let ghost keys = metadata.keys();
    assert(keys_from(metadata, 0) =~= keys);
    let k = &metadata.config_keys[first];
    if pos >= answers.len() {
        return Stage::Ask(ProviderQuery::EnvVar(k.name.clone()));
    }
    if pos + 1 >= answers.len() {
        return Stage::Ask(ProviderQuery::StoredValue(k.name.clone(), k.secret));
    }
    if is_flag_true(&answers[pos]) || is_flag_true(&answers[pos + 1]) {
        return Stage::Decided(true);
    }
    let s = any_set_from(metadata, 0, KeyGroup::Secret, answers, pos + 2);
    let out = match s {
        Stage::Next(_) => Stage::Decided(false),
        other => other,
    };
    proof {
        let both = seq![QueryView::EnvVar(k.name@), QueryView::StoredValue(k.name@, k.secret)];
        assert forall|env: ProviderEnvironment|
            agrees(env, answers@, pos as int, #[trigger] keys_stage(metadata.name@, keys, env).queries)
            implies stage_ok(env, answers@, pos as int, keys_stage(metadata.name@, keys, env), out) by {
            let l = keys_stage(metadata.name@, keys, env);
            let sl = any_set_lookups(keys, KeyGroup::Secret, env);
            assert(answers@[pos as int]@ == answer(env, l.queries[0]));
            assert(answers@[pos + 1]@ == answer(env, l.queries[1]));
            assert(!key_is_set(env, keys[first as int]));
            lemma_any_set_finds(keys, KeyGroup::Secret, env);
            lemma_settle_scan(env, answers@, pos as int, both, sl, s, out, false);
        }
    }
    out
}

/// The keys stage when every required key has a default (and the previous
/// rules do not apply).
fn defaulted_keys_step(metadata: &ProviderMetadata, answers: &Vec<ProviderAnswer>, pos: usize) -> (r: Stage)
    requires
        pos <= answers@.len(),
        !(required_count(metadata.keys()) == 1 && metadata.keys()[first_required(metadata.keys())].has_default),
        !(required_count(metadata.keys()) == 0 && all_optional_with_defaults(metadata.keys())),
        required_have_defaults(metadata.keys()),
    ensures
        forall|env: ProviderEnvironment|
            agrees(env, answers@, pos as int, #[trigger] keys_stage(metadata.name@, metadata.keys(), env).queries)
                ==> stage_ok(env, answers@, pos as int, keys_stage(metadata.name@, metadata.keys(), env), r),
{
    let ghost keys = metadata.keys();
    assert(keys_from(metadata, 0) =~= keys);
    let r = any_set_from(metadata, 0, KeyGroup::Required, answers, pos);
    match r {
        Stage::Next(p) => {
            let s = any_set_from(metadata, 0, KeyGroup::Secret, answers, p);
            let out = match s {
                Stage::Next(_) => Stage::Decided(false),
                other => other,
            };
            proof {
                assert forall|env: ProviderEnvironment|
                    agrees(env, answers@, pos as int, #[trigger] keys_stage(metadata.name@, keys, env).queries)
                    implies stage_ok(env, answers@, pos as int, keys_stage(metadata.name@, keys, env), out) by {
                    let rl = any_set_lookups(keys, KeyGroup::Required, env);
                    let sl = any_set_lookups(keys, KeyGroup::Secret, env);
                    if rl.decision is None {
                        assert forall|j: int| pos <= j < pos + rl.queries.len() && 0 <= j < answers@.len() implies (
                        #[trigger] answers@[j])@ == answer(env, rl.queries[j - pos]) by {
                            assert((rl.queries + sl.queries)[j - pos] == rl.queries[j - pos]);
                        }
                    }
                    lemma_any_set_finds(keys, KeyGroup::Required, env);
                    lemma_any_set_finds(keys, KeyGroup::Secret, env);
                    lemma_settle_scan(env, answers@, pos as int, rl.queries, sl, s, out, false);
                }
            }
            out
        },
        other => {
            proof {
                assert forall|env: ProviderEnvironment|
                    agrees(env, answers@, pos as int, #[trigger] keys_stage(metadata.name@, keys, env).queries)
                    implies stage_ok(env, answers@, pos as int, keys_stage(metadata.name@, keys, env), other) by {
                    let rl = any_set_lookups(keys, KeyGroup::Required, env);
                    let sl = any_set_lookups(keys, KeyGroup::Secret, env);
                    lemma_any_set_finds(keys, KeyGroup::Required, env);
                    if rl.decision == Some(true) {
                        assert(keys_stage(metadata.name@, keys, env) == rl);
                    } else {
                        assert forall|j: int| pos <= j < pos + rl.queries.len() && 0 <= j < answers@.len() implies (
                        #[trigger] answers@[j])@ == answer(env, rl.queries[j - pos]) by {
                            assert((rl.queries + sl.queries)[j - pos] == rl.queries[j - pos]);
                        }
                        match other {
                            Stage::Ask(q) => {
                                assert((rl.queries + sl.queries)[answers@.len() - pos] == rl.queries[answers@.len() - pos]);
                            },
                            _ => {},
                        }
                    }
                }
            }
            other
        },
    }
}

/// The keys stage when some required key has no default.
fn required_keys_step(metadata: &ProviderMetadata, answers: &Vec<ProviderAnswer>, pos: usize) -> (r: Stage)
    requires
        pos <= answers@.len(),
        !(required_count(metadata.keys()) == 1 && metadata.keys()[first_required(metadata.keys())].has_default),
        !(required_count(metadata.keys()) == 0 && all_optional_with_defaults(metadata.keys())),
        !required_have_defaults(metadata.keys()),
    ensures
        forall|env: ProviderEnvironment|
            agrees(env, answers@, pos as int, #[trigger] keys_stage(metadata.name@, metadata.keys(), env).queries)
                ==> stage_ok(env, answers@, pos as int, keys_stage(metadata.name@, metadata.keys(), env), r),
{
    let ghost keys = metadata.keys();
    assert(keys_from(metadata, 0) =~= keys);
    let a = all_set_from(metadata, 0, KeyGroup::RequiredWithoutDefault, answers, pos);
    let out = match a {
        Stage::Next(_) => Stage::Decided(true),
        other => other,
    };
    proof {
        assert forall|env: ProviderEnvironment|
            agrees(env, answers@, pos as int, #[trigger] keys_stage(metadata.name@, keys, env).queries)
            implies stage_ok(env, answers@, pos as int, keys_stage(metadata.name@, keys, env), out) by {
            let al = all_set_lookups(keys, KeyGroup::RequiredWithoutDefault, env);
            assert(Seq::<QueryView>::empty() + al.queries =~= al.queries);
            lemma_all_set_checks(keys, KeyGroup::RequiredWithoutDefault, env);
            lemma_settle_scan(env, answers@, pos as int, Seq::empty(), al, a, out, true);
        }
    }
    out
}

fn keys_step(metadata: &ProviderMetadata, answers: &Vec<ProviderAnswer>, pos: usize) -> (r: Stage)
    requires
        pos <= answers@.len(),
    ensures
        forall|env: ProviderEnvironment|
            agrees(env, answers@, pos as int, #[trigger] keys_stage(metadata.name@, metadata.keys(), env).queries)
                ==> stage_ok(env, answers@, pos as int, keys_stage(metadata.name@, metadata.keys(), env), r),
{
    let (count, first) = required_summary(metadata);
    if count == 1 && metadata.config_keys[first].default.is_some() {
        return single_required_key_step(metadata, first, answers, pos);
    }
    if count == 0 && all_keys_optional_with_defaults(metadata) {
        if pos >= answers.len() {
            return Stage::Ask(ProviderQuery::BoolParam(marker_of(&metadata.name)));
        }
        return match &answers[pos] {
            ProviderAnswer::BoolParam(Some(_)) => Stage::Decided(true),
            _ => Stage::Decided(false),
        };
    }
    if required_keys_have_defaults(metadata) {
        defaulted_keys_step(metadata, answers, pos)
    } else {
        required_keys_step(metadata, answers, pos)
    }
}

spec fn stages_from_zero_config(name: Seq<char>, keys: Seq<KeyView>, env: ProviderEnvironment) -> Lookups {
    then(zero_config_stage(name, keys, env), keys_stage(name, keys, env))
}

spec fn stages_from_oauth(name: Seq<char>, keys: Seq<KeyView>, env: ProviderEnvironment) -> Lookups {
    then(oauth_stage(name, keys, env), stages_from_zero_config(name, keys, env))
}

spec fn stages_from_declared(
    name: Seq<char>,
    keys: Seq<KeyView>,
    provider_type: ProviderType,
    env: ProviderEnvironment,
) -> Lookups {
    then(declared_stage(name, provider_type, env), stages_from_oauth(name, keys, env))
}

spec fn all_stages(name: Seq<char>, keys: Seq<KeyView>, provider_type: ProviderType, env: ProviderEnvironment) -> Lookups {
    then(huggingface_stage(name, env), stages_from_declared(name, keys, provider_type, env))
}

fn run_from_zero_config(metadata: &ProviderMetadata, answers: &Vec<ProviderAnswer>, pos: usize) -> (r: Stage)
    requires
        pos <= answers@.len(),
    ensures
        forall|env: ProviderEnvironment|
            agrees(env, answers@, pos as int, #[trigger] stages_from_zero_config(metadata.name@, metadata.keys(), env).queries)
                ==> stage_ok(env, answers@, pos as int, stages_from_zero_config(metadata.name@, metadata.keys(), env), r),
{
    let r1 = zero_config_step(metadata, answers, pos);
    match r1 {
        Stage::Next(p) => {
            let r2 = keys_step(metadata, answers, p);
            proof {
                assert forall|env: ProviderEnvironment|
                    agrees(env, answers@, pos as int, #[trigger] stages_from_zero_config(metadata.name@, metadata.keys(), env).queries)
                    implies stage_ok(env, answers@, pos as int, stages_from_zero_config(metadata.name@, metadata.keys(), env), r2) by {
                    lemma_then_continues(env, answers@, pos as int, zero_config_stage(metadata.name@, metadata.keys(), env),
                        keys_stage(metadata.name@, metadata.keys(), env), p as int, r2);
                }
            }
            r2
        },
        other => {
            proof {
                assert forall|env: ProviderEnvironment|
                    agrees(env, answers@, pos as int, #[trigger] stages_from_zero_config(metadata.name@, metadata.keys(), env).queries)
                    implies stage_ok(env, answers@, pos as int, stages_from_zero_config(metadata.name@, metadata.keys(), env), other) by {
                    lemma_then_stops(env, answers@, pos as int, zero_config_stage(metadata.name@, metadata.keys(), env),
                        keys_stage(metadata.name@, metadata.keys(), env), other);
                }
            }
            other
        },
    }
}

fn run_from_oauth(metadata: &ProviderMetadata, answers: &Vec<ProviderAnswer>, pos: usize) -> (r: Stage)
    requires
        pos <= answers@.len(),
    ensures
        forall|env: ProviderEnvironment|
            agrees(env, answers@, pos as int, #[trigger] stages_from_oauth(metadata.name@, metadata.keys(), env).queries)
                ==> stage_ok(env, answers@, pos as int, stages_from_oauth(metadata.name@, metadata.keys(), env), r),
{
    let r1 = oauth_step(metadata, answers, pos);
    match r1 {
        Stage::Next(p) => {
            let r2 = run_from_zero_config(metadata, answers, p);
            proof {
                assert forall|env: ProviderEnvironment|
                    agrees(env, answers@, pos as int, #[trigger] stages_from_oauth(metadata.name@, metadata.keys(), env).queries)
                    implies stage_ok(env, answers@, pos as int, stages_from_oauth(metadata.name@, metadata.keys(), env), r2) by {
                    lemma_then_continues(env, answers@, pos as int, oauth_stage(metadata.name@, metadata.keys(), env),
                        stages_from_zero_config(metadata.name@, metadata.keys(), env), p as int, r2);
                }
            }
            r2
        },
        other => {
            proof {
                assert forall|env: ProviderEnvironment|
                    agrees(env, answers@, pos as int, #[trigger] stages_from_oauth(metadata.name@, metadata.keys(), env).queries)
                    implies stage_ok(env, answers@, pos as int, stages_from_oauth(metadata.name@, metadata.keys(), env), other) by {
                    lemma_then_stops(env, answers@, pos as int, oauth_stage(metadata.name@, metadata.keys(), env),
                        stages_from_zero_config(metadata.name@, metadata.keys(), env), other);
                }
            }
            other
        },
    }
}

fn run_from_declared(metadata: &ProviderMetadata, provider_type: ProviderType, answers: &Vec<ProviderAnswer>, pos: usize) -> (r: Stage)
    requires
        pos <= answers@.len(),
    ensures
        forall|env: ProviderEnvironment|
            agrees(env, answers@, pos as int, #[trigger] stages_from_declared(metadata.name@, metadata.keys(), provider_type, env).queries)
                ==> stage_ok(env, answers@, pos as int, stages_from_declared(metadata.name@, metadata.keys(), provider_type, env), r),
{
    let r1 = declared_step(&metadata.name, provider_type, answers, pos);
    match r1 {
        Stage::Next(p) => {
            let r2 = run_from_oauth(metadata, answers, p);
            proof {
                assert forall|env: ProviderEnvironment|
                    agrees(env, answers@, pos as int, #[trigger] stages_from_declared(metadata.name@, metadata.keys(), provider_type, env).queries)
                    implies stage_ok(env, answers@, pos as int, stages_from_declared(metadata.name@, metadata.keys(), provider_type, env), r2) by {
                    lemma_then_continues(env, answers@, pos as int, declared_stage(metadata.name@, provider_type, env),
                        stages_from_oauth(metadata.name@, metadata.keys(), env), p as int, r2);
                }
            }
            r2
        },
        other => {
            proof {
                assert forall|env: ProviderEnvironment|
                    agrees(env, answers@, pos as int, #[trigger] stages_from_declared(metadata.name@, metadata.keys(), provider_type, env).queries)
                    implies stage_ok(env, answers@, pos as int, stages_from_declared(metadata.name@, metadata.keys(), provider_type, env), other) by {
                    lemma_then_stops(env, answers@, pos as int, declared_stage(metadata.name@, provider_type, env),
                        stages_from_oauth(metadata.name@, metadata.keys(), env), other);
                }
            }
            other
        },
    }
}

fn run_all_stages(metadata: &ProviderMetadata, provider_type: ProviderType, answers: &Vec<ProviderAnswer>) -> (r: Stage)
    ensures
        forall|env: ProviderEnvironment|
            agrees(env, answers@, 0, #[trigger] all_stages(metadata.name@, metadata.keys(), provider_type, env).queries)
                ==> stage_ok(env, answers@, 0, all_stages(metadata.name@, metadata.keys(), provider_type, env), r),
{
    let r1 = huggingface_step(&metadata.name, answers, 0);
    match r1 {
        Stage::Next(p) => {
            let r2 = run_from_declared(metadata, provider_type, answers, p);
            proof {
                assert forall|env: ProviderEnvironment|
                    agrees(env, answers@, 0, #[trigger] all_stages(metadata.name@, metadata.keys(), provider_type, env).queries)
                    implies stage_ok(env, answers@, 0, all_stages(metadata.name@, metadata.keys(), provider_type, env), r2) by {
                    lemma_then_continues(env, answers@, 0, huggingface_stage(metadata.name@, env),
                        stages_from_declared(metadata.name@, metadata.keys(), provider_type, env), p as int, r2);
                }
            }
            r2
        },
        other => {
            proof {
                assert forall|env: ProviderEnvironment|
                    agrees(env, answers@, 0, #[trigger] all_stages(metadata.name@, metadata.keys(), provider_type, env).queries)
                    implies stage_ok(env, answers@, 0, all_stages(metadata.name@, metadata.keys(), provider_type, env), other) by {
                    lemma_then_stops(env, answers@, 0, huggingface_stage(metadata.name@, env),
                        stages_from_declared(metadata.name@, metadata.keys(), provider_type, env), other);
                }
            }
            other
        },
    }
}

/// The check always reaches an outcome.
pub proof fn lemma_provider_lookups_settle(
    name: Seq<char>,
    keys: Seq<KeyView>,
    provider_type: ProviderType,
    env: ProviderEnvironment,
)
    ensures
        provider_lookups(name, keys, provider_type, env).decision is Some,
{
    lemma_any_set_finds(keys, KeyGroup::Required, env);
}

/// Where the configured check stands.
#[derive(Debug)]
pub enum ProviderCheck {
    /// This lookup comes next; call again with its answer appended.
    Ask(ProviderQuery),
    /// The outcome: whether the provider is configured.
    Configured(bool),
}

/// Whether a provider has enough configuration or credentials to be usable,
/// given the answers to the lookups made so far, in order.
///
/// The single source of truth for "is this provider configured?". It handles
/// the `local` override, Hugging Face OAuth, OAuth-flow providers (structured
/// `configured` flag or legacy `{name}_configured` marker), zero-config
/// providers, providers whose keys all have defaults, and custom or
/// declarative provider files.
///
/// Answered truthfully in an environment, the lookups it asks for, one per
/// call, are [`provider_lookups`] in order, and the outcome is
/// [`provider_configured`].
pub fn check_provider_configured(
    metadata: &ProviderMetadata,
    provider_type: ProviderType,
    answers: &Vec<ProviderAnswer>,
) -> (r: ProviderCheck)
    ensures
        forall|env: ProviderEnvironment|
            agrees(env, answers@, 0, #[trigger] provider_lookups(metadata.name@, metadata.keys(), provider_type, env).queries)
                ==> match r {
                ProviderCheck::Ask(q) => answers@.len() < provider_lookups(metadata.name@, metadata.keys(), provider_type, env).queries.len()
                    && q@ == provider_lookups(metadata.name@, metadata.keys(), provider_type, env).queries[answers@.len() as int],
                ProviderCheck::Configured(b) => provider_lookups(metadata.name@, metadata.keys(), provider_type, env).queries.len()
                    <= answers@.len() && b == provider_configured(metadata.name@, metadata.keys(), provider_type, env),
            },
{
    if string_is(&metadata.name, LOCAL_PROVIDER_NAME) {
        return ProviderCheck::Configured(true);
    }
    let r = run_all_stages(metadata, provider_type, answers);
    proof {
        assert forall|env: ProviderEnvironment|
            #[trigger] provider_lookups(metadata.name@, metadata.keys(), provider_type, env) == all_stages(
                metadata.name@,
                metadata.keys(),
                provider_type,
                env,
            ) by {
            lemma_provider_lookups_settle(metadata.name@, metadata.keys(), provider_type, env);
        }
    }
    match r {
        Stage::Ask(q) => ProviderCheck::Ask(q),
        Stage::Decided(b) => ProviderCheck::Configured(b),
        Stage::Next(_) => ProviderCheck::Configured(false),
    }
}

/// Whether a usable Hugging Face OAuth token makes the provider usable: it is
/// a Hugging Face provider (by name, or by the catalog entry its provider file
/// was made from) and the token check, called only then, reports a usable or
/// refreshable token.
pub fn accepts_huggingface_oauth<F: Fn() -> bool>(
    metadata: &ProviderMetadata,
    loaded_provider: Option<&LoadedProvider>,
    has_usable_huggingface_oauth_token: &F,
) -> (r: bool)
    requires
        is_huggingface_provider(
            metadata.name@,
            match loaded_provider {
                Some(l) => Some(l@),
                None => None,
            },
        ) ==> has_usable_huggingface_oauth_token.requires(()),
    ensures
        !is_huggingface_provider(
            metadata.name@,
            match loaded_provider {
                Some(l) => Some(l@),
                None => None,
            },
        ) ==> !r,
        is_huggingface_provider(
            metadata.name@,
            match loaded_provider {
                Some(l) => Some(l@),
                None => None,
            },
        ) ==> has_usable_huggingface_oauth_token.ensures((), r),
{
    is_huggingface(&metadata.name, loaded_provider) && has_usable_huggingface_oauth_token()
}

/// Some key of the group is set.
pub open spec fn any_key_set(keys: Seq<KeyView>, g: KeyGroup, env: ProviderEnvironment) -> bool {
    exists|i: int| 0 <= i < keys.len() && in_group(#[trigger] keys[i], g) && key_is_set(env, keys[i])
}

/// Every key of the group is set.
pub open spec fn all_keys_set(keys: Seq<KeyView>, g: KeyGroup, env: ProviderEnvironment) -> bool {
    forall|i: int| 0 <= i < keys.len() && in_group(#[trigger] keys[i], g) ==> key_is_set(env, keys[i])
}

/// The rules of the configured check, stated directly, in order of precedence.
pub open spec fn configured_by_rules(
    name: Seq<char>,
    keys: Seq<KeyView>,
    provider_type: ProviderType,
    env: ProviderEnvironment,
) -> bool {
    let marker = configured_marker(name);
    let f = first_required(keys);
    if name == LOCAL_PROVIDER_NAME@ {
        true
    } else if name == HUGGINGFACE_PROVIDER_NAME@ && env.hf_token_usable {
        true
    } else if (provider_type == ProviderType::Custom || provider_type == ProviderType::Declarative)
        && env.providers.contains_key(name) {
        let p = env.providers[name];
        ||| is_huggingface_provider(name, Some(p)) && env.hf_token_usable
        ||| !p.requires_auth
        ||| p.api_key_env.len() > 0 && env.secrets.contains(p.api_key_env)
        ||| provider_type == ProviderType::Custom
    } else if has_oauth_key(keys) && (entry_configured(env, name) || (env.bool_params.contains_key(marker)
        && env.bool_params[marker])) {
        true
    } else if keys.len() == 0 {
        entry_configured(env, name) || env.bool_params.contains_key(marker) || env.current_provider == Some(name)
    } else if required_count(keys) == 1 && keys[f].has_default {
        key_is_set(env, keys[f]) || any_key_set(keys, KeyGroup::Secret, env)
    } else if required_count(keys) == 0 && all_optional_with_defaults(keys) {
        env.bool_params.contains_key(marker)
    } else if required_have_defaults(keys) {
        any_key_set(keys, KeyGroup::Required, env) || any_key_set(keys, KeyGroup::Secret, env)
    } else {
        all_keys_set(keys, KeyGroup::RequiredWithoutDefault, env)
    }
}

proof fn lemma_any_set_finds(keys: Seq<KeyView>, g: KeyGroup, env: ProviderEnvironment)
    ensures
        any_set_lookups(keys, g, env).decision == Some(true) <==> any_key_set(keys, g, env),
        any_set_lookups(keys, g, env).decision != Some(false),
        any_set_lookups(keys, g, env).queries.len() <= 2 * keys.len(),
    decreases keys.len(),
{
    if keys.len() > 0 {
        let rest = keys.drop_first();
        lemma_any_set_finds(rest, g, env);
        if any_key_set(rest, g, env) {
            let i = choose|i: int| 0 <= i < rest.len() && in_group(#[trigger] rest[i], g) && key_is_set(env, rest[i]);
            assert(keys[i + 1] == rest[i]);
        }
        if any_key_set(keys, g, env) {
            let i = choose|i: int| 0 <= i < keys.len() && in_group(#[trigger] keys[i], g) && key_is_set(env, keys[i]);
            if i > 0 {
                assert(rest[i - 1] == keys[i]);
            }
        }
    }
}

proof fn lemma_all_set_checks(keys: Seq<KeyView>, g: KeyGroup, env: ProviderEnvironment)
    ensures
        all_set_lookups(keys, g, env).decision is None <==> all_keys_set(keys, g, env),
        all_set_lookups(keys, g, env).decision != Some(true),
        all_set_lookups(keys, g, env).queries.len() <= 2 * keys.len(),
    decreases keys.len(),
{
    if keys.len() > 0 {
        let rest = keys.drop_first();
        lemma_all_set_checks(rest, g, env);
        if all_keys_set(keys, g, env) {
            assert forall|i: int| 0 <= i < rest.len() && in_group(#[trigger] rest[i], g) implies key_is_set(env, rest[i]) by {
                assert(keys[i + 1] == rest[i]);
            }
        }
        if all_keys_set(rest, g, env) && (in_group(keys[0], g) ==> key_is_set(env, keys[0])) {
            assert forall|i: int| 0 <= i < keys.len() && in_group(#[trigger] keys[i], g) implies key_is_set(env, keys[i]) by {
                if i > 0 {
                    assert(rest[i - 1] == keys[i]);
                }
            }
        }
    }
}

/// The lookups lead to the verdict of the rules: the staged, lazy check
/// decides exactly as [`configured_by_rules`] says.
pub proof fn law_check_follows_rules(
    name: Seq<char>,
    keys: Seq<KeyView>,
    provider_type: ProviderType,
    env: ProviderEnvironment,
)
    ensures
        provider_configured(name, keys, provider_type, env) == configured_by_rules(name, keys, provider_type, env),
{
    lemma_any_set_finds(keys, KeyGroup::Secret, env);
    lemma_any_set_finds(keys, KeyGroup::Required, env);
    lemma_all_set_checks(keys, KeyGroup::RequiredWithoutDefault, env);
}

/// The check makes at most `11 + 4 * n` lookups for a provider with `n`
/// configuration keys, so a caller answering them one by one always finishes.
pub proof fn law_lookups_are_bounded(
    name: Seq<char>,
    keys: Seq<KeyView>,
    provider_type: ProviderType,
    env: ProviderEnvironment,
)
    ensures
        provider_lookups(name, keys, provider_type, env).queries.len() <= 11 + 4 * keys.len(),
        provider_lookups(name, keys, provider_type, env).decision is Some,
{
    lemma_any_set_finds(keys, KeyGroup::Secret, env);
    lemma_any_set_finds(keys, KeyGroup::Required, env);
    lemma_all_set_checks(keys, KeyGroup::RequiredWithoutDefault, env);
}

/// `more` has every credential `env` has, and perhaps more: more environment
/// variables, stored values and secrets, everything else alike.
pub open spec fn has_more_credentials(env: ProviderEnvironment, more: ProviderEnvironment) -> bool {
    &&& env.env_vars.subset_of(more.env_vars)
    &&& env.stored_values.subset_of(more.stored_values)
    &&& env.secrets.subset_of(more.secrets)
    &&& env.hf_token_usable == more.hf_token_usable
    &&& env.providers == more.providers
    &&& env.entries == more.entries
    &&& env.bool_params == more.bool_params
    &&& env.current_provider == more.current_provider
}

/// Setting more keys or secrets never makes a configured provider unconfigured.
pub proof fn law_more_credentials_stay_configured(
    name: Seq<char>,
    keys: Seq<KeyView>,
    provider_type: ProviderType,
    env: ProviderEnvironment,
    more: ProviderEnvironment,
)
    requires
        has_more_credentials(env, more),
        provider_configured(name, keys, provider_type, env),
    ensures
        provider_configured(name, keys, provider_type, more),
{
    law_check_follows_rules(name, keys, provider_type, env);
    law_check_follows_rules(name, keys, provider_type, more);
    if any_key_set(keys, KeyGroup::Secret, env) {
        let i = choose|i: int| 0 <= i < keys.len() && in_group(#[trigger] keys[i], KeyGroup::Secret) && key_is_set(env, keys[i]);
        assert(in_group(keys[i], KeyGroup::Secret) && key_is_set(more, keys[i]));
    }
    if any_key_set(keys, KeyGroup::Required, env) {
        let i = choose|i: int| 0 <= i < keys.len() && in_group(#[trigger] keys[i], KeyGroup::Required) && key_is_set(env, keys[i]);
        assert(in_group(keys[i], KeyGroup::Required) && key_is_set(more, keys[i]));
    }
}

/// The `local` provider is configured, with no lookup at all.
pub proof fn law_local_is_always_configured(keys: Seq<KeyView>, provider_type: ProviderType, env: ProviderEnvironment)
    ensures
        provider_lookups(LOCAL_PROVIDER_NAME@, keys, provider_type, env).queries.len() == 0,
        provider_configured(LOCAL_PROVIDER_NAME@, keys, provider_type, env),
{
}

/// A usable Hugging Face OAuth token makes the Hugging Face provider usable
/// without its HF_TOKEN secret, and likewise a provider file made from the
/// Hugging Face catalog entry.
pub proof fn law_huggingface_oauth_counts(
    name: Seq<char>,
    keys: Seq<KeyView>,
    provider_type: ProviderType,
    env: ProviderEnvironment,
)
    requires
        env.hf_token_usable,
        name == HUGGINGFACE_PROVIDER_NAME@ || ((provider_type == ProviderType::Custom || provider_type
            == ProviderType::Declarative) && env.providers.contains_key(name)
            && env.providers[name].catalog_provider_id == Some(HUGGINGFACE_PROVIDER_NAME@)),
    ensures
        provider_configured(name, keys, provider_type, env),
{
    law_check_follows_rules(name, keys, provider_type, env);
}

/// A custom provider whose file loads is configured: the user created it on
/// purpose.
pub proof fn law_custom_provider_file_counts(name: Seq<char>, keys: Seq<KeyView>, env: ProviderEnvironment)
    requires
        env.providers.contains_key(name),
    ensures
        provider_configured(name, keys, ProviderType::Custom, env),
{
    law_check_follows_rules(name, keys, ProviderType::Custom, env);
}

/// When every required key has a default (and there is one), a secret key that
/// holds a value is a usable credential on its own, unless a provider file
/// settles the matter first.
pub proof fn law_present_secret_counts(
    name: Seq<char>,
    keys: Seq<KeyView>,
    provider_type: ProviderType,
    env: ProviderEnvironment,
    i: int,
)
    requires
        !((provider_type == ProviderType::Custom || provider_type == ProviderType::Declarative)
            && env.providers.contains_key(name)),
        required_count(keys) > 0,
        required_have_defaults(keys),
        0 <= i < keys.len(),
        keys[i].secret,
        key_is_set(env, keys[i]),
    ensures
        provider_configured(name, keys, provider_type, env),
{
    law_check_follows_rules(name, keys, provider_type, env);
    assert(in_group(keys[i], KeyGroup::Secret));
    if !all_optional_with_defaults(keys) {
    } else {
        lemma_required_count_zero(keys);
    }
    lemma_first_required_is_required(keys);
}

proof fn lemma_required_count_zero(keys: Seq<KeyView>)
    requires
        forall|i: int| 0 <= i < keys.len() ==> !(#[trigger] keys[i]).required,
    ensures
        required_count(keys) == 0,
    decreases keys.len(),
{
    if keys.len() > 0 {
        assert forall|i: int| 0 <= i < keys.drop_last().len() implies !(#[trigger] keys.drop_last()[i]).required by {
            assert(keys.drop_last()[i] == keys[i]);
        }
        lemma_required_count_zero(keys.drop_last());
    }
}

proof fn lemma_first_required_is_required(keys: Seq<KeyView>)
    ensures
        required_count(keys) > 0 ==> 0 <= first_required(keys) < keys.len() && keys[first_required(keys)].required,
        0 <= first_required(keys) <= keys.len(),
    decreases keys.len(),
{
    if keys.len() > 0 {
        lemma_first_required_is_required(keys.drop_first());
        if required_count(keys) > 0 && !keys[0].required {
            lemma_required_count_shift(keys);
        }
    }
}

proof fn lemma_required_count_shift(keys: Seq<KeyView>)
    requires
        keys.len() > 0,
    ensures
        required_count(keys) == required_count(keys.drop_first()) + if keys[0].required { 1nat } else { 0nat },
    decreases keys.len(),
{
    let dl = keys.drop_last();
    let df = keys.drop_first();
    assert(required_count(keys) == required_count(dl) + if keys.last().required { 1nat } else { 0nat });
    if keys.len() > 1 {
        lemma_required_count_shift(dl);
        assert(dl.drop_first() =~= df.drop_last());
        assert(dl[0] == keys[0]);
        assert(df.last() == keys.last());
        assert(required_count(df) == required_count(df.drop_last()) + if df.last().required { 1nat } else { 0nat });
    } else {
        assert(df.len() == 0);
        assert(dl.len() == 0);
        assert(required_count(dl) == 0);
        assert(required_count(df) == 0);
        assert(keys.last() == keys[0]);
    }
}

/// Whether a lookup asks for the Hugging Face OAuth token.
pub open spec fn asks_token(q: QueryView) -> bool {
    q is HuggingFaceOAuthToken
}

/// How many of the lookups ask for the Hugging Face OAuth token.
pub open spec fn token_lookups(queries: Seq<QueryView>) -> nat
    decreases queries.len(),
{
    if queries.len() == 0 {
        0
    } else {
        token_lookups(queries.drop_last()) + if asks_token(queries.last()) { 1nat } else { 0nat }
    }
}

/// `env` with the Hugging Face OAuth token usable or not, all else alike.
pub open spec fn with_token(env: ProviderEnvironment, usable: bool) -> ProviderEnvironment {
    ProviderEnvironment {
        hf_token_usable: usable,
        providers: env.providers,
        secrets: env.secrets,
        entries: env.entries,
        bool_params: env.bool_params,
        current_provider: env.current_provider,
        env_vars: env.env_vars,
        stored_values: env.stored_values,
    }
}

proof fn lemma_token_lookups_add(a: Seq<QueryView>, b: Seq<QueryView>)
    ensures
        token_lookups(a + b) == token_lookups(a) + token_lookups(b),
    decreases b.len(),
{
    if b.len() == 0 {
        assert(a + b =~= a);
    } else {
        lemma_token_lookups_add(a, b.drop_last());
        assert((a + b).drop_last() =~= a + b.drop_last());
        assert((a + b).last() == b.last());
    }
}

proof fn lemma_no_token_lookups(queries: Seq<QueryView>)
    requires
        forall|i: int| 0 <= i < queries.len() ==> !asks_token(#[trigger] queries[i]),
    ensures
        token_lookups(queries) == 0,
    decreases queries.len(),
{
    if queries.len() > 0 {
        assert forall|i: int| 0 <= i < queries.drop_last().len() implies !asks_token(#[trigger] queries.drop_last()[i]) by {
            assert(queries.drop_last()[i] == queries[i]);
        }
        lemma_no_token_lookups(queries.drop_last());
        assert(!asks_token(queries[queries.len() - 1]));
    }
}

proof fn lemma_scans_never_ask_token(keys: Seq<KeyView>, g: KeyGroup, env: ProviderEnvironment, usable: bool)
    ensures
        forall|i: int| 0 <= i < any_set_lookups(keys, g, env).queries.len()
            ==> !asks_token(#[trigger] any_set_lookups(keys, g, env).queries[i]),
        forall|i: int| 0 <= i < all_set_lookups(keys, g, env).queries.len()
            ==> !asks_token(#[trigger] all_set_lookups(keys, g, env).queries[i]),
        any_set_lookups(keys, g, env) == any_set_lookups(keys, g, with_token(env, usable)),
        all_set_lookups(keys, g, env) == all_set_lookups(keys, g, with_token(env, usable)),
    decreases keys.len(),
{
    if keys.len() > 0 {
        let k = keys[0];
        let rest = keys.drop_first();
        lemma_scans_never_ask_token(rest, g, env, usable);
        let both = seq![QueryView::EnvVar(k.name), QueryView::StoredValue(k.name, k.secret)];
        let ra = any_set_lookups(rest, g, env).queries;
        let rl = all_set_lookups(rest, g, env).queries;
        assert forall|i: int| 0 <= i < (both + ra).len() implies !asks_token(#[trigger] (both + ra)[i]) by {
            if i >= 2 {
                assert((both + ra)[i] == ra[i - 2]);
            }
        }
        assert forall|i: int| 0 <= i < (both + rl).len() implies !asks_token(#[trigger] (both + rl)[i]) by {
            if i >= 2 {
                assert((both + rl)[i] == rl[i - 2]);
            }
        }
    }
}

/// The stages after the Hugging Face and provider-file stages never ask for
/// the token, and do not depend on it.
proof fn lemma_late_stages_ignore_token(name: Seq<char>, keys: Seq<KeyView>, env: ProviderEnvironment, usable: bool)
    ensures
        forall|i: int| 0 <= i < stages_from_oauth(name, keys, env).queries.len()
            ==> !asks_token(#[trigger] stages_from_oauth(name, keys, env).queries[i]),
        stages_from_oauth(name, keys, env) == stages_from_oauth(name, keys, with_token(env, usable)),
{
    lemma_scans_never_ask_token(keys, KeyGroup::Secret, env, usable);
    lemma_scans_never_ask_token(keys, KeyGroup::Required, env, usable);
    lemma_scans_never_ask_token(keys, KeyGroup::RequiredWithoutDefault, env, usable);
    lemma_any_set_finds(keys, KeyGroup::Required, env);
    let o = oauth_stage(name, keys, env);
    let z = zero_config_stage(name, keys, env);
    let k = keys_stage(name, keys, env);
    let f = first_required(keys);
    let sq = any_set_lookups(keys, KeyGroup::Secret, env).queries;
    let rq = any_set_lookups(keys, KeyGroup::Required, env).queries;
    assert forall|i: int| 0 <= i < k.queries.len() implies !asks_token(#[trigger] k.queries[i]) by {
        if required_count(keys) == 1 && keys[f].has_default {
            let both = seq![QueryView::EnvVar(keys[f].name), QueryView::StoredValue(keys[f].name, keys[f].secret)];
            if i >= 2 && k.queries.len() > 2 {
                assert((both + sq)[i] == sq[i - 2]);
            }
        } else if required_count(keys) == 0 && all_optional_with_defaults(keys) {
        } else if required_have_defaults(keys) {
            if i >= rq.len() && k.queries.len() > rq.len() {
                assert((rq + sq)[i] == sq[i - rq.len()]);
            }
        }
    }
    let zk = stages_from_zero_config(name, keys, env);
    assert forall|i: int| 0 <= i < zk.queries.len() implies !asks_token(#[trigger] zk.queries[i]) by {
        if z.decision is None {
            if i >= z.queries.len() {
                assert((z.queries + k.queries)[i] == k.queries[i - z.queries.len()]);
            } else {
                assert((z.queries + k.queries)[i] == z.queries[i]);
            }
        }
    }
    let ozk = stages_from_oauth(name, keys, env);
    assert forall|i: int| 0 <= i < ozk.queries.len() implies !asks_token(#[trigger] ozk.queries[i]) by {
        if o.decision is None {
            if i >= o.queries.len() {
                assert((o.queries + zk.queries)[i] == zk.queries[i - o.queries.len()]);
            } else {
                assert((o.queries + zk.queries)[i] == o.queries[i]);
            }
        }
    }
}

/// A provider that is not a Hugging Face provider (neither by name nor by a
/// provider file made from the Hugging Face catalog entry) never asks for the
/// OAuth token, and its lookups and outcome are the same whether or not a
/// usable token exists.
pub proof fn law_token_only_matters_for_huggingface(
    name: Seq<char>,
    keys: Seq<KeyView>,
    provider_type: ProviderType,
    env: ProviderEnvironment,
    usable: bool,
)
    requires
        name != HUGGINGFACE_PROVIDER_NAME@,
        !((provider_type == ProviderType::Custom || provider_type == ProviderType::Declarative)
            && env.providers.contains_key(name) && env.providers[name].catalog_provider_id == Some(
            HUGGINGFACE_PROVIDER_NAME@,
        )),
    ensures
        token_lookups(provider_lookups(name, keys, provider_type, env).queries) == 0,
        provider_lookups(name, keys, provider_type, env) == provider_lookups(
            name,
            keys,
            provider_type,
            with_token(env, usable),
        ),
{
    lemma_late_stages_ignore_token(name, keys, env, usable);
    let d = declared_stage(name, provider_type, env);
    let l = provider_lookups(name, keys, provider_type, env);
    let ozk = stages_from_oauth(name, keys, env);
    assert(huggingface_stage(name, env) == nothing());
    assert forall|i: int| 0 <= i < d.queries.len() implies !asks_token(#[trigger] d.queries[i]) by {}
    assert forall|i: int| 0 <= i < l.queries.len() implies !asks_token(#[trigger] l.queries[i]) by {
        if name != LOCAL_PROVIDER_NAME@ {
            assert(l == then(nothing(), then(d, ozk)));
            assert(Seq::<QueryView>::empty() + then(d, ozk).queries =~= then(d, ozk).queries);
            if d.decision is None {
                if i >= d.queries.len() {
                    assert((d.queries + ozk.queries)[i] == ozk.queries[i - d.queries.len()]);
                } else {
                    assert((d.queries + ozk.queries)[i] == d.queries[i]);
                }
            }
        }
    }
    lemma_no_token_lookups(l.queries);
}

/// A usable Hugging Face OAuth token never makes a configured provider
/// unconfigured.
pub proof fn law_usable_token_never_unconfigures(
    name: Seq<char>,
    keys: Seq<KeyView>,
    provider_type: ProviderType,
    env: ProviderEnvironment,
)
    requires
        provider_configured(name, keys, provider_type, env),
    ensures
        provider_configured(name, keys, provider_type, with_token(env, true)),
{
    law_check_follows_rules(name, keys, provider_type, env);
    law_check_follows_rules(name, keys, provider_type, with_token(env, true));
    let e2 = with_token(env, true);
    if any_key_set(keys, KeyGroup::Secret, env) {
        let i = choose|i: int| 0 <= i < keys.len() && in_group(#[trigger] keys[i], KeyGroup::Secret) && key_is_set(env, keys[i]);
        assert(in_group(keys[i], KeyGroup::Secret) && key_is_set(e2, keys[i]));
    }
    if any_key_set(keys, KeyGroup::Required, env) {
        let i = choose|i: int| 0 <= i < keys.len() && in_group(#[trigger] keys[i], KeyGroup::Required) && key_is_set(env, keys[i]);
        assert(in_group(keys[i], KeyGroup::Required) && key_is_set(e2, keys[i]));
    }
}

/// The check asks for the Hugging Face OAuth token at most twice.
pub proof fn law_token_asked_at_most_twice(
    name: Seq<char>,
    keys: Seq<KeyView>,
    provider_type: ProviderType,
    env: ProviderEnvironment,
)
    ensures
        token_lookups(provider_lookups(name, keys, provider_type, env).queries) <= 2,
{
    lemma_late_stages_ignore_token(name, keys, env, env.hf_token_usable);
    let h = huggingface_stage(name, env);
    let d = declared_stage(name, provider_type, env);
    let ozk = stages_from_oauth(name, keys, env);
    lemma_no_token_lookups(ozk.queries);
    assert(token_lookups(h.queries) <= 1) by {
        reveal_with_fuel(token_lookups, 2);
    }
    assert(token_lookups(d.queries) <= 1) by {
        reveal_with_fuel(token_lookups, 4);
    }
    lemma_token_lookups_add(d.queries, ozk.queries);
    let dz = then(d, ozk);
    lemma_token_lookups_add(h.queries, dz.queries);
    if name == LOCAL_PROVIDER_NAME@ {
        assert(token_lookups(Seq::<QueryView>::empty()) == 0);
    }
}

} // verus!
