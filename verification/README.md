# goose configuration logic, verified

A Verus library holding the decisions of the goose agent's configuration code,
with contracts proved by Verus:

- `src/clipboard.rs`: which clipboard tool to try next, and the OSC 52 escape
  sequence used when none works (refused above 100 000 bytes).
- `src/configured.rs`: whether a provider is configured. The check is a step
  function: given the answers to the lookups made so far (environment
  variables, config file, secret store, provider files, OAuth token), it names
  the next lookup or gives the outcome. Its contract is stated against a model
  of everything those lookups read; laws at the end of the file state the rules
  directly and prove them of the lookups.
- `src/model_config.rs`: boolean settings, the tool-shim model, the fast-model
  resolution order, the fast-model fallback, and which steps complete a model
  configuration.
- `src/providers.rs`: provider metadata and provider files.
- `src/text.rs`: `str::trim` and `str::to_lowercase`, with their documented
  behaviour as contracts.

`app/` performs the I/O: it runs clipboard commands, writes to the terminal,
answers the configured check's lookups, converts YAML values, and holds the
task-local model-picker flag.

## What is not here

Building and completing a model configuration (`model_config_from_user_config`,
`materialize_model_config` and its session-settings variant), and turning a
chosen fast-model name into a configuration, are calls on `ModelConfig` and on
goose's own config store and provider registry, none of which this crate
depends on. The library holds the decisions those calls follow: the
materialization plan, the tool-shim and fast-model settings, the fast-model
resolution order and the fallback to the main model. It follows that the rule
"a model's canonical context limit wins over `GOOSE_CONTEXT_LIMIT`" is not
stated here, and that the caller of `complete_fast`'s decision sets the
thinking effort off and the session id on each completion.
