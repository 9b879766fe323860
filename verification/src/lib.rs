//! Configuration decisions of the goose agent, verified with Verus: clipboard
//! fallback order, provider "is configured" rules, and the parsing and
//! resolution of model settings read from user configuration.

pub mod clipboard;
pub mod configured;
pub mod model_config;
pub mod providers;
pub mod text;
