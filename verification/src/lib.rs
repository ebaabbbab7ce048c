//! Synchronisation of conversation histories and settings with a shared repository.
//!
//! `settings` decides whose `settings.json` wins; `pull` and `push` carry an operation from step
//! to step, on the decisions of `pull_plan` and `push_plan`; `sync` puts the two in sequence;
//! `report` sums up what was done. `path` and `text` hold what these need of paths and text, `json`
//! and `clock` what is taken on trust of JSON values and of time. The `_steps` modules
//! state what each answer leads to, the `_laws` modules what holds of whole runs.
pub mod clock;
pub mod filter;
pub mod json;
pub mod path;
pub mod path_laws;
pub mod pull;
pub mod pull_laws;
pub mod pull_plan;
pub mod pull_steps;
pub mod push;
pub mod push_laws;
pub mod push_plan;
pub mod push_steps;
pub mod report;
pub mod session;
pub mod settings;
pub mod sync;
pub mod text;
