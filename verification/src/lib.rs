//! Decisions behind a few `hab` commands.

pub mod arg;
pub mod binlink;
pub mod clean_delete;
pub mod deletion;
pub mod deletion_laws;
pub mod engine;
pub mod ident;
pub mod ident_laws;
pub mod latest;
pub mod path;
pub mod prompt;
pub mod prompt_laws;
pub mod setup;
pub mod setup_calls;
pub mod setup_laws;
pub mod setup_outcome;
pub mod setup_steps;
pub mod setup_text;
pub mod supervisor;
pub mod text;
pub mod uninstall;
pub mod uninstall_calls;
pub mod uninstall_laws;
pub mod uninstall_outcome;
pub mod uninstall_steps;
