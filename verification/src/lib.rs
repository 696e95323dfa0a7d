//! Verified core of the Vapor shell: manifest identity rules, source and
//! installation layout, content lifecycle planning, and the text rules that
//! the shell applies to names, paths, and generated files.

pub mod text;
pub mod checks;
pub mod keyed;
pub mod paths;
pub mod manifest;
pub mod discovery;
pub mod content;
pub mod content_state;
pub mod fingerprint;
pub mod workshop;
pub mod lifecycle;
pub mod workspace;
pub mod cargo_metadata;
pub mod state;
pub mod source_registry;
pub mod app_local_tools;
pub mod distribution;
pub mod metadata;
pub mod install;
pub mod workflow;
pub mod command;
pub mod launch;
pub mod diagnostics;
pub mod entrypoint;
pub mod steam;
pub mod path_setup;
pub mod startup;
pub mod authored;
pub mod documentation;
pub mod cross_toolchain;
pub mod git_provider;
pub mod ide;
pub mod setup_self;
pub mod deployed;
pub mod release;
pub mod metadata_report;
