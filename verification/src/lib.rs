//! The decisions of the `katoa` command line: where pipelines are found, which of them run,
//! what is handed to the programs that do the work, and what their answers lead to.

pub mod text;
pub mod failure;
pub mod style;
pub mod version;
pub mod paths;
pub mod locate;
pub mod command;
pub mod backend;
pub mod deno;
pub mod pipeline;
pub mod buildkitd;
pub mod images;
pub mod secrets;
pub mod dag;
pub mod jobs;
pub mod select;
pub mod bootstrap;
pub mod scaffold;
pub mod setup;
pub mod commands;
