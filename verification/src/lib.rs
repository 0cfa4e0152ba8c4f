//! Baiban: a project scaffolding tool. It keeps a list of project templates
//! (built-in ones and the user's own), clones the chosen template's
//! repository, optionally through a GitHub mirror, and prepares the new
//! project.
pub mod cli;
pub mod config;
pub mod create;
pub mod manifest;
pub mod remove;
pub mod template;
pub mod text;
pub mod ui;
