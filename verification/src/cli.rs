//! The commands of the program, as plain data.
use vstd::prelude::*;

verus! {

/// The parsed command line.
#[derive(Debug)]
pub struct Cli {
    pub command: Commands,
}

/// The top-level commands.
#[derive(Debug)]
pub enum Commands {
    /// Create a new project.
    Create {
        /// The project's name; asked for when absent.
        name: Option<String>,
        /// The template's name; chosen interactively when absent.
        template: Option<String>,
        /// The directory to create the project in; the current one when absent.
        dir: Option<String>,
        /// A GitHub mirror prefix for this run.
        mirror: Option<String>,
        /// Skip the confirmation.
        yes: bool,
    },
    /// Manage templates.
    Template(TemplateCommands),
    /// Manage settings.
    Config(ConfigCommands),
}

/// The subcommands of `template`.
#[derive(Debug)]
pub enum TemplateCommands {
    /// List all templates.
    List,
    /// Add a user template.
    Add,
    /// Remove a user template.
    Remove { name: Option<String> },
}

/// The subcommands of `config`.
#[derive(Debug)]
pub enum ConfigCommands {
    /// Set the user's GitHub mirror.
    SetMirror { url: String },
    /// Clear the user's GitHub mirror.
    ClearMirror,
    /// Show the settings.
    Show,
}

} // verus!
