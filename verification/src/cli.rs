//! The command model: what a caller can ask of the tool. The actual
//! argument parsing and dispatch live in the thin I/O shell, which
//! maps its parsed arguments onto these values.

use vstd::prelude::*;

verus! {

/// A top-level request.
#[derive(Debug, Clone)]
pub enum Commands {
    /// Add a new game.
    Add {
        name: String,
        exe: Option<String>,
        installer: Option<String>,
        interactive: bool,
        proton: Option<String>,
        prefix: Option<String>,
    },
    /// Launch a game.
    Launch { name: String },
    /// List all games.
    List,
    /// Remove a game.
    Remove { name: String },
    /// Show game information.
    Info { name: String },
    /// Runner management.
    Runners { command: RunnerCommands },
    /// Prefix management.
    Prefix { command: PrefixCommands },
    /// Desktop-shortcut management.
    Shortcut { command: ShortcutCommands },
}

/// A runner-management request.
#[derive(Debug, Clone)]
pub enum RunnerCommands {
    /// List installed runners.
    List,
    /// Refresh the runner cache.
    Refresh,
    /// Show available runners for download.
    Available,
    /// Install a runner.
    Install { runner_type: String, version: String },
    /// Install the translation layer into a prefix.
    InstallDxvk { version: String, prefix: String },
    /// Remove an installed runner.
    Remove { runner_type: String, version: String },
}

/// A prefix-management request.
#[derive(Debug, Clone)]
pub enum PrefixCommands {
    /// Create a new prefix.
    Create { name: String, proton: Option<String> },
    /// List all prefixes.
    List,
    /// Remove a prefix.
    Remove { name: String },
    /// Run an executable in a prefix.
    Run { prefix: String, exe: String, proton: Option<String> },
}

/// A shortcut-management request.
#[derive(Debug, Clone)]
pub enum ShortcutCommands {
    /// Create a desktop shortcut for a game.
    Create { name: String },
    /// Remove a game's desktop shortcut.
    Remove { name: String },
    /// Recreate every game's desktop shortcut.
    Sync,
    /// List all desktop shortcuts.
    List,
    /// Extract an icon from a game's executable.
    ExtractIcon { name: String },
    /// List all extracted icons.
    ListIcons,
}

} // verus!
