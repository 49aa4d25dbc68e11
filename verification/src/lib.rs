//! Management core for a Wine/Proton game launcher: secure release
//! fetching and archive extraction, runner discovery and version
//! bookkeeping, and injection-resistant launch-command compilation.

pub mod archive;
pub mod chars;
pub mod cli;
pub mod command;
pub mod config;
pub mod dirs;
pub mod executor;
pub mod fetch;
pub mod registry;
pub mod validation;
pub mod version;
