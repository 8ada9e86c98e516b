//! Verified core of `dumpx`: size parsing, naming, templates, and sample content.

pub mod text;
pub mod error;
pub mod size;
pub mod naming;
pub mod fakes;
pub mod placeholders;
pub mod template;
pub mod formats;
pub mod output;
pub mod cli;
