//! The interactive shell.

pub mod disk;
pub mod line;
pub mod local;
pub mod parse;
pub mod pipeline;
pub mod report;
pub mod report_laws;
pub mod run;
pub mod shell_laws;
pub mod start;
