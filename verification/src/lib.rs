//! Concatenates text inputs line by line, optionally numbering the lines.
//!
//! The library works on plain values: the command line as a list of strings,
//! each input as the lines that were read from it. Opening and reading the
//! inputs, and printing the result, are left to the caller.

pub mod args;
pub mod config;
pub mod decimal;
pub mod render;
pub mod run;

pub use args::get_args;
pub use config::Config;
pub use run::run;
