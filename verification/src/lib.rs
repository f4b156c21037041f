//! The core of a `head`-style utility: validating the counts given on a
//! command line, choosing the leading lines or bytes of an input, and laying
//! out what is printed for a list of files.

pub mod args;
pub mod config;
pub mod count;
pub mod laws;
pub mod lines;
pub mod machine;
pub mod run;
pub mod text;

pub use args::get_args;
pub use config::Config;
pub use run::run;
