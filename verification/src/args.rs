//! Command-line arguments, as plain data.
//!
//! Parsing, help text and terminal styling belong to the command-line
//! layer around the library; this is the value that layer produces.

use vstd::prelude::*;
use vstd::string::StringExecFns;

verus! {

/// The program's arguments: the path of the configuration file to
/// load the simulation from.
#[derive(Debug)]
pub struct Args {
    pub config: String,
}

impl Default for Args {
    /// The default configuration path.
    fn default() -> (r: Self)
        ensures
            r.config@ == "config.toml"@,
    {
        Args { config: String::from_str("config.toml") }
    }
}

} // verus!
