//! What the command line selects.

use vstd::prelude::*;

verus! {

/// Arguments of the `run` subcommand.
#[derive(Debug)]
pub struct RunArgs {
    /// The rune file to run; the default file where none is given.
    pub file: Option<String>,
}

/// The subcommand.
#[derive(Debug)]
pub enum Mode {
    /// Runs a rune file.
    Run(RunArgs),
    /// The command-line front end.
    Cli,
    /// The desktop front end.
    Desktop,
}

/// The parsed command line.
#[derive(Debug)]
pub struct Cli {
    pub mode: Mode,
}

} // verus!
