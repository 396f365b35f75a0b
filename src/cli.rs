//! The command line the program accepts.
use vstd::prelude::*;

verus! {

/// The command line: with no subcommand the board opens.
#[derive(Debug)]
pub struct Cli {
    pub command: Option<Commands>,
}

/// The subcommands of the program.
#[derive(Clone, Copy, Debug, PartialEq, Eq, Structural)]
pub enum Commands {
    /// Update the program to its latest release.
    Update,
}

} // verus!
