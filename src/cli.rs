use vstd::prelude::*;

verus! {

/// The command line: one subcommand.
#[derive(Clone, Copy, Debug, PartialEq, Eq, Structural)]
pub struct Cli {
    pub command: Commands,
}

/// What the program does: simulate the sensory circuit and plot it, or open the
/// graphical circuit editor.
#[derive(Clone, Copy, Debug, PartialEq, Eq, Structural)]
pub enum Commands {
    Run,
    Gui,
}

} // verus!
