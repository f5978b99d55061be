use vstd::prelude::*;

verus! {

/// The command line: one command.
pub struct CmdOptions {
    pub command: AppCommand,
}

pub enum AppCommand {
    /// Serve documentation, from the given working directory or the current one.
    Start { cwd: Option<String> },
    /// Print the version.
    Version,
}

} // verus!
