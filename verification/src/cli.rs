use crate::docgen::diataxis::DocCategory;
use vstd::prelude::*;

verus! {

/// The command-line surface: which command was asked for. Argument parsing
/// happens outside this library; these types carry the parsed result.
#[derive(Debug)]
pub struct Cli {
    pub command: Option<Commands>,
}

/// The commands the program offers.
#[derive(Debug)]
pub enum Commands {
    Run { plan: String },
    Chat { message: Option<String> },
    Auth { command: AuthCommands },
    Generate {
        repository: String,
        category: DocCategory,
        topic: String,
        output: String,
        overwrite: bool,
    },
}

/// The authentication subcommands.
#[derive(Debug)]
pub enum AuthCommands {
    Login,
}

} // verus!
