pub mod dependencies;
pub mod input;
pub mod printer;
pub mod utils;

use vstd::prelude::*;

verus! {

/// The subcommands of the catalog's command line.
#[derive(Debug, Clone, Copy, PartialEq, Eq)]
pub enum Commands {
    Add,
    List,
    Search,
}

/// A parsed command line.
pub struct Cli {
    pub command: Commands,
}

} // verus!
