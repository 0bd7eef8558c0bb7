use vstd::prelude::*;

verus! {

/// Command-line arguments of the programs: where the configuration file is.
pub struct CLIArguments {
    /// Path of the configuration file.
    pub config_path: String,
}

} // verus!
