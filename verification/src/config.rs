//! Configuration handed in at startup: a single "show the help
//! footer" toggle. The shell reads (or creates) the configuration
//! file and passes the parsed values in as plain data.
use vstd::prelude::*;

verus! {

/// The interface section of the configuration.
pub struct Ui {
    pub show_help: bool,
}

/// The whole configuration.
pub struct ConfigToml {
    pub ui: Ui,
}

pub struct Config;

impl Config {
    /// The configuration used when no file exists yet: the help
    /// footer is shown.
    pub fn get_default() -> (r: ConfigToml)
        ensures
            r.ui.show_help == true,
    {
        ConfigToml { ui: Ui { show_help: true } }
    }
}

} // verus!
