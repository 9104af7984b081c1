//! The options of the command line, with the values they take when the
//! user gives none.

use vstd::prelude::*;
use vstd::string::*;

verus! {

/// The options of the command line.
#[derive(Clone, Debug, PartialEq, Eq)]
pub struct Cli {
    /// Directory for configuration files.
    pub config_dir: String,
    /// Directory for log files.
    pub log_dir: String,
    /// Directory for data files.
    pub data_dir: String,
    /// Frames per second.
    pub framerate: u32,
    /// Ticks per second.
    pub tick_rate: u32,
}

impl Default for Cli {
    fn default() -> (out: Cli)
        ensures
            out.config_dir@ == "~/.config/rscantui"@,
            out.log_dir@ == "~/.local/share/rscantui/logs"@,
            out.data_dir@ == "~/.rscantui"@,
            out.framerate == 30,
            out.tick_rate == 10,
    {
        Cli {
            config_dir: "~/.config/rscantui".to_owned(),
            log_dir: "~/.local/share/rscantui/logs".to_owned(),
            data_dir: "~/.rscantui".to_owned(),
            framerate: 30,
            tick_rate: 10,
        }
    }
}

} // verus!
