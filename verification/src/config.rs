//! The launcher's own settings, read from a small user settings file
//! by the surrounding program and handed in as plain values.

use vstd::prelude::*;
use vstd::string::StringExecFns;

verus! {

/// The user's settings: the command prefix that spawns the terminal
/// running the ssh client, and the plugin library paths, whose order
/// fixes both inspection order and override precedence.
#[derive(Debug, PartialEq, Eq)]
pub struct Config {
    pub launcher_cmd: Vec<String>,
    pub plugins: Vec<String>,
}

impl Default for Config {
    /// Launch through `cmd.exe /c`, with no plugins.
    fn default() -> (r: Config)
        ensures
            r.launcher_cmd.deep_view() == seq!["cmd.exe"@, "/c"@],
            r.plugins@ == Seq::<String>::empty(),
    {
        let mut launcher_cmd: Vec<String> = Vec::new();
        launcher_cmd.push(String::from_str("cmd.exe"));
        launcher_cmd.push(String::from_str("/c"));
        let r = Config { launcher_cmd, plugins: Vec::new() };
        proof {
            assert(r.launcher_cmd.deep_view() =~~= seq!["cmd.exe"@, "/c"@]);
        }
        r
    }
}

} // verus!
