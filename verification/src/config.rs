//! The settings of one port process, as plain values.

use crate::data_structure::strings_view;
use vstd::prelude::*;
use vstd::string::*;

verus! {

/// The speed of a serial line, in bits per second.
#[derive(Copy, Clone, Debug, PartialEq, Eq, PartialOrd, Ord, Structural)]
pub struct TTYBaudrate(pub u32);

impl Default for TTYBaudrate {
    fn default() -> (r: Self)
        ensures
            r == TTYBaudrate(9600),
    {
        TTYBaudrate(9600)
    }
}

/// A serial line.
#[derive(Clone, Debug, PartialEq)]
pub struct TTYConfig {
    pub path: String,
    pub baudrate: TTYBaudrate,
}

/// A console reached over TCP.
#[derive(Clone, Debug, PartialEq)]
pub struct RawTCPConfig {
    pub endpoint: String,
}

/// Where the console of the device is.
#[derive(Clone, Debug, PartialEq)]
pub enum AngelPortConfig {
    TTY(TTYConfig),
    RawTCP(RawTCPConfig),
}

/// Where news of the job is sent, and under which name.
#[derive(Clone, Debug, PartialEq)]
pub struct AngelHeavenConfig {
    pub id: String,
    pub host: String,
    pub port: u16,
}

/// The settings of one port process.
#[derive(Clone, Debug, PartialEq)]
pub struct AngelConfig {
    pub log_level: Option<String>,
    pub log_dir: Option<String>,
    /// The fragments to activate.
    pub active_states: Vec<String>,
    /// The settings that actions can send to the console.
    pub job_config: Vec<(String, String)>,
    pub port: AngelPortConfig,
    pub heaven: Option<AngelHeavenConfig>,
}

/// The fragments that are activated where the settings name none.
pub fn default_active_states() -> (r: Vec<String>)
    ensures
        strings_view(r@) == seq!["wipe"@],
{
    let mut v: Vec<String> = Vec::new();
    v.push(String::from_str("wipe"));
    assert(strings_view(v@) =~= seq!["wipe"@]);
    v
}

} // verus!
