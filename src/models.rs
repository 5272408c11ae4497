//! The records that a check produces and the settings that drive it.
use vstd::prelude::*;

verus! {

/// Whether a URL answered well at the time of a check.
#[derive(Clone, Copy, Debug, PartialEq, Eq, Structural)]
pub enum Reachability {
    Online,
    Offline,
}

impl Reachability {
    /// The word written to the logs for this value.
    pub open spec fn label_spec(self) -> Seq<char> {
        match self {
            Reachability::Online => "Online"@,
            Reachability::Offline => "Offline"@,
        }
    }

    pub fn label(&self) -> (r: &'static str)
        ensures
            r@ == self.label_spec(),
    {
        match self {
            Reachability::Online => "Online",
            Reachability::Offline => "Offline",
        }
    }
}

/// The outcome of checking one URL once.
#[derive(Clone, Debug, PartialEq, Eq)]
pub struct Status {
    pub url: String,
    pub status: Reachability,
    /// The HTTP status code received; 0 when no response came.
    pub http_status_code: u16,
    /// Seconds since the Unix epoch at which the check finished.
    pub last_ping_time: u64,
}

/// The settings as read from the configuration file, not yet validated.
#[derive(Clone, Debug, PartialEq, Eq)]
pub struct Config {
    pub urls_to_check: Vec<String>,
    pub csv_file_path: String,
    pub json_file_path: String,
    pub ping_interval_seconds: u64,
    pub output_format: String,
}

} // verus!
