//! Validation of the settings read at startup.
use crate::checker::TickRun;
use crate::models::Config;
use vstd::prelude::*;

verus! {

/// Which log the results of each tick go to.
#[derive(Clone, Copy, Debug, PartialEq, Eq, Structural)]
pub enum OutputFormat {
    Csv,
    Json,
}

/// Why the settings cannot drive the poller.
#[derive(Clone, Copy, Debug, PartialEq, Eq, Structural)]
pub enum ConfigError {
    /// No URL is listed.
    NoUrls,
    /// The interval between ticks is zero seconds.
    ZeroInterval,
    /// The output format is neither "csv" nor "json", in any case.
    UnknownFormat,
}

/// Validated settings: at least one URL, a positive interval, and a known
/// output format.
#[derive(Clone, Debug, PartialEq, Eq)]
pub struct PollConfig {
    pub urls: Vec<String>,
    pub csv_file_path: String,
    pub json_file_path: String,
    pub interval_seconds: u64,
    pub format: OutputFormat,
}

impl PollConfig {
    pub open spec fn wf(&self) -> bool {
        self.urls@.len() > 0 && self.interval_seconds > 0
    }

    /// The file that the selected format writes to.
    pub fn output_path(&self) -> (r: &String)
        ensures
            r == (match self.format {
                OutputFormat::Csv => &self.csv_file_path,
                OutputFormat::Json => &self.json_file_path,
            }),
    {
        match self.format {
            OutputFormat::Csv => &self.csv_file_path,
            OutputFormat::Json => &self.json_file_path,
        }
    }

    /// A fresh tick over the configured URLs.
    pub fn start_tick(&self) -> (r: TickRun)
        ensures
            r.wf(),
            r@.urls == self.urls@,
            r@.outcomes.len() == 0,
    {
        let mut urls: Vec<String> = Vec::new();
        let mut i: usize = 0;
        while i < self.urls.len()
            invariant
                i <= self.urls@.len(),
                urls@ == self.urls@.subrange(0, i as int),
            decreases self.urls@.len() - i,
        {
            urls.push(self.urls[i].clone());
            i = i + 1;
        }
        assert(urls@ =~= self.urls@);
        TickRun::new(urls)
    }
}

/// `c` is the lower-case ASCII letter or other character `lower`, or the
/// upper-case form of that letter.
pub open spec fn same_ignoring_ascii_case(c: char, lower: char) -> bool {
    c == lower || ('a' <= lower <= 'z' && c as u32 + 32 == lower as u32)
}

/// `s` spells the lower-case word `word` in any mix of ASCII cases.
pub open spec fn spells_word(s: Seq<char>, word: Seq<char>) -> bool {
    s.len() == word.len() && forall|i: int|
        0 <= i < s.len() ==> same_ignoring_ascii_case(#[trigger] s[i], word[i])
}

/// The format that `s` names; the names "csv" and "json" are matched without
/// regard to case.
pub open spec fn format_named(s: Seq<char>) -> Option<OutputFormat> {
    if spells_word(s, "csv"@) {
        Some(OutputFormat::Csv)
    } else if spells_word(s, "json"@) {
        Some(OutputFormat::Json)
    } else {
        None
    }
}

fn matches_word(s: &str, word: &str) -> (r: bool)
    ensures
        r == spells_word(s@, word@),
{
    let n = s.unicode_len();
    if n != word.unicode_len() {
        return false;
    }
    let mut i: usize = 0;
    while i < n
        invariant
            n == s@.len(),
            n == word@.len(),
            i <= n,
            forall|j: int| 0 <= j < i ==> same_ignoring_ascii_case(#[trigger] s@[j], word@[j]),
        decreases n - i,
    {
        let c = s.get_char(i);
        let w = word.get_char(i);
        if !(c == w || ('a' <= w && w <= 'z' && (c as u32) + 32 == (w as u32))) {
            return false;
        }
        i = i + 1;
    }
    true
}

/// Reads the name of an output format, ignoring ASCII case. For these two
/// names this agrees with full Unicode lower-casing: no other character
/// lower-cases to one of their letters.
pub fn parse_output_format(s: &str) -> (r: Option<OutputFormat>)
    ensures
        r == format_named(s@),
{
    if matches_word(s, "csv") {
        Some(OutputFormat::Csv)
    } else if matches_word(s, "json") {
        Some(OutputFormat::Json)
    } else {
        None
    }
}

/// Checks the settings read at startup. The URL list is checked first, then
/// the interval, then the output format.
pub fn validate_config(config: Config) -> (r: Result<PollConfig, ConfigError>)
    ensures
        r is Ok <==> config.urls_to_check@.len() > 0 && config.ping_interval_seconds > 0
            && format_named(config.output_format@) is Some,
        r matches Ok(p) ==> {
            &&& p.wf()
            &&& p.urls@ == config.urls_to_check@
            &&& p.csv_file_path == config.csv_file_path
            &&& p.json_file_path == config.json_file_path
            &&& p.interval_seconds == config.ping_interval_seconds
            &&& Some(p.format) == format_named(config.output_format@)
        },
        r matches Err(e) ==> (e == ConfigError::NoUrls <==> config.urls_to_check@.len() == 0),
        r matches Err(e) ==> (e == ConfigError::ZeroInterval <==> config.urls_to_check@.len() > 0
            && config.ping_interval_seconds == 0),
        r matches Err(e) ==> (e == ConfigError::UnknownFormat <==> config.urls_to_check@.len() > 0
            && config.ping_interval_seconds > 0),
{
    if config.urls_to_check.len() == 0 {
        return Err(ConfigError::NoUrls);
    }
    if config.ping_interval_seconds == 0 {
        return Err(ConfigError::ZeroInterval);
    }
    match parse_output_format(config.output_format.as_str()) {
        Some(format) => Ok(
            PollConfig {
                urls: config.urls_to_check,
                csv_file_path: config.csv_file_path,
                json_file_path: config.json_file_path,
                interval_seconds: config.ping_interval_seconds,
                format,
            },
        ),
        None => Err(ConfigError::UnknownFormat),
    }
}

} // verus!
