pub mod extract;
pub mod glob;
pub mod lemmas;
pub mod path;
pub mod rename;
pub mod sort;
mod statistics;
pub mod time;

use vstd::prelude::*;
use crate::extract::ExtractError;
use crate::path::target_of;
use crate::rename::{rename_file, RenameAction};
use crate::time::{offset_of, parse_offset, render, shown_in, strftime_bytes, valid_offset, with_offset, Timestamp};

pub use statistics::{Outcome, Statistics};

verus! {

/// What a run is asked to do.
pub struct RamboOptions {
    /// The glob pattern that selects the files.
    pub pattern: String,
    /// Apply the renames; by default a run only reports them.
    pub no_dry_run: bool,
    /// Match the pattern without regard to case.
    pub case_insensitive: bool,
    /// The strftime template of the new file stems.
    pub format: String,
    /// An offset such as `+01:00` to show every time in.
    pub time_offset: Option<String>,
    /// Include and follow symbolic links.
    pub include_symlinks: bool,
}

/// The settings that each item of a run is processed with.
pub struct RunConfig {
    pub dry_run: bool,
    pub format: String,
    /// The offset, in seconds east of UTC, that replaces each file's own.
    pub time_offset: Option<i32>,
}

impl RunConfig {
    pub open spec fn wf(&self) -> bool {
        self.time_offset matches Some(o) ==> valid_offset(o as int)
    }
}

/// A setting that stops a run before any file is looked at.
#[derive(Debug, PartialEq, Eq)]
pub enum ConfigError {
    InvalidTimeOffset(String),
}

/// Turns the options into the settings of a run; an offset that does not
/// parse is an error.
pub fn configure(options: &RamboOptions) -> (r: Result<RunConfig, ConfigError>)
    ensures
        match options.time_offset {
            None => r matches Ok(c) && c.time_offset is None,
            Some(s) => match offset_of(s@) {
                Some(o) => r matches Ok(c) && c.time_offset == Some(o),
                None => r matches Err(ConfigError::InvalidTimeOffset(t)) && t@ == s@,
            },
        },
        r matches Ok(c) ==> c.wf() && c.dry_run == !options.no_dry_run && c.format@
            == options.format@,
{
    let time_offset = match &options.time_offset {
        None => None,
        Some(text) => match parse_offset(text.as_str()) {
            Some(o) => Some(o),
            None => {
                return Err(ConfigError::InvalidTimeOffset(text.clone()));
            },
        },
    };
    Ok(RunConfig { dry_run: !options.no_dry_run, format: options.format.clone(), time_offset })
}

/// How a run goes on once the pattern has been walked.
#[derive(Clone, Copy, Debug, PartialEq, Eq, Structural)]
pub enum Discovery {
    /// There are paths to process.
    Proceed,
    /// Nothing matched and nothing failed: the run is over, successfully.
    NothingMatched,
    /// Nothing could be listed but errors: the run is over, and failed.
    NothingReadable,
}

pub fn discovery_verdict(n_paths: usize, n_errors: usize) -> (r: Discovery)
    ensures
        n_paths > 0 ==> r == Discovery::Proceed,
        n_paths == 0 && n_errors == 0 ==> r == Discovery::NothingMatched,
        n_paths == 0 && n_errors > 0 ==> r == Discovery::NothingReadable,
{
    if n_paths > 0 {
        Discovery::Proceed
    } else if n_errors == 0 {
        Discovery::NothingMatched
    } else {
        Discovery::NothingReadable
    }
}

/// What was learned of one listed path, in the order it is learned.
pub enum ItemProbe {
    /// The path is not a plain file (a directory, say).
    NotAFile,
    /// The file could not be opened.
    OpenFailed(String),
    /// The file was opened and its creation time looked for.
    Extracted(Result<Timestamp, ExtractError>),
}

/// What becomes of one item: nothing, a counted outcome, or a move to make.
pub enum ItemPlan {
    Ignore,
    Count(Outcome),
    Move(Seq<u8>),
}

/// The new stem of an item whose creation time is `t`, if it renders.
pub open spec fn stem_of(config: RunConfig, t: Timestamp) -> Option<Seq<u8>> {
    let s = shown_in(t, config.time_offset);
    strftime_bytes(config.format@, s.seconds as int, s.nanos as int, s.offset_seconds as int)
}

/// What becomes of the item at `path` given what was learned of it.
pub open spec fn item_plan(config: RunConfig, path: Seq<u8>, probe: ItemProbe) -> ItemPlan {
    match probe {
        ItemProbe::NotAFile => ItemPlan::Ignore,
        ItemProbe::OpenFailed(_) => ItemPlan::Count(Outcome::Failed),
        ItemProbe::Extracted(Err(_)) => ItemPlan::Count(Outcome::Failed),
        ItemProbe::Extracted(Ok(t)) => match stem_of(config, t) {
            None => ItemPlan::Count(Outcome::Failed),
            Some(stem) => {
                let target = target_of(path, stem);
                if target == path {
                    ItemPlan::Count(Outcome::Skipped)
                } else if config.dry_run {
                    ItemPlan::Count(Outcome::Renamed)
                } else {
                    ItemPlan::Move(target)
                }
            },
        },
    }
}

/// Whether the counters can take one more of each outcome.
pub open spec fn has_room(s: Statistics) -> bool {
    s.skipped_files < u64::MAX && s.failed_files < u64::MAX && s.renamed_files < u64::MAX
}

/// Processes one listed path: counts its outcome, or hands back the path that
/// the file must be moved to; once moved or not, `Statistics::record_move`
/// counts it.
pub fn process_item(
    config: &RunConfig,
    path: &Vec<u8>,
    probe: &ItemProbe,
    statistics: &mut Statistics,
) -> (r: Option<Vec<u8>>)
    requires
        has_room(*old(statistics)),
    ensures
        match item_plan(*config, path@, *probe) {
            ItemPlan::Ignore => r is None && *final(statistics) == *old(statistics),
            ItemPlan::Count(o) => r is None && *final(statistics) == old(statistics).after(o),
            ItemPlan::Move(t) => r matches Some(p) && p@ == t && *final(statistics) == *old(
                statistics,
            ),
        },
{
    match probe {
        ItemProbe::NotAFile => None,
        ItemProbe::OpenFailed(_) => {
            statistics.record(Outcome::Failed);
            None
        },
        ItemProbe::Extracted(Err(_)) => {
            statistics.record(Outcome::Failed);
            None
        },
        ItemProbe::Extracted(Ok(t)) => {
            let shown = with_offset(*t, config.time_offset);
            match render(shown, config.format.as_str()) {
                None => {
                    statistics.record(Outcome::Failed);
                    None
                },
                Some(stem) => match rename_file(path, &stem, config.dry_run) {
                    RenameAction::Skip => {
                        statistics.record(Outcome::Skipped);
                        None
                    },
                    RenameAction::Preview(_) => {
                        statistics.record(Outcome::Renamed);
                        None
                    },
                    RenameAction::Move(target) => Some(target),
                },
            }
        },
    }
}

} // verus!
