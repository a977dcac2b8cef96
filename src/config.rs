use vstd::prelude::*;
use vstd::string::StringExecFns;
use crate::levels::{
    all_in_range, first_invalid, level_of, merged_level, raw_view, InvalidLevel, LevelTable,
};

verus! {

/// The configuration as the file states it, before defaults are applied.
pub struct RawConfig {
    /// Path of the drive tool, if the file names one.
    pub hdparm_path: Option<String>,
    /// Device patterns, in the order they are to be processed.
    pub devices: Vec<String>,
    /// Named levels as the file gives them.
    pub levels: Vec<(String, i64)>,
}

/// What the command line asks for.
pub struct CommandLine {
    /// The positional level name, if one was given.
    pub level: Option<String>,
    /// Whether the `show` subcommand was given.
    pub show: bool,
    /// Whether the `list` subcommand was given.
    pub list: bool,
}

/// What a run does: query the devices, list the levels, or set a named level.
#[derive(Debug, PartialEq, Eq)]
pub enum Mode {
    Show,
    List,
    SetLevel(String),
}

/// The mode a command line resolves to: listing wins over everything, an explicit
/// show over a level name, and with neither a level name nor listing the run shows.
pub open spec fn mode_spec(level: Option<Seq<char>>, show: bool, list: bool, m: Mode) -> bool {
    if list {
        m is List
    } else if show || level is None {
        m is Show
    } else {
        m matches Mode::SetLevel(n) && Some(n@) == level
    }
}

pub open spec fn opt_view(o: Option<String>) -> Option<Seq<char>> {
    match o {
        Some(s) => Some(s@),
        None => None,
    }
}

/// The drive tool used when the configuration names none.
pub fn default_hdparm_path() -> (r: String)
    ensures
        r@ == "/sbin/hdparm"@,
{
    String::from_str("/sbin/hdparm")
}

/// Resolves the run mode from the command line.
pub fn resolve_mode(level: Option<String>, show: bool, list: bool) -> (r: Mode)
    ensures
        mode_spec(opt_view(level), show, list, r),
{
    if list {
        Mode::List
    } else if show {
        Mode::Show
    } else {
        match level {
            Some(n) => Mode::SetLevel(n),
            None => Mode::Show,
        }
    }
}

/// A configuration with defaults applied and the command line resolved.
pub struct Config {
    pub hdparm_path: String,
    pub devices: Vec<String>,
    pub levels: LevelTable,
    pub mode: Mode,
}

impl Config {
    pub open spec fn wf(&self) -> bool {
        self.levels.wf()
    }

    /// Applies the defaults to `raw`, checks its levels and resolves the mode from
    /// `cmd`. The only failure is a level value out of range.
    pub fn resolve(raw: RawConfig, cmd: CommandLine) -> (r: Result<Config, InvalidLevel>)
        ensures
            r is Ok <==> all_in_range(raw_view(raw.levels@)),
            r matches Err(e) ==> exists|i: int|
                first_invalid(raw_view(raw.levels@), i) && e.name@ == raw.levels@[i].0@
                    && e.value == raw.levels@[i].1,
            r matches Ok(c) ==> {
                &&& c.wf()
                &&& c.hdparm_path@ == match raw.hdparm_path {
                    Some(p) => p@,
                    None => "/sbin/hdparm"@,
                }
                &&& c.devices@ == raw.devices@
                &&& forall|n: Seq<char>| #[trigger] level_of(c.levels@, n)
                    == merged_level(raw_view(raw.levels@), n)
                &&& mode_spec(opt_view(cmd.level), cmd.show, cmd.list, c.mode)
            },
    {
        let levels = match LevelTable::from_config(&raw.levels) {
            Ok(t) => t,
            Err(e) => {
                return Err(e);
            },
        };
        let hdparm_path = match raw.hdparm_path {
            Some(p) => p,
            None => default_hdparm_path(),
        };
        let mode = resolve_mode(cmd.level, cmd.show, cmd.list);
        Ok(Config { hdparm_path, devices: raw.devices, levels, mode })
    }
}

} // verus!
