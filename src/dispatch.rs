use vstd::prelude::*;
use vstd::string::StringExecFns;
use crate::config::{Config, Mode};
use crate::levels::{listing_line, merged_level, NoSuchLevel};
use crate::text::{decimal, decimal_string};

verus! {

/// What the drive tool is asked for each device: the current state, or a level.
#[derive(Debug, Clone, Copy, PartialEq, Eq)]
pub enum ToolArgument {
    Query,
    Level(u8),
}

/// What a run does after the privileges are raised.
#[derive(Debug, PartialEq, Eq)]
pub enum RunPlan {
    /// Print these lines and touch no device.
    List(Vec<String>),
    /// Run the drive tool with this argument on every device found.
    Devices(ToolArgument),
}

/// One run of the drive tool.
#[derive(Debug, PartialEq, Eq)]
pub struct Invocation {
    pub program: String,
    pub args: Vec<String>,
}

/// The arguments the drive tool gets for `device`: the acoustic-management flag,
/// then the level when one is set, then the device.
pub open spec fn invocation_args(arg: ToolArgument, device: Seq<char>) -> Seq<Seq<char>> {
    match arg {
        ToolArgument::Query => seq!["-M"@, device],
        ToolArgument::Level(v) => seq!["-M"@, decimal(v as nat), device],
    }
}

pub open spec fn args_view(args: Seq<String>) -> Seq<Seq<char>> {
    args.map_values(|a: String| a@)
}

/// Decides what a run does. Listing needs no level; showing queries every device;
/// setting a level translates its name once, for every device, and fails on an
/// unknown name before any device is touched.
pub fn plan_run(config: &Config) -> (r: Result<RunPlan, NoSuchLevel>)
    requires
        config.wf(),
    ensures
        config.mode is List ==> (r matches Ok(RunPlan::List(lines)) && lines@.len()
            == config.levels@.len() && forall|i: int|
            0 <= i < lines@.len() ==> #[trigger] lines@[i]@ == listing_line(config.levels@[i])),
        config.mode is Show ==> r == Ok::<RunPlan, NoSuchLevel>(RunPlan::Devices(ToolArgument::Query)),
        config.mode matches Mode::SetLevel(n) ==> match merged_level(config.levels@, n@) {
            Some(v) => (r matches Ok(RunPlan::Devices(ToolArgument::Level(u))) && u as int == v),
            None => (r matches Err(e) && e.name@ == n@),
        },
{
    match &config.mode {
        Mode::List => Ok(RunPlan::List(config.levels.list_lines())),
        Mode::Show => Ok(RunPlan::Devices(ToolArgument::Query)),
        Mode::SetLevel(n) => match config.levels.translate(n) {
            Ok(v) => Ok(RunPlan::Devices(ToolArgument::Level(v))),
            Err(e) => Err(e),
        },
    }
}

/// The drive-tool run for one device.
pub fn build_invocation(program: &String, arg: ToolArgument, device: &String) -> (r: Invocation)
    ensures
        r.program@ == program@,
        args_view(r.args@) == invocation_args(arg, device@),
{
    let mut args: Vec<String> = Vec::new();
    args.push(String::from_str("-M"));
    match arg {
        ToolArgument::Query => {},
        ToolArgument::Level(v) => {
            args.push(decimal_string(v));
        },
    }
    args.push(device.clone());
    assert(args_view(args@) =~= invocation_args(arg, device@));
    Invocation { program: program.clone(), args }
}

} // verus!
