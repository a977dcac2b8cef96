use loudspin::config::{default_hdparm_path, resolve_mode, CommandLine, Config, Mode, RawConfig};
use loudspin::devices::{candidate_step, candidate_steps, CandidateStep};
use loudspin::dispatch::{build_invocation, plan_run, Invocation, RunPlan, ToolArgument};
use loudspin::levels::{InvalidLevel, NoSuchLevel};

fn sd_config() -> RawConfig {
    RawConfig { hdparm_path: None, devices: vec!["/dev/sd?".to_string()], levels: vec![] }
}

fn cmd(level: Option<&str>, show: bool, list: bool) -> CommandLine {
    CommandLine { level: level.map(|s| s.to_string()), show, list }
}

fn strings(v: &[&str]) -> Vec<String> {
    v.iter().map(|s| s.to_string()).collect()
}

#[test]
fn no_arguments_default_to_show() {
    assert_eq!(resolve_mode(None, false, false), Mode::Show);
}

#[test]
fn list_ignores_level_argument() {
    assert_eq!(resolve_mode(Some("loud".to_string()), false, true), Mode::List);
}

#[test]
fn explicit_show_and_level_argument() {
    assert_eq!(resolve_mode(None, true, false), Mode::Show);
    assert_eq!(resolve_mode(Some("quiet".to_string()), false, false), Mode::SetLevel("quiet".to_string()));
}

#[test]
fn default_tool_path() {
    assert_eq!(default_hdparm_path(), "/sbin/hdparm");
}

#[test]
fn configured_tool_path_is_kept() {
    let mut raw = sd_config();
    raw.hdparm_path = Some("/usr/bin/hdparm".to_string());
    let c = Config::resolve(raw, cmd(None, false, false)).unwrap();
    assert_eq!(c.hdparm_path, "/usr/bin/hdparm");
}

#[test]
fn show_run_queries_each_device() {
    let c = Config::resolve(sd_config(), cmd(None, false, false)).unwrap();
    assert_eq!(c.mode, Mode::Show);
    assert_eq!(c.hdparm_path, "/sbin/hdparm");
    assert_eq!(c.devices, strings(&["/dev/sd?"]));
    assert_eq!(c.levels.list_lines(), strings(&["loud = 254", "quiet = 128"]));
    let plan = plan_run(&c).unwrap();
    assert_eq!(plan, RunPlan::Devices(ToolArgument::Query));
    let cands = vec![Ok("/dev/sda".to_string()), Ok("/dev/sdb".to_string())];
    let steps = candidate_steps(&c.hdparm_path, ToolArgument::Query, &cands);
    assert_eq!(
        steps,
        vec![
            CandidateStep::Invoke(Invocation {
                program: "/sbin/hdparm".to_string(),
                args: strings(&["-M", "/dev/sda"]),
            }),
            CandidateStep::Invoke(Invocation {
                program: "/sbin/hdparm".to_string(),
                args: strings(&["-M", "/dev/sdb"]),
            }),
        ]
    );
}

#[test]
fn quiet_run_passes_128() {
    let c = Config::resolve(sd_config(), cmd(Some("quiet"), false, false)).unwrap();
    let plan = plan_run(&c).unwrap();
    assert_eq!(plan, RunPlan::Devices(ToolArgument::Level(128)));
    let step = candidate_step(&c.hdparm_path, ToolArgument::Level(128), &Ok("/dev/sda".to_string()));
    assert_eq!(
        step,
        CandidateStep::Invoke(Invocation {
            program: "/sbin/hdparm".to_string(),
            args: strings(&["-M", "128", "/dev/sda"]),
        })
    );
}

#[test]
fn unknown_level_fails_the_run() {
    let c = Config::resolve(sd_config(), cmd(Some("turbo"), false, false)).unwrap();
    assert_eq!(plan_run(&c), Err(NoSuchLevel { name: "turbo".to_string() }));
}

#[test]
fn list_run_prints_the_table() {
    let mut raw = sd_config();
    raw.levels = vec![("medium".to_string(), 190)];
    let c = Config::resolve(raw, cmd(Some("turbo"), false, true)).unwrap();
    assert_eq!(c.mode, Mode::List);
    assert_eq!(
        plan_run(&c),
        Ok(RunPlan::List(strings(&["medium = 190", "loud = 254", "quiet = 128"])))
    );
}

#[test]
fn invalid_level_fails_resolution() {
    let mut raw = sd_config();
    raw.levels = vec![("bad".to_string(), 100)];
    let r = Config::resolve(raw, cmd(None, false, false));
    assert_eq!(r.err(), Some(InvalidLevel { name: "bad".to_string(), value: 100 }));
}

#[test]
fn build_invocation_orders_arguments() {
    let inv = build_invocation(&"/sbin/hdparm".to_string(), ToolArgument::Level(254), &"/dev/sdc".to_string());
    assert_eq!(inv.program, "/sbin/hdparm");
    assert_eq!(inv.args, strings(&["-M", "254", "/dev/sdc"]));
}

#[test]
fn every_yielded_path_is_run() {
    let cands = vec![Ok("sda".to_string()), Ok("/dev/sdb".to_string())];
    let steps = candidate_steps(&"/sbin/hdparm".to_string(), ToolArgument::Query, &cands);
    assert_eq!(
        steps,
        vec![
            CandidateStep::Invoke(Invocation {
                program: "/sbin/hdparm".to_string(),
                args: strings(&["-M", "sda"]),
            }),
            CandidateStep::Invoke(Invocation {
                program: "/sbin/hdparm".to_string(),
                args: strings(&["-M", "/dev/sdb"]),
            }),
        ]
    );
}

#[test]
fn unreadable_candidate_is_reported() {
    let step = candidate_step(&"/sbin/hdparm".to_string(), ToolArgument::Query, &Err("denied".to_string()));
    assert_eq!(step, CandidateStep::Report("denied".to_string()));
}

#[test]
fn match_error_does_not_stop_later_candidates() {
    let cands = vec![
        Ok("/dev/sda".to_string()),
        Err("permission denied".to_string()),
        Ok("/dev/sdb".to_string()),
    ];
    let steps = candidate_steps(&"/sbin/hdparm".to_string(), ToolArgument::Level(200), &cands);
    assert_eq!(
        steps,
        vec![
            CandidateStep::Invoke(Invocation {
                program: "/sbin/hdparm".to_string(),
                args: strings(&["-M", "200", "/dev/sda"]),
            }),
            CandidateStep::Report("permission denied".to_string()),
            CandidateStep::Invoke(Invocation {
                program: "/sbin/hdparm".to_string(),
                args: strings(&["-M", "200", "/dev/sdb"]),
            }),
        ]
    );
}
