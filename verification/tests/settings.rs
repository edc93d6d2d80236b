use dshl::config::{
    candidates, latest, load, source, Config, Dsh, DshMode, MirrorMode, Mirrors, Outcome, Pm, Source,
};
use dshl::flow::{after, begin, mirror_check, steps, system, Flow};
use dshl::message::{write_code, Line, Message};
use dshl::mirror::MirrorConfig;
use dshl::platform::paths::Host;
use dshl::platform::Os;
use dshl::probe;
use dshl::process::capture::CommandResult;
use dshl::progress::{
    clear_error, clear_url, log, reset, set_config, set_crash, set_crash_countdown, set_error,
    set_stale_pid, set_url, snapshot, step, CrashState, State, StepStatus, LOG_CAP,
};

fn linux() -> Host {
    Host {
        os: Os::Linux,
        userprofile: None,
        home: Some("/home/me".to_string()),
        dshl_cache: None,
        appdata: None,
        localappdata: None,
        xdg_config_home: Some("/x".to_string()),
        path: vec!["/p".to_string()],
    }
}

#[test]
fn defaults_are_the_documented_ones() {
    let c = Config::default();
    assert_eq!(c.auto_mirror, MirrorMode::On);
    assert_eq!(c.dsh.pm, Pm::Nub);
    assert_eq!(c.dsh.mode, DshMode::Hybrid);
    assert_eq!(c.dsh.version, "latest");
    assert_eq!(c.dsh.flags, "--profile web --host 127.0.0.1 --port 0");
    assert!(!c.ui.close_to_tray && !c.ui.single_instance);
    assert!(c.dsh.wants_latest());
    assert_eq!(c.dsh.package_spec(), "@deepseek-ai/dsh");
    let pinned = Dsh { version: "1.0.0".to_string(), pm: Pm::Bun, ..Dsh::default() };
    assert_eq!(pinned.package_spec(), "@deepseek-ai/dsh@1.0.0");
    assert!(pinned.needs_bun() && !pinned.needs_pnpm() && !pinned.needs_nub());
    assert!(latest(""));
    assert!(!latest("1"));
}

#[test]
fn the_configuration_is_looked_for_in_order() {
    let exe = Some("/opt/dshl".to_string());
    let list = candidates(&linux(), &None, &exe);
    assert_eq!(list[0], "dshl.toml");
    assert_eq!(list[1], "/opt/dshl/dshl.toml");
    assert_eq!(list[3], "/etc/dshl/dshl.toml");
    let named = Some("my.toml".to_string());
    assert_eq!(candidates(&linux(), &named, &exe), vec!["my.toml"]);
    assert!(matches!(
        source(&linux(), &named, &exe, &vec![false]),
        Source::Missing(p) if p == "my.toml"
    ));
    assert!(matches!(
        source(&linux(), &None, &exe, &vec![false, true, true, true]),
        Source::Read(p) if p == "/opt/dshl/dshl.toml"
    ));
    assert!(matches!(
        source(&linux(), &None, &exe, &vec![false; 4]),
        Source::Generate(p) if p == list[2]
    ));
}

#[test]
fn there_is_always_a_configuration() {
    let mut own = Config::default();
    own.dsh.version = "1.0.0".to_string();
    let l = load(Source::Read("a".to_string()), Outcome::Done(own.clone()));
    assert_eq!(l.config, own);
    assert_eq!((l.path.as_deref(), l.parse_error), (Some("a"), None));
    let l = load(Source::Read("a".to_string()), Outcome::Malformed("line 3".to_string()));
    assert_eq!(l.config, Config::default());
    assert_eq!(l.parse_error.as_deref(), Some("line 3"));
    let l = load(Source::Read("a".to_string()), Outcome::Failed("denied".to_string()));
    assert_eq!(l.parse_error.as_deref(), Some("read failed: denied"));
    let l = load(Source::Missing("a".to_string()), Outcome::Failed(String::new()));
    assert_eq!(l.parse_error.as_deref(), Some("config file not found: a"));
    let l = load(Source::Generate("a".to_string()), Outcome::Failed("full".to_string()));
    assert_eq!(l.parse_error.as_deref(), Some("failed to write default config: full"));
    let l = load(Source::Generate("a".to_string()), Outcome::Done(Config::default()));
    assert_eq!(l.parse_error, None);
}

fn mirrored(mode: MirrorMode) -> MirrorConfig {
    let config = Config {
        auto_mirror: mode,
        mirrors: Mirrors {
            npm: " https://npm.example ".to_string(),
            cargo: "sparse+https://c.example/".to_string(),
            nodejs_release: "https://n.example".to_string(),
            bun_download: "  ".to_string(),
            github: String::new(),
        },
        ..Config::default()
    };
    MirrorConfig::resolve(&config)
}

#[test]
fn mirrors_reach_the_tools() {
    let m = mirrored(MirrorMode::On);
    assert!(m.enabled() && !m.forced());
    assert_eq!(m.npm.as_deref(), Some("https://npm.example"));
    assert_eq!(m.bun_download, None);
    let keys = |v: Vec<(String, String)>| v.into_iter().map(|p| p.0).collect::<Vec<_>>();
    assert_eq!(
        keys(m.npm_env()),
        vec!["npm_config_registry", "NPM_CONFIG_REGISTRY", "BUN_CONFIG_REGISTRY"]
    );
    assert_eq!(
        keys(m.nub_env()),
        vec!["NODEJS_ORG_MIRROR", "npm_config_registry", "NPM_CONFIG_REGISTRY"]
    );
    assert_eq!(
        m.cargo_env()[1],
        ("CARGO_REGISTRIES_CRATES_IO_PROTOCOL".to_string(), "sparse".to_string())
    );
    assert_eq!(keys(m.fnm_env()), vec!["FNM_NODE_DIST_MIRROR"]);
    assert_eq!(keys(m.nvm_env()), vec!["NVM_NODEJS_ORG_MIRROR"]);
    assert_eq!(keys(m.summary()), vec!["npm", "cargo", "nodejs-release"]);
}

#[test]
fn off_redirects_nothing() {
    let m = mirrored(MirrorMode::Off);
    assert!(m.npm_env().is_empty() && m.nub_env().is_empty() && m.cargo_env().is_empty());
    assert!(m.fnm_env().is_empty() && m.nvm_env().is_empty() && m.summary().is_empty());
    let (said, _) = mirror_check::run(&m);
    assert_eq!(
        said,
        vec![
            Line::Around(
                "auto-mirror = ".to_string(),
                Message::new("flow.mirror.off"),
                String::new()
            ),
            Line::Note(Message::new("flow.mirror.none")),
        ]
    );
}

#[test]
fn the_host_is_reported() {
    let (said, done) = system::run(&linux(), "x86_64");
    assert_eq!(done, "linux/x86_64");
    assert_eq!(said.len(), 4);
    assert_eq!(said[0], Line::Note(Message::with1("flow.system.os", "os", "linux")));
    assert_eq!(said[1], Line::Note(Message::with1("flow.system.arch", "arch", "x86_64")));
    assert_eq!(said[2], Line::Text("Shell: bash".to_string()));
    assert!(matches!(&said[3], Line::Note(m) if m.key == "flow.system.home"));
}

#[test]
fn messages_carry_their_values() {
    let m = Message::with2("k", "a", "1", "b", "2").with("c", "3");
    assert_eq!(m.args.len(), 3);
    assert_eq!(m.args[2], ("c", "3".to_string()));
    assert_eq!(write_code(-1073741510), "-1073741510");
    assert_eq!(write_code(i32::MIN), "-2147483648");
    assert_eq!(write_code(0), "0");
}

#[test]
fn steps_are_followed() {
    let mut s = State::default();
    reset(&mut s, &vec![("a".to_string(), "A".to_string()), ("b".to_string(), "B".to_string())]);
    step(&mut s, "b", StepStatus::Running, "now");
    assert_eq!(s.steps[0].status, StepStatus::Pending);
    assert_eq!(s.steps[1].status, StepStatus::Running);
    assert_eq!(s.steps[1].message, "now");
    set_error(&mut s, "e");
    set_url(&mut s, "u");
    set_stale_pid(&mut s, Some(4));
    set_crash(&mut s, 3, 10);
    set_crash_countdown(&mut s, Some(9));
    assert_eq!(s.crash, Some(CrashState { code: 3, countdown: 9 }));
    set_config(&mut s, "{}".to_string(), "/c".to_string(), None);
    let copy = snapshot(&s);
    assert_eq!(copy.url.as_deref(), Some("u"));
    assert_eq!(copy.config_path, "/c");
    set_crash_countdown(&mut s, None);
    assert_eq!(s.crash, None);
    clear_error(&mut s);
    clear_url(&mut s);
    assert!(s.error.is_none() && s.url.is_none());
    reset(&mut s, &Vec::new());
    assert!(s.steps.is_empty() && s.stale_pid.is_none());
    assert_eq!(s.config_path, "/c");
}

#[test]
fn the_log_keeps_the_newest_lines() {
    let mut s = State::default();
    for i in 0..LOG_CAP + 3 {
        log(&mut s, &format!("line {}", i));
    }
    assert_eq!(s.logs.len(), LOG_CAP);
    assert_eq!(s.logs.front().map(|l| l.as_str()), Some("line 3"));
    assert_eq!(s.logs.back().map(|l| l.as_str()), Some("line 502"));
}

#[test]
fn flows_run_in_order_and_stop_at_a_failure() {
    let ids: Vec<&str> = steps().iter().map(|s| s.0).collect();
    assert_eq!(ids, vec!["system", "runtime", "mirror", "dsh", "launch"]);
    assert_eq!(steps()[4].1, "flow.steps.launch");
    let titles: Vec<String> = ["S", "R", "M", "D", "L"].iter().map(|t| t.to_string()).collect();
    let mut s = State::default();
    set_error(&mut s, "old");
    begin(&mut s, &titles);
    assert_eq!(s.error, None);
    assert_eq!(s.steps[3].title, "D");
    let mut flow = Some(Flow::System);
    let mut seen = Vec::new();
    while let Some(f) = flow {
        seen.push(f.id());
        flow = after(&mut s, f, &None);
    }
    assert_eq!(seen, ids);
    assert_eq!(after(&mut s, Flow::Dsh, &Some("broken".to_string())), None);
    assert_eq!(s.error.as_deref(), Some("broken"));
    assert_eq!(s.steps[3].status, StepStatus::Error);
    begin(&mut s, &titles);
    assert_eq!(after(&mut s, Flow::Launch, &Some("broken".to_string())), None);
    assert_eq!(s.error, None);
}

#[test]
fn tools_are_probed() {
    let h = linux();
    let run = |out: &str, err: &str| {
        Some(CommandResult { stdout: out.to_string(), stderr: err.to_string(), status: Some(0) })
    };
    let all = vec![true; 64];
    let node = probe::node(&h, &all, run("v22.3.1\n", ""));
    assert!(node.found);
    assert_eq!(node.raw, "v22.3.1");
    assert_eq!(node.version.map(|v| v.to_text()), Some("22.3.1".to_string()));
    let silent = probe::bun(&h, &all, None);
    assert!(silent.found && silent.version.is_none());
    let missing = probe::pnpm(&h, &vec![false; 64], run("1.0.0", ""));
    assert!(!missing.found && missing.path.is_none());
    assert_eq!(probe::version_command("/n").args, vec!["--version"]);
    let nvm = probe::nvm(&h, &None, &vec![true], &vec![false; 64], None);
    assert_eq!(nvm.raw, "shell function");
    assert_eq!(nvm.path.as_deref(), Some("/home/me/.nvm/nvm.sh"));
    let dsh = probe::dsh_in(&h, &vec!["/mine".to_string()], &all, run("", "0.1.0"));
    assert_eq!(dsh.path.as_deref(), Some("/mine/dsh"));
    assert_eq!(dsh.raw, "0.1.0");
}
