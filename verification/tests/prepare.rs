use dshl::config::{Dsh, DshMode, MirrorMode, Pm};
use dshl::flow::prepare::{
    already_running, cache_needs_install, cached_dsh_version, choose_bin, conflicting_dsh,
    dsh_version_ok, hybrid_use_global, install_spec, manifest_failed, missing_manifest,
    package_entry, query_latest_version, query_tool, resolve_target, split_args, wants_query,
    Member, Preparation, Stage, CACHE_MANIFEST,
};
use dshl::install::runtime::Runtime;
use dshl::message::Message;
use dshl::mirror::MirrorConfig;
use dshl::platform::paths::Host;
use dshl::platform::Os;
use dshl::probe;
use dshl::process::capture::CommandResult;
use dshl::version::FullVersion;

#[test]
fn splits_plain_flags() {
    assert_eq!(
        split_args("--profile web --host 127.0.0.1 --port 0"),
        vec!["--profile", "web", "--host", "127.0.0.1", "--port", "0"]
    );
}

#[test]
fn honors_quotes() {
    assert_eq!(
        split_args("--profile \"my web\" --trusted-host 'a b'"),
        vec!["--profile", "my web", "--trusted-host", "a b"]
    );
}

#[test]
fn empty_input() {
    assert_eq!(split_args(""), Vec::<String>::new());
    assert_eq!(split_args("   "), Vec::<String>::new());
}

fn tool(raw: &str) -> probe::Tool {
    probe::Tool { name: "dsh", found: true, path: None, version: None, raw: raw.to_string() }
}

#[test]
fn dsh_version_ok_compares_prereleases() {
    // Exact match, pre-release included.
    assert!(dsh_version_ok(&tool("0.1.0-rc.6"), "0.1.0-rc.6"));
    // A different release candidate is not ok.
    assert!(!dsh_version_ok(&tool("0.1.0-rc.5"), "0.1.0-rc.6"));
    assert!(!dsh_version_ok(&tool("0.1.0"), "0.1.0-rc.6"));
    assert!(!dsh_version_ok(&tool("0.2.0"), "0.1.0-rc.6"));
    // latest / empty never blocks.
    assert!(dsh_version_ok(&tool("0.1.0-rc.6"), "latest"));
    assert!(dsh_version_ok(&tool("0.1.0-rc.6"), ""));
    // Unparseable installed output is treated as a mismatch (reinstall).
    assert!(!dsh_version_ok(&tool("garbage"), "0.1.0-rc.6"));
}

#[test]
fn full_version_update_decision() {
    let installed = |raw: &str| FullVersion::parse(raw);
    let latest = FullVersion::parse("0.1.0-rc.6");
    // rc.5 -> rc.6 must trigger an update.
    assert!(installed("0.1.0-rc.5").unwrap() < latest.clone().unwrap());
    assert!(installed("0.1.0-rc.6").unwrap() >= latest.clone().unwrap());
    assert!(installed("0.1.0").unwrap() > latest.unwrap());
}

#[test]
fn cache_needs_install_by_version() {
    let v = |s: &str| FullVersion::parse(s);
    // Nothing usable in the cache: always install.
    assert!(cache_needs_install(None, "latest"));
    assert!(cache_needs_install(None, "0.1.1-rc.2"));
    // Latest (update info unavailable): keep a usable cache entry.
    assert!(!cache_needs_install(v("0.1.0-rc.6").as_ref(), "latest"));
    assert!(!cache_needs_install(v("0.1.0-rc.6").as_ref(), ""));
    // Pinned target: exact match keeps, anything else refreshes.
    assert!(!cache_needs_install(v("0.1.1-rc.2").as_ref(), "0.1.1-rc.2"));
    assert!(cache_needs_install(v("0.1.0-rc.7").as_ref(), "0.1.1-rc.2"));
    assert!(cache_needs_install(v("0.1.1-rc.1").as_ref(), "0.1.1-rc.2"));
    // Unparseable request: don't churn the cache.
    assert!(!cache_needs_install(v("0.1.0-rc.6").as_ref(), "garbage"));
}

#[test]
fn cached_dsh_version_reads_manifest() {
    // No manifest yet.
    assert_eq!(cached_dsh_version(&None), None);
    let manifest = r#"{"name":"@deepseek-ai/dsh","version":"0.1.1-rc.2"}"#.to_string();
    assert_eq!(cached_dsh_version(&Some(manifest)), FullVersion::parse("0.1.1-rc.2"));
    // Garbage manifest: treated as "needs install".
    assert_eq!(cached_dsh_version(&Some("not json".to_string())), None);
    // A manifest without a readable version is no better.
    assert_eq!(cached_dsh_version(&Some(r#"{"version":7}"#.to_string())), None);
    assert_eq!(cached_dsh_version(&Some(r#"["version"]"#.to_string())), None);
}

#[test]
fn the_entry_is_read_from_the_manifest() {
    let entry = |text: &str| package_entry(Os::Linux, "/c/dsh", &Some(text.to_string()));
    assert_eq!(entry(r#"{"bin":"lib/bin.js"}"#), Some("/c/dsh/lib/bin.js".to_string()));
    assert_eq!(
        entry(r#"{"bin":{"other":"a.js","dsh":"lib/bin.js"}}"#),
        Some("/c/dsh/lib/bin.js".to_string())
    );
    assert_eq!(entry(r#"{"bin":{"other":"a.js"}}"#), Some("/c/dsh/a.js".to_string()));
    assert_eq!(entry(r#"{"bin":3}"#), None);
    assert_eq!(entry(r#"{}"#), None);
    assert_eq!(package_entry(Os::Linux, "/c/dsh", &None), None);
    assert_eq!(choose_bin(&Member::Other), None);
    assert_eq!(choose_bin(&Member::Text("x.js".to_string())), Some("x.js".to_string()));
}

#[test]
fn queries_are_read_only_when_they_succeed() {
    let run = |stdout: &str, status: i32| {
        Some(CommandResult {
            stdout: stdout.to_string(),
            stderr: String::new(),
            status: Some(status),
        })
    };
    assert_eq!(query_latest_version(&run("0.1.1-rc.2\n", 0)), FullVersion::parse("0.1.1-rc.2"));
    assert_eq!(query_latest_version(&run("0.1.1-rc.2\n", 1)), None);
    assert_eq!(query_latest_version(&run("error", 0)), None);
    assert_eq!(query_latest_version(&None), None);
    assert_eq!(query_tool(Pm::Bun), "npm");
    assert_eq!(query_tool(Pm::Pnpm), "pnpm");
}

fn dsh(version: &str, mode: DshMode, auto_update: bool) -> Dsh {
    Dsh { version: version.to_string(), mode, auto_update, ..Dsh::default() }
}

#[test]
fn a_pinned_version_wins_over_the_latest() {
    let newest = FullVersion::parse("0.2.0");
    let pinned = dsh("0.1.0", DshMode::Private, true);
    assert!(!wants_query(&pinned));
    assert_eq!(resolve_target(&pinned, &newest), "0.1.0");
    let following = dsh("latest", DshMode::Private, true);
    assert!(wants_query(&following));
    assert_eq!(resolve_target(&following, &newest), "0.2.0");
    assert_eq!(resolve_target(&following, &None), "latest");
    assert!(!wants_query(&dsh("latest", DshMode::Private, false)));
    assert_eq!(install_spec("0.2.0"), "@deepseek-ai/dsh@0.2.0");
}

#[test]
fn hybrid_mode_prefers_a_global_dsh_that_fits() {
    let d = dsh("0.1.0", DshMode::Hybrid, false);
    assert!(hybrid_use_global(&d, "0.1.0", &tool("0.1.0")).0);
    assert!(!hybrid_use_global(&d, "0.1.0", &tool("0.0.9")).0);
    let missing = probe::Tool {
        name: "dsh",
        found: false,
        path: None,
        version: None,
        raw: String::new(),
    };
    assert!(!hybrid_use_global(&d, "0.1.0", &missing).0);
}

#[test]
fn private_mode_fills_an_empty_cache() {
    let d = dsh("0.1.0", DshMode::Private, true);
    let mut p = Preparation::start(&d);
    assert_eq!(p.stage, Stage::CacheProbe);
    p.cached(&None);
    assert_eq!(p.stage, Stage::Install);
    p.installed(&MirrorConfig::default(), Ok(()));
    assert_eq!(p.stage, Stage::Entry);
}

#[test]
fn private_mode_keeps_the_wanted_version() {
    let d = dsh("0.1.0", DshMode::Private, true);
    let mut p = Preparation::start(&d);
    p.cached(&FullVersion::parse("0.1.0"));
    assert_eq!(p.stage, Stage::Entry);
}

#[test]
fn global_mode_never_installs() {
    let d = dsh("latest", DshMode::Global, false);
    let mut p = Preparation::start(&d);
    assert_eq!(p.stage, Stage::ProbeGlobal);
    let missing = probe::Tool {
        name: "dsh",
        found: false,
        path: None,
        version: None,
        raw: String::new(),
    };
    p.global(&d, &missing);
    assert_ne!(p.stage, Stage::Install);
    assert_ne!(p.stage, Stage::CacheProbe);
}

#[test]
fn a_second_dsh_is_refused_only_on_request() {
    let free = dsh("latest", DshMode::Hybrid, true);
    assert_eq!(conflicting_dsh(&free, Some(5)), None);
    let single = Dsh { single_instance: true, ..free };
    assert_eq!(conflicting_dsh(&single, Some(5)), Some(5));
    assert_eq!(conflicting_dsh(&single, None), None);
    let refused = already_running(5);
    assert_eq!(refused.key, "flow.prepare.already_running");
    assert_eq!(refused.args, vec![("pid", "5".to_string())]);
}

#[test]
fn a_failed_mirror_is_passed_over_once() {
    let mirror = |mode: MirrorMode| MirrorConfig {
        mode,
        npm: Some("http://npm.example".to_string()),
        ..MirrorConfig::default()
    };
    let install = || {
        let mut p = Preparation::start(&dsh("latest", DshMode::Private, false));
        p.cached(&None);
        assert_eq!(p.stage, Stage::Install);
        p
    };
    let on = mirror(MirrorMode::On);
    let second = on.second_try().expect("a second try");
    assert_eq!(second.mode, MirrorMode::Off);
    assert!(second.npm_env().is_empty());
    assert!(second.second_try().is_none());

    let mut p = install();
    p.installed(&on, Err(Message::new("first")));
    assert_eq!(p.stage, Stage::InstallAgain);
    assert!(p.error.is_none());
    p.installed(&on, Err(Message::new("second")));
    assert_eq!(p.stage, Stage::Failed);
    assert_eq!(p.error.map(|m| m.key), Some("second"));

    let mut p = install();
    p.installed(&on, Err(Message::new("first")));
    p.installed(&on, Ok(()));
    assert_eq!(p.stage, Stage::Entry);

    let unused = MirrorConfig::default();
    assert!(unused.fallback().is_some());
    for only in [mirror(MirrorMode::Force), mirror(MirrorMode::Off), unused] {
        assert!(only.second_try().is_none());
        let mut p = install();
        p.installed(&only, Err(Message::new("first")));
        assert_eq!(p.stage, Stage::Failed);
    }
    assert!(mirror(MirrorMode::Force).fallback().is_none());
    assert!(mirror(MirrorMode::Off).fallback().is_none());
}

#[test]
fn the_chosen_dsh_is_launched() {
    let h = Host {
        os: Os::Linux,
        userprofile: None,
        home: Some("/h".to_string()),
        dshl_cache: None,
        appdata: None,
        localappdata: None,
        xdg_config_home: None,
        path: vec!["/p".to_string()],
    };
    let m = MirrorConfig::default();
    let runtime = Runtime { node_dir: Some("/n".to_string()), ..Runtime::new() };
    let flags = vec!["web".to_string()];
    let mut p = Preparation::start(&dsh("latest", DshMode::Private, false));
    p.cached(&FullVersion::parse("0.1.0"));
    p.entry(&h, Some("/e/bin.js".to_string()));
    assert_eq!(p.stage, Stage::LaunchCache);
    let c = p.command("/n/node", "/g/dsh", &flags, &h, &m, &runtime);
    assert_eq!(c.program, "/n/node");
    assert_eq!(c.args, vec!["/e/bin.js", "web"]);
    let path = "/h/.cache/dshl/node_modules/.bin:/n:/p".to_string();
    assert_eq!(c.envs, vec![("PATH".to_string(), path)]);
    p.stage = Stage::LaunchGlobal;
    let c = p.command("/n/node", "/g/dsh", &flags, &h, &m, &runtime);
    assert_eq!(c.program, "/g/dsh");
    assert_eq!(c.args, vec!["web"]);
    assert_eq!(c.envs, vec![("PATH".to_string(), "/n:/p".to_string())]);

    let manifest = "/h/.cache/dshl/package.json";
    assert_eq!(missing_manifest(&h, true), None);
    assert_eq!(missing_manifest(&h, false), Some((manifest.to_string(), CACHE_MANIFEST)));
    assert_eq!(manifest_failed(&h, "full").args[0], ("path", manifest.to_string()));
}

#[test]
fn single_quotes_keep_everything() {
    assert_eq!(split_args("'a \"b\\' '' 'c'"), vec!["a \"b\\", "", "c"]);
}

#[test]
fn without_updates_an_installed_dsh_stays() {
    let d = dsh("latest", DshMode::Private, false);
    let mut p = Preparation::start(&d);
    assert_eq!(p.stage, Stage::CacheProbe);
    assert_eq!(p.target, "latest");
    p.cached(&FullVersion::parse("0.0.1"));
    assert_eq!(p.stage, Stage::Entry);
}

#[test]
fn a_stale_global_dsh_gives_way() {
    let d = dsh("latest", DshMode::Hybrid, true);
    let mut p = Preparation::start(&d);
    assert_eq!(p.stage, Stage::Query);
    p.latest(&d, &FullVersion::parse("0.2.0"));
    assert_eq!(p.target, "0.2.0");
    p.global(&d, &tool("0.1.0"));
    assert_eq!(p.stage, Stage::CacheProbe);
    p.cached(&FullVersion::parse("0.1.0"));
    assert_eq!(p.stage, Stage::Install);
    p.installed(&MirrorConfig::default(), Ok(()));
    assert_eq!(p.stage, Stage::Entry);
}
