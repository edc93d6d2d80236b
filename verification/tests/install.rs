use dshl::config::{Config, Dsh, MirrorMode, Pm};
use dshl::flow::runtime_env::{
    assemble, describe, fnm_dirs, names, node_source, report, NodeSource, RuntimeFlow, RuntimeStage,
};
use dshl::install::bun::{
    bun_min, cached_dirs, ensure_bun, reuse_cached, BunInstall, BunRequest, BunStage, BunVerdict,
};
use dshl::install::download::{
    after_try, extract_json_string, fnm_url, proxied_github, registry_base, short_name, tarball_url,
    Entry, Retry, Search, Wanted,
};
use dshl::install::node::{
    ensure_node, find_node_roots, node_min, Answer, NodeInstall, NodeRequest, NodeSearch, NodeStage,
    NODE_DEPTH,
};
use dshl::install::nub::{
    ensure_nub, ensure_nub_early, marker_version, nub_bin, platform_package, provision_command, provision_node, NubInstall,
    NubPlan, NubRequest, NubStage,
};
use dshl::install::pnpm::{ensure_pnpm, looks_like_dir, pnpm_bin_dirs, PnpmPlan};
use dshl::install::runtime::{join_paths, prepend_path, Runtime};
use dshl::install::stream::{exit_result, log_line, start_failed};
use dshl::message::{Line, Message};
use dshl::mirror::{after_attempt, Attempt, MirrorConfig};
use dshl::platform::paths::Host;
use dshl::platform::{Arch, Os};
use dshl::probe::Tool;
use dshl::process::capture::CommandResult;
use dshl::process::child::Output;
use dshl::version::Version;

fn linux() -> Host {
    Host {
        os: Os::Linux,
        userprofile: None,
        home: Some("/home/me".to_string()),
        dshl_cache: Some("/c".to_string()),
        appdata: None,
        localappdata: None,
        xdg_config_home: None,
        path: vec!["/p".to_string(), "/q".to_string()],
    }
}

fn tool(name: &'static str, path: &str, version: Option<Version>) -> Tool {
    let raw = version.map(|v| v.to_text()).unwrap_or_default();
    Tool { name, found: true, path: Some(path.to_string()), version, raw }
}

fn missing(name: &'static str) -> Tool {
    Tool { name, found: false, path: None, version: None, raw: String::new() }
}

fn with_pm(pm: Pm) -> Config {
    Config { dsh: Dsh { pm, ..Dsh::default() }, ..Config::default() }
}

fn no() -> Answer {
    Answer { yes: false, text: "broken".to_string() }
}

fn yes(text: &str) -> Answer {
    Answer { yes: true, text: text.to_string() }
}

#[test]
fn the_required_versions() {
    assert_eq!(node_min().to_text(), "24.15.0");
    assert_eq!(bun_min().to_text(), "1.3.14");
    assert_eq!(dshl::install::node::NODE_INSTALL_VERSION, "26");
}

#[test]
fn a_recent_node_is_used() {
    let (dir, said) = ensure_node(Os::Linux, &tool("node", "/usr/bin/node", Some(node_min())));
    assert_eq!(dir.as_deref(), Some("/usr/bin"));
    assert_eq!(said[0].key, "install.node.satisfies");
    let old = tool("node", "/usr/bin/node", Some(Version::new(1, 0, 0)));
    let (dir, said) = ensure_node(Os::Linux, &old);
    assert_eq!(dir, None);
    assert_eq!(said[0].key, "install.node.too_old");
    assert_eq!(ensure_node(Os::Linux, &missing("node")).1[0].key, "install.node.not_found");
    let mute = tool("node", "/usr/bin/node", None);
    assert_eq!(ensure_node(Os::Linux, &mute).1[0].key, "install.node.unparsable");
}

#[test]
fn node_is_installed_the_first_way_that_works() {
    let h = linux();
    let m = MirrorConfig::default();
    let (mut install, _) = NodeInstall::start();
    assert!(matches!(install.request(&h, &m), NodeRequest::Which("fnm")));
    install.advance(&h, &yes("/bin/fnm"));
    match install.request(&h, &m) {
        NodeRequest::Run(c, label) => {
            assert_eq!(c.program, "/bin/fnm");
            assert_eq!(c.args, vec!["install", "26"]);
            assert_eq!(label, "fnm install");
        },
        other => panic!("expected a run, got {:?}", other),
    }
    install.advance(&h, &yes(""));
    assert!(matches!(install.request(&h, &m), NodeRequest::FindNode(r) if r == find_node_roots(&h)));
    install.advance(&h, &yes("/home/me/.fnm/node-versions/v26/bin"));
    assert!(matches!(
        install.request(&h, &m),
        NodeRequest::Done(d) if d == "/home/me/.fnm/node-versions/v26/bin"
    ));
}

#[test]
fn node_installation_gives_up_after_all_ways() {
    let h = linux();
    let m = MirrorConfig::default();
    let (mut install, _) = NodeInstall::start();
    let mut tries = 0;
    while install.stage != NodeStage::Fatal {
        install.advance(&h, &no());
        tries += 1;
        assert!(tries < 30);
    }
    assert!(matches!(install.request(&h, &m), NodeRequest::Fatal(x) if x.key == "install.node.fatal"));
}

#[test]
fn the_search_for_node_stays_within_its_depth() {
    let mut search = NodeSearch::new(&vec!["/r".to_string()]);
    let (dir, depth) = search.next_dir().expect("the root");
    assert_eq!((dir.as_str(), depth), ("/r", 0));
    search.descend(depth, &vec!["/r/a".to_string(), "/r/b".to_string()]);
    assert_eq!(search.next_dir().map(|d| d.1), Some(1));
    let mut deep = NodeSearch::new(&vec!["/r".to_string()]);
    let mut steps = 0;
    while let Some((_, d)) = deep.next_dir() {
        assert!(d <= NODE_DEPTH);
        deep.descend(d, &vec!["/x".to_string()]);
        steps += 1;
        assert!(steps < 100);
    }
}

#[test]
fn bun_is_only_looked_for_when_it_is_needed() {
    let recent = tool("bun", "/b/bun", Some(bun_min()));
    assert!(matches!(ensure_bun(Os::Linux, &with_pm(Pm::Npm), &recent).0, BunVerdict::NotNeeded));
    assert!(matches!(
        ensure_bun(Os::Linux, &with_pm(Pm::Bun), &recent).0,
        BunVerdict::Use(Some(d)) if d == "/b"
    ));
    let old = tool("bun", "/b/bun", Some(Version::new(0, 1, 0)));
    let (verdict, said) = ensure_bun(Os::Linux, &with_pm(Pm::Bun), &old);
    assert!(matches!(verdict, BunVerdict::Look));
    assert_eq!(said[0].key, "install.bun.too_old");
    let dirs = cached_dirs(&linux());
    assert_eq!(dirs[0], "/c/bun/bin");
    assert_eq!(reuse_cached(&linux(), &vec![false, true]).map(|r| r.0), Some(dirs[1].clone()));
    assert!(reuse_cached(&linux(), &vec![false, false]).is_none());
}

#[test]
fn bun_is_downloaded_then_scripted_then_taken_from_npm() {
    let h = linux();
    let m = MirrorConfig::default();
    let mut install = BunInstall::start();
    let mut labels = Vec::new();
    loop {
        let answer = match install.request(&h, Arch::X86_64, &m, "npm") {
            BunRequest::MakeDir(d) => {
                assert_eq!(d, "/c/bun");
                yes("")
            },
            BunRequest::Run(_, label) => {
                labels.push(label);
                no()
            },
            BunRequest::RunIn(_, c, label) => {
                labels.push(label);
                assert_eq!(c.program, "npm");
                yes("")
            },
            BunRequest::IsFile(p) => {
                Answer { yes: p.contains("bun-npm"), text: String::new() }
            },
            BunRequest::Done(d) => {
                assert!(d.ends_with("node_modules/.bin"));
                break;
            },
            BunRequest::Failed(x) => panic!("failed: {:?}", x),
            _ => no(),
        };
        install.advance(Os::Linux, Arch::X86_64, &m, &answer);
    }
    assert_eq!(labels, vec!["download", "bun install", "npm install bun"]);
}

#[test]
fn bun_is_left_to_pacman_on_arch() {
    let m = MirrorConfig::default();
    let mut install = BunInstall::start();
    install.advance(Os::Linux, Arch::X86_64, &m, &yes(""));
    assert_eq!(install.stage, BunStage::AskDistro);
    install.advance(Os::Linux, Arch::X86_64, &m, &yes(""));
    assert_eq!(install.stage, BunStage::FailedOnArch);
    match install.request(&linux(), Arch::X86_64, &m, "npm") {
        BunRequest::Failed(Line::Note(x)) => assert_eq!(x.key, "install.bun.arch_pacman_fatal"),
        other => panic!("expected a failure, got {:?}", other),
    }
    let mut install = BunInstall::start();
    install.advance(Os::Linux, Arch::X86_64, &m, &no());
    match install.request(&linux(), Arch::X86_64, &m, "npm") {
        BunRequest::Failed(Line::Text(x)) => assert_eq!(x, "broken"),
        other => panic!("expected a failure, got {:?}", other),
    }
}

#[test]
fn addresses_follow_the_mirrors() {
    let m = MirrorConfig {
        github: Some("https://gh.example".to_string()),
        npm: Some("https://npm.example/".to_string()),
        ..MirrorConfig::default()
    };
    let slashed = MirrorConfig { github: Some("https://gh.example/".to_string()), ..m.clone() };
    let url = "https://github.com/x";
    assert_eq!(proxied_github(&m, url), "https://gh.example/https://github.com/x");
    assert_eq!(proxied_github(&slashed, url), proxied_github(&m, url));
    assert_eq!(registry_base(&m), "https://npm.example");
    assert_eq!(short_name("@nubjs/nub"), "nub");
    assert_eq!(short_name("bun"), "bun");
    assert_eq!(
        tarball_url(&m, "@nubjs/nub", "1.0.0"),
        "https://npm.example/@nubjs/nub/-/nub-1.0.0.tgz"
    );
    let off = MirrorConfig { mode: MirrorMode::Off, ..m };
    assert_eq!(proxied_github(&off, url), url);
    assert_eq!(registry_base(&off), "https://registry.npmjs.org");
    assert!(fnm_url(Os::Linux, &off).starts_with("https://github.com/Schniz/fnm/releases/"));
}

#[test]
fn versions_are_picked_out_of_a_document() {
    let doc = "{\"name\":\"nub\",\"version\": \"1.2.3\",\"x\":1}";
    assert_eq!(extract_json_string(doc, "version").as_deref(), Some("1.2.3"));
    assert_eq!(extract_json_string(doc, "missing"), None);
    assert_eq!(extract_json_string("{\"version\":3}", "version"), None);
}

#[test]
fn downloads_are_tried_three_times() {
    assert_eq!(after_try(1, true), Retry::Done);
    assert_eq!(after_try(1, false), Retry::Again);
    assert_eq!(after_try(2, false), Retry::Again);
    assert_eq!(after_try(3, false), Retry::GiveUp);
}

#[test]
fn files_are_searched_for_below_a_directory() {
    let entry = |path: &str, is_dir: bool| Entry {
        path: path.to_string(),
        name: path.rsplit('/').next().unwrap().to_string(),
        is_dir,
    };
    let mut search = Search::new(Os::Linux, "/d", Wanted::File("bun".to_string()));
    assert_eq!(search.next_dir().as_deref(), Some("/d"));
    assert_eq!(search.visit(&vec![entry("/d/bun", true), entry("/d/x", false)]), None);
    assert_eq!(search.next_dir().as_deref(), Some("/d/bun"));
    assert_eq!(
        search.visit(&vec![entry("/d/bun/bun", false)]).as_deref(),
        Some("/d/bun/bun")
    );
    let mut search = Search::new(Os::Windows, "/d", Wanted::File("bun".to_string()));
    search.next_dir();
    assert_eq!(search.visit(&vec![entry("/d/bun.exe", false)]).as_deref(), Some("/d/bun.exe"));
    let mut search = Search::new(Os::Linux, "/d", Wanted::Dir("bin".to_string()));
    search.next_dir();
    assert_eq!(search.visit(&vec![entry("/d/bin", true)]).as_deref(), Some("/d/bin"));
}

#[test]
fn nub_is_reused_installed_or_left_alone() {
    let h = linux();
    let marker = Some("1.0.0".to_string());
    let nub = with_pm(Pm::Nub);
    assert!(matches!(ensure_nub(&h, &with_pm(Pm::Npm), false, true, &marker, false), NubPlan::Nothing));
    assert!(matches!(ensure_nub(&h, &nub, true, true, &marker, false), NubPlan::Nothing));
    assert!(matches!(ensure_nub(&h, &nub, false, true, &marker, false), NubPlan::Cached(..)));
    assert!(matches!(ensure_nub(&h, &nub, false, false, &None, true), NubPlan::Nothing));
    assert!(matches!(ensure_nub_early(&nub, false), None));
    assert!(matches!(ensure_nub_early(&nub, true), Some(NubPlan::Nothing)));
    assert!(matches!(ensure_nub_early(&with_pm(Pm::Npm), false), Some(NubPlan::Nothing)));
    assert!(matches!(ensure_nub(&h, &nub, false, true, &None, false), NubPlan::Install(_)));
    assert_eq!(marker_version(&Some(" 1.0.0\n".to_string())).as_deref(), Some("1.0.0"));
    assert_eq!(marker_version(&Some(" ".to_string())), None);
    assert!(platform_package(Os::Linux, "x86_64").starts_with("@nubjs/"));
}

#[test]
fn the_users_own_nub_wins_over_the_installed_one() {
    let h = linux();
    let marker = Some("1.0.0".to_string());
    let nub = with_pm(Pm::Nub);
    assert!(matches!(ensure_nub(&h, &nub, false, true, &marker, true), NubPlan::Nothing));
    match ensure_nub(&h, &nub, false, true, &marker, false) {
        NubPlan::Cached(dir, said) => {
            assert_eq!(dir, nub_bin(&h));
            assert_eq!(said.key, "install.nub.cached");
        },
        other => panic!("expected the installed one, got {:?}", other),
    }
}

#[test]
fn nub_is_installed_from_its_packages() {
    let h = linux();
    let m = MirrorConfig::default();
    let mut install = NubInstall::start();
    match install.request(&h, "x86_64", &m) {
        NubRequest::GetText(url) => {
            assert_eq!(url, "https://registry.npmjs.org/@nubjs%2Fnub/latest")
        },
        other => panic!("expected a fetch, got {:?}", other),
    }
    install.advance(&yes("{\"version\":\"1.2.3\"}"));
    assert_eq!(install.version, "1.2.3");
    let mut tries = 0;
    while install.stage != NubStage::Done && install.stage != NubStage::Failed {
        install.advance(&yes("/found"));
        tries += 1;
        assert!(tries < 20);
    }
    assert_eq!(install.stage, NubStage::Done);
    let mut broken = NubInstall::start();
    broken.advance(&yes("{}"));
    assert_eq!(broken.stage, NubStage::Failed);
    match broken.request(&h, "x86_64", &m) {
        NubRequest::Failed(e) => assert_eq!(e, "registry latest response has no version"),
        other => panic!("expected a failure, got {:?}", other),
    }
}

#[test]
fn node_comes_through_nub() {
    let m = MirrorConfig::default();
    assert_eq!(provision_command("nub", "26", &m).args, vec!["node", "install", "26"]);
    let run = Some(CommandResult {
        stdout: "banner\n /n/bin/node \n".to_string(),
        stderr: String::new(),
        status: Some(0),
    });
    assert_eq!(
        provision_node(Os::Linux, &run, &vec![false, true]).as_deref(),
        Some("/n/bin")
    );
    assert_eq!(provision_node(Os::Linux, &run, &vec![false, false]), None);
    assert_eq!(provision_node(Os::Linux, &None, &vec![]), None);
}

#[test]
fn pnpm_finds_its_directories() {
    assert!(matches!(ensure_pnpm(&with_pm(Pm::Nub), &missing("pnpm")), PnpmPlan::NotNeeded));
    let said = |t: &Tool| match ensure_pnpm(&with_pm(Pm::Pnpm), t) {
        PnpmPlan::Install(Line::Text(x)) | PnpmPlan::Present(Line::Text(x)) => x,
        other => panic!("expected a text, got {:?}", other),
    };
    assert_eq!(said(&missing("pnpm")), "未找到 pnpm，通过 npm 安装");
    assert_eq!(said(&tool("pnpm", "/p/pnpm", None)), "已找到 pnpm (/p/pnpm)");
    assert_eq!(
        said(&tool("pnpm", "/p/pnpm", Some(Version::new(10, 2, 0)))),
        "pnpm 10.2.0 满足要求"
    );
    assert!(looks_like_dir(Os::Linux, "/a"));
    assert!(!looks_like_dir(Os::Linux, "warn"));
    let dirs = pnpm_bin_dirs(&linux(), "/global/bin\n");
    assert!(dirs.iter().any(|d| d == "/global/bin"));
}

#[test]
fn a_directory_is_listed_once_however_it_is_written() {
    let h = Host { home: Some("/home/u".to_string()), ..linux() };
    let dirs = pnpm_bin_dirs(&h, "/home/u/.local/./share/pnpm/\n");
    assert_eq!(dirs, vec!["/home/u/.local/./share/pnpm/"]);
    let known = fnm_dirs(&h);
    let r = assemble(
        "/n".to_string(),
        None,
        vec![format!("{}/.", known[0]), format!("{}/", known[1])],
        &vec![],
        &h,
        &vec![true, true],
    );
    assert_eq!(r.extra_path.len(), 2);
}

#[test]
fn the_path_starts_with_the_runtime() {
    let h = linux();
    let r = Runtime {
        node_dir: Some("/n".to_string()),
        bun_dir: Some("/b".to_string()),
        extra_path: vec!["/e".to_string()],
    };
    assert_eq!(r.path_prefix(), vec!["/n", "/b", "/e"]);
    assert_eq!(r.augmented_path(&h), "/n:/b:/e:/p:/q");
    assert_eq!(prepend_path(&h, &vec!["/x".to_string()]), "/x:/p:/q");
    assert_eq!(join_paths(Os::Linux, &vec!["/a:b".to_string()]), None);
    assert_eq!(
        join_paths(Os::Windows, &vec!["C:\\a;b".to_string(), "D:".to_string()]).as_deref(),
        Some("\"C:\\a;b\";D:")
    );
}

#[test]
fn the_runtime_is_assembled() {
    let h = linux();
    let dirs = fnm_dirs(&h);
    let r = assemble(
        "/n".to_string(),
        None,
        vec!["/pn".to_string()],
        &vec!["/nub".to_string()],
        &h,
        &vec![true, false],
    );
    assert_eq!(r.extra_path, vec!["/pn".to_string(), "/nub".to_string(), dirs[0].clone()]);
    assert_eq!(names(&with_pm(Pm::Pnpm)), vec!["node", "bun", "pnpm", "fnm", "cargo", "nvm"]);
    assert_eq!(names(&with_pm(Pm::Nub)), vec!["node", "bun", "nub", "fnm", "cargo", "nvm"]);
    let found = describe(&tool("node", "/n/node", Some(Version::new(26, 1, 0))));
    assert_eq!(found, Line::Text("26.1.0 @ /n/node".to_string()));
    assert_eq!(
        describe(&missing("bun")),
        Line::Note(Message::new("flow.runtime.not_installed"))
    );
    assert_eq!(
        report(&missing("bun")),
        Line::Around(
            "bun  : ".to_string(),
            Message::new("flow.runtime.not_installed"),
            String::new()
        )
    );
    let mut odd = tool("cargo", "/c/cargo", None);
    odd.raw = " nightly\n".to_string();
    assert_eq!(report(&odd), Line::Text("cargo: (nightly) @ /c/cargo".to_string()));
    odd.raw = String::new();
    assert_eq!(
        describe(&odd),
        Line::Around(
            String::new(),
            Message::new("flow.runtime.version_unknown"),
            " @ /c/cargo".to_string()
        )
    );
}

#[test]
fn the_runtime_flow_survives_a_failing_nub() {
    let h = linux();
    let m = MirrorConfig { npm: Some("https://r".to_string()), ..MirrorConfig::default() };
    let nub = with_pm(Pm::Nub);
    let none = missing("node");

    let mut flow = RuntimeFlow::start(Os::Linux, &nub, &m, &none);
    assert_eq!(flow.stage, RuntimeStage::Nub);
    let said = flow.nub(Os::Linux, &nub, &m, &none, false, Err("offline".to_string()));
    assert_eq!(said, Some(Message::with1("flow.runtime.nub_failed", "err", "offline")));
    assert_eq!(flow.stage, RuntimeStage::Chain);

    let mut flow = RuntimeFlow::start(Os::Linux, &nub, &m, &none);
    flow.nub(Os::Linux, &nub, &m, &none, false, Ok(vec!["/nub".to_string()]));
    assert_eq!(flow.stage, RuntimeStage::NodeFromNub);
    assert_eq!(flow.from_nub(None), None);
    assert_eq!(flow.stage, RuntimeStage::Chain);
    flow.chain(Ok("/n".to_string()));
    assert_eq!(flow.stage, RuntimeStage::Bun);
    flow.bun(Ok(None));
    flow.pnpm(Ok(vec!["/pn".to_string()]));
    assert_eq!(flow.stage, RuntimeStage::Ready);
    let r = flow.runtime(&h, &vec![false, false]);
    assert_eq!(r.node_dir.as_deref(), Some("/n"));
    assert_eq!(r.extra_path, vec!["/pn", "/nub"]);

    let mut flow = RuntimeFlow::start(Os::Linux, &nub, &m, &none);
    flow.nub(Os::Linux, &nub, &m, &none, true, Ok(vec![]));
    let said = flow.from_nub(Some("/nubs/node".to_string()));
    assert_eq!(said, Some(Message::with1("flow.runtime.node_via_nub", "dir", "/nubs/node")));
    assert_eq!(flow.node_dir.as_deref(), Some("/nubs/node"));
    flow.bun(Err("no bun".to_string()));
    assert_eq!(flow.stage, RuntimeStage::Failed);
    assert_eq!(flow.error.as_deref(), Some("no bun"));

    let node = tool("node", "/usr/bin/node", Some(node_min()));
    let flow = RuntimeFlow::start(Os::Linux, &with_pm(Pm::Npm), &m, &node);
    assert_eq!(flow.stage, RuntimeStage::Bun);
    assert_eq!(flow.node_dir.as_deref(), Some("/usr/bin"));
}

#[test]
fn an_installation_is_tried_at_most_twice() {
    let mirror = |mode: MirrorMode| MirrorConfig {
        mode,
        npm: Some("https://r".to_string()),
        ..MirrorConfig::default()
    };
    assert!(matches!(after_attempt(&mirror(MirrorMode::On), true), Attempt::Done));
    match after_attempt(&mirror(MirrorMode::On), false) {
        Attempt::Again(second) => {
            assert_eq!(second.mode, MirrorMode::Off);
            assert!(matches!(after_attempt(&second, false), Attempt::GiveUp));
        },
        other => panic!("expected a second try, got {:?}", other),
    }
    assert!(matches!(after_attempt(&mirror(MirrorMode::Force), false), Attempt::GiveUp));
    assert!(matches!(after_attempt(&mirror(MirrorMode::Off), false), Attempt::GiveUp));
}

#[test]
fn a_recent_system_node_wins() {
    let m = MirrorConfig { npm: Some("https://r".to_string()), ..MirrorConfig::default() };
    let node = tool("node", "/usr/bin/node", Some(node_min()));
    let nub = with_pm(Pm::Nub);
    assert!(matches!(
        node_source(Os::Linux, &nub, &m, &node, true),
        NodeSource::System(d) if d == "/usr/bin"
    ));
    assert!(matches!(node_source(Os::Linux, &nub, &m, &missing("node"), true), NodeSource::Nub));
    assert!(matches!(node_source(Os::Linux, &nub, &m, &missing("node"), false), NodeSource::Chain));
    let plain = MirrorConfig::default();
    assert!(matches!(node_source(Os::Linux, &nub, &plain, &missing("node"), true), NodeSource::Chain));
}

#[test]
fn streamed_commands_are_judged_by_their_exit_code() {
    assert!(exit_result("x", Some(0)).is_ok());
    assert_eq!(exit_result("x", Some(-1)).unwrap_err().args[1], ("code", "-1".to_string()));
    assert_eq!(exit_result("x", None).unwrap_err().key, "stream.no_status");
    assert_eq!(start_failed("x", "gone").key, "stream.start_failed");
    assert_eq!(log_line(&Output::Stdout(" a ".to_string())).as_deref(), Some("a"));
    assert_eq!(log_line(&Output::Stderr(" ".to_string())), None);
}
