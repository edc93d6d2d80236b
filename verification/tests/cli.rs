use dshl::cli::run::{apply_run_options, boot_wants_lock, wants_lock};
use dshl::cli::{
    parse_args, run_cli, run_with_options, try_kernel_lock, window_show, Boot, Kernel, KernelLock,
    RunOptions, RunOutcome, Show, Started, USAGE,
};
use dshl::debug::{enabled, Logging};
use dshl::i18n::{init, locale, locale_for, locale_for_system};
use dshl::native::{
    is_kernel_running, launch, launch_status, open_terminal, ping, platform_info, restart,
    run_options, shutdown, terminal_list, terminal_spawn, terminal_ws_endpoint, LaunchOptions,
    LaunchStatus, OpenTerminalOptions, RequestRestartOptions, Restart, Session,
};
use dshl::platform::Os;

fn args(list: &[&str]) -> Vec<String> {
    list.iter().map(|s| s.to_string()).collect()
}

#[test]
fn the_command_line_is_read() {
    let o = parse_args(&args(&["-c", "a.toml", "--verbose"])).expect("options");
    assert_eq!(o.config.as_deref(), Some("a.toml"));
    assert!(o.debug);
    assert!(o.enable_single_instance && o.enable_control_pipe && o.install_signal_handler);
    let o = parse_args(&Vec::new()).expect("options");
    assert_eq!(o.config, None);
    assert!(!o.debug);
    let o = parse_args(&args(&["--config", "a", "-c", "-h"])).expect("options");
    assert_eq!(o.config.as_deref(), Some("-h"));
}

#[test]
fn command_lines_that_start_nothing() {
    let outcome = |list: &[&str]| parse_args(&args(list)).expect_err("an outcome");
    assert_eq!(outcome(&["-d", "--help", "--nope"]), RunOutcome::HelpPrinted);
    assert_eq!(outcome(&["-V"]), RunOutcome::VersionPrinted);
    assert_eq!(
        outcome(&["-c"]),
        RunOutcome::ArgsError("--config requires a value".to_string())
    );
    assert_eq!(
        outcome(&["x"]),
        RunOutcome::ArgsError(format!("unexpected argument 'x'\n\n{}", USAGE))
    );
    assert_eq!(outcome(&["x"]).exit_code(), 2);
    assert_eq!(outcome(&["-h"]).exit_code(), 0);
    assert_eq!(RunOutcome::AlreadyRunning.exit_code(), 0);
    assert!(USAGE.starts_with("DSHL — DeepSeek Harness web launcher\n\nUSAGE:\n    dshl [OPTIONS]\n"));
    assert!(USAGE.ends_with("    -h, --help             Print help\n"));
}

#[test]
fn a_second_launcher_does_not_boot() {
    let o = parse_args(&Vec::new()).expect("options");
    assert!(wants_lock(&o, true));
    assert!(!wants_lock(&o, false));
    assert_eq!(run_cli(&o, true, false), Err(RunOutcome::AlreadyRunning));
    assert_eq!(
        run_cli(&o, true, true),
        Ok(Boot { hold_lock: true, signal_handler: true, control_pipe: true })
    );
    assert_eq!(
        run_cli(&o, false, false),
        Ok(Boot { hold_lock: false, signal_handler: true, control_pipe: true })
    );
}

#[test]
fn a_second_boot_finds_the_first_kernel() {
    let o = parse_args(&vec![]).unwrap();
    let quiet = RunOptions::default();
    let mut kernel = Kernel::new();
    assert!(boot_wants_lock(&kernel, &o, true));
    assert_eq!(
        run_with_options(&mut kernel, &o, true, false),
        Err("another dshl instance is already running")
    );
    assert_eq!(kernel.existing(), None);
    assert_eq!(
        run_with_options(&mut kernel, &quiet, true, false),
        Ok(Started::Booted(Boot {
            hold_lock: false,
            signal_handler: false,
            control_pipe: false
        }))
    );
    let waiting = kernel.existing().unwrap();
    assert!(!waiting.is_running());
    assert!(!boot_wants_lock(&kernel, &o, true));
    assert_eq!(run_with_options(&mut kernel, &o, true, false), Ok(Started::Existing(waiting)));
    kernel.began();
    let running = kernel.existing().unwrap();
    assert!(running.is_running());
    assert_eq!(run_with_options(&mut kernel, &o, true, true), Ok(Started::Existing(running)));
    kernel.ended();
    assert!(matches!(
        run_with_options(&mut kernel, &o, true, true),
        Ok(Started::Booted(Boot { hold_lock: true, .. }))
    ));
    assert_eq!(kernel.spawn_failed("no memory"), "failed to spawn kernel thread: no memory");
    assert_eq!(kernel.existing(), None);
}

#[test]
fn logging_is_asked_for_twice() {
    let mut logging = Logging::default();
    assert!(!enabled(&logging));
    let quiet = RunOptions::default();
    assert!(!apply_run_options(&mut logging, &quiet, &Some("  ".to_string())));
    assert!(apply_run_options(&mut logging, &quiet, &Some("1".to_string())));
    assert!(enabled(&logging));
    assert!(!apply_run_options(&mut logging, &quiet, &None));
    let loud = RunOptions { debug: true, ..RunOptions::default() };
    assert!(apply_run_options(&mut logging, &loud, &None));
}

#[test]
fn one_kernel_runs_at_a_time() {
    let mut kernel = Kernel::new();
    assert_eq!(
        launch(&mut kernel, None, true, false),
        Err("another dshl instance is already running")
    );
    assert!(!is_kernel_running(&kernel));
    assert_eq!(
        launch(&mut kernel, None, true, true),
        Ok(Some(Boot { hold_lock: true, signal_handler: false, control_pipe: false }))
    );
    assert!(is_kernel_running(&kernel));
    assert_eq!(launch(&mut kernel, None, true, true), Ok(None));
    kernel.began();
    assert!(is_kernel_running(&kernel));
    assert!(kernel.existing().unwrap().is_running());
    assert_eq!(launch(&mut kernel, None, true, false), Ok(None));
    assert!(kernel.existing().unwrap().is_running());
    kernel.ended();
    assert!(!is_kernel_running(&kernel));
    assert!(matches!(launch(&mut kernel, None, false, false), Ok(Some(_))));
    kernel.ended();
    assert_eq!(
        launch_status(&kernel, true, false, true),
        LaunchStatus {
            launched: true,
            kernel_running: false,
            window_visible: false,
            tray_visible: true
        }
    );
}

#[test]
fn the_window_waits_for_a_boot_but_not_forever() {
    assert_eq!(window_show(KernelLock::Free, 0), Show::Now);
    assert_eq!(window_show(KernelLock::Poisoned, 20_000), Show::Now);
    assert_eq!(window_show(KernelLock::Busy, 0), Show::Retry(50));
    assert_eq!(window_show(KernelLock::Busy, 9_999), Show::Retry(50));
    assert_eq!(window_show(KernelLock::Busy, 10_000), Show::Skip);
    assert!(try_kernel_lock(KernelLock::Poisoned));
    assert!(!try_kernel_lock(KernelLock::Busy));
}

#[test]
fn a_host_keeps_its_signals_by_default() {
    let o = run_options(None);
    assert!(o.enable_single_instance);
    assert!(!o.debug && !o.enable_control_pipe && !o.install_signal_handler);
    let o = run_options(Some(LaunchOptions {
        config: Some("x".to_string()),
        debug: Some(true),
        enable_single_instance: Some(false),
        enable_control_pipe: None,
        install_signal_handler: Some(true),
    }));
    assert_eq!(o.config.as_deref(), Some("x"));
    assert!(o.debug && !o.enable_single_instance && !o.enable_control_pipe);
    assert!(o.install_signal_handler);
}

#[test]
fn a_restart_needs_a_kernel_or_a_command() {
    let mut kernel = Kernel::new();
    assert!(matches!(restart(&kernel, &None), Restart::Refused));
    let options = Some(RequestRestartOptions {
        cmd: "dsh".to_string(),
        args: args(&["web"]),
        cwd: Some("".to_string()),
        path: Some("/p".to_string()),
    });
    match restart(&kernel, &options) {
        Restart::Spawn(c) => {
            assert_eq!(c.program, "dsh");
            assert_eq!(c.args, vec!["web"]);
            assert_eq!(c.cwd, None);
            assert_eq!(c.envs, vec![("PATH".to_string(), "/p".to_string())]);
        },
        other => panic!("expected a command, got {:?}", other),
    }
    assert_eq!(shutdown(&kernel), (false, true));
    kernel.booted();
    kernel.began();
    assert!(matches!(restart(&kernel, &options), Restart::Kernel));
    assert_eq!(shutdown(&kernel), (true, true));
}

#[test]
fn facts_for_the_host() {
    let p = ping("1.2.3");
    assert!(p.pong);
    assert_eq!(p.version, "1.2.3");
    let info = platform_info(Os::Windows, "aarch64");
    assert_eq!((info.os.as_str(), info.arch.as_str()), ("windows", "aarch64"));
    assert_eq!(info.shell, "powershell");
    assert_eq!(platform_info(Os::Macos, "x86_64").shell, "bash");
    let o = OpenTerminalOptions { cwd: "/w".to_string(), path: None };
    assert_eq!(open_terminal(Os::Linux, &o).len(), 4);
    let s = terminal_spawn("a".to_string(), u32::MAX, "ws://x".to_string());
    assert_eq!(s.pid, 4294967295);
    let session = Session {
        id: "a".to_string(),
        pid: 7,
        shell: "bash".to_string(),
        cwd: "/w".to_string(),
        started_at_ms: 1_700_000_000_000,
        alive: true,
    };
    let list = terminal_list(&vec![session]);
    assert_eq!(list.len(), 1);
    assert_eq!((list[0].pid, list[0].started_at_ms), (7, 1_700_000_000_000));
    assert_eq!(list[0].shell, "bash");
    let e = terminal_ws_endpoint("h".to_string(), 65535, "t".to_string(), "/p".to_string());
    assert_eq!(e.port, 65535);
}

#[test]
fn the_language_follows_the_system() {
    assert_eq!(locale_for("zh-TW"), "zh-CN");
    assert_eq!(locale_for("ZH_hans"), "zh-CN");
    assert_eq!(locale_for("cmn"), "zh-CN");
    assert_eq!(locale_for("zhx"), "en");
    assert_eq!(locale_for("fr-FR"), "en");
    assert_eq!(locale_for_system(&None), "en");
    assert_eq!(locale_for_system(&Some("zh".to_string())), "zh-CN");
    let mut slot = None;
    let l = locale(&mut slot);
    assert!(l == "zh-CN" || l == "en");
    assert_eq!(l, locale_for_system(&sys_locale::get_locale()));
    assert_eq!(slot, Some(l));
}

#[test]
fn the_locale_is_chosen_once() {
    for chosen in ["zh-CN", "en"] {
        let mut slot = Some(chosen);
        assert_eq!(locale(&mut slot), chosen);
        init(&mut slot);
        assert_eq!(slot, Some(chosen));
    }
    let mut slot = None;
    init(&mut slot);
    let first = slot;
    assert_eq!(Some(locale(&mut slot)), first);
}
