use dshl::platform::actions;
use dshl::platform::path::is_same_path;
use dshl::platform::paths::{
    bin_dir, cache_dir, config_dir, default_pnpm_bin_dir, home_dir, is_executable, join, known_tool_dirs, parent,
    tool, which, which_in, which_paths, Host,
};
use dshl::platform::process::{
    cmdline_query, dsh_instance_running, dsh_queries, find_process_by_cmdline, kill_tree,
    process_alive, win_alive, STILL_ACTIVE,
};
use dshl::platform::single_instance::{
    acquire, activate_path, lock_path, notify_activate, poll_activate, Activation,
};
use dshl::platform::theme::{
    apply_window_theme, is_dark_mode, set_dark_titlebar, set_window_icon,
};
use dshl::platform::tray::{
    hide_to_tray, quit_requested, restore_requested, set_icon, shutdown, start, start_failed, tip,
    Reaction, Tray, TrayShutdown, DOUBLE_CLICK_MS, WM_COMMAND, WM_LBUTTONUP, WM_RBUTTONUP,
    WM_TRAY_CALLBACK, WM_TRAY_QUIT,
};
use dshl::platform::window::{
    find_hwnd_by_pid, focus_window, force_focus, is_window_alive, screen_size, window_rect, Edges,
    FocusStep, Listed, WindowRect,
};
use dshl::platform::{
    arch, arch_name, distro, executable_ext, os, os_name, shell, shell_command, with_ext, Arch, Distro,
    Os, Shell,
};

fn host(os: Os) -> Host {
    Host {
        os,
        userprofile: None,
        home: None,
        dshl_cache: None,
        appdata: None,
        localappdata: None,
        xdg_config_home: None,
        path: Vec::new(),
    }
}

fn linux() -> Host {
    Host { home: Some("/home/me".to_string()), ..host(Os::Linux) }
}

fn windows() -> Host {
    Host {
        userprofile: Some("C:\\Users\\me".to_string()),
        appdata: Some("C:\\Users\\me\\AppData\\Roaming".to_string()),
        localappdata: Some("C:\\Users\\me\\AppData\\Local".to_string()),
        ..host(Os::Windows)
    }
}

#[test]
fn the_host_is_recognised_by_its_names() {
    assert_eq!(os("windows"), Os::Windows);
    assert_eq!(os("macos"), Os::Macos);
    assert_eq!(os("freebsd"), Os::Linux);
    assert_eq!(arch("x86_64"), Arch::X86_64);
    assert_eq!(arch("aarch64"), Arch::Aarch64);
    assert_eq!(arch("riscv64"), Arch::Other);
    assert_eq!(os_name(Os::Macos), "macos");
    assert_eq!(arch_name("riscv64"), "riscv64");
    assert_eq!(shell(Os::Windows), Shell::PowerShell);
    assert_eq!(shell(Os::Macos), Shell::Bash);
}

#[test]
fn snippets_run_through_the_shell() {
    let c = shell_command(Shell::PowerShell);
    assert_eq!(c.program, "powershell");
    assert_eq!(c.args, vec!["-NoProfile", "-NonInteractive", "-Command"]);
    assert_eq!(shell_command(Shell::Bash).args, vec!["-lc"]);
    assert_eq!(shell_command(Shell::Sh).program, "sh");
    assert_eq!(shell_command(Shell::Cmd).args, vec!["/C"]);
}

#[test]
fn paths_are_joined_as_on_the_host() {
    assert_eq!(join(Os::Linux, "/a", "b"), "/a/b");
    assert_eq!(join(Os::Linux, "/a/", "b"), "/a/b");
    assert_eq!(join(Os::Linux, "", "b"), "b");
    assert_eq!(join(Os::Linux, "/a", "/b"), "/b");
    assert_eq!(join(Os::Windows, "C:\\a", "b"), "C:\\a\\b");
    assert_eq!(join(Os::Windows, "C:\\a", "D:\\b"), "D:\\b");
    assert_eq!(join(Os::Windows, "C:\\a", "\\b"), "C:\\b");
    assert_eq!(join(Os::Windows, "C:", "b"), "C:b");
}

#[test]
fn directories_follow_the_environment() {
    assert_eq!(home_dir(&linux()), Some("/home/me".to_string()));
    assert_eq!(home_dir(&host(Os::Linux)), None);
    let cached = Host { dshl_cache: Some("/tmp/c".to_string()), ..linux() };
    assert_eq!(cache_dir(&cached), "/tmp/c");
    assert!(cache_dir(&linux()).starts_with("/home/me/"));
    assert!(bin_dir(&cached).starts_with("/tmp/c/"));
    let xdg = Host { xdg_config_home: Some("/x".to_string()), ..linux() };
    assert!(config_dir(&xdg).starts_with("/x"));
    assert!(default_pnpm_bin_dir(&linux()).is_some());
    assert!(!known_tool_dirs(&linux()).is_empty());
    assert!(cache_dir(&windows()).starts_with("C:\\"));
}

#[test]
fn executables_are_looked_for_in_order() {
    let h = Host { path: vec!["/p".to_string(), "/q".to_string()], ..linux() };
    let extra = vec!["/first".to_string()];
    let paths = which_paths(&h, "node", &extra);
    assert_eq!(paths[0], "/first/node");
    let all = vec![true; paths.len()];
    assert_eq!(which_in(&h, "node", &extra, &all), Some("/first/node".to_string()));
    let none = vec![false; paths.len()];
    assert_eq!(which_in(&h, "node", &extra, &none), None);
    let normal = which_paths(&h, "node", &Vec::new());
    let mut only_q = vec![false; normal.len()];
    let at = normal.iter().position(|p| p == "/q/node").expect("PATH is searched");
    only_q[at] = true;
    assert_eq!(which(&h, "node", &only_q), Some("/q/node".to_string()));
    assert_eq!(tool(&h, "npm", &none), "npm");
    assert!(is_executable(Os::Linux, true, 0o100755));
    assert!(!is_executable(Os::Linux, true, 0o100644));
    assert!(!is_executable(Os::Linux, false, 0o040755));
    assert!(is_executable(Os::Windows, true, 0));
    assert_eq!(executable_ext(Os::Windows), ".exe");
    assert_eq!(with_ext(Os::Windows, "fnm"), "fnm.exe");
    assert_eq!(with_ext(Os::Linux, "fnm"), "fnm");
}

#[test]
fn the_parent_of_a_found_file_is_its_directory() {
    assert_eq!(parent(Os::Linux, "/usr/bin/node"), Some("/usr/bin".to_string()));
    assert_eq!(parent(Os::Linux, "/node"), Some("/".to_string()));
    assert_eq!(parent(Os::Linux, "node"), Some("".to_string()));
    assert_eq!(parent(Os::Windows, "C:\\n\\node.exe"), Some("C:\\n".to_string()));
}

#[test]
fn files_are_shown_and_directories_opened() {
    let c = actions::open_path(Os::Windows, "C:\\a.txt", false);
    assert_eq!(c.program, "explorer");
    assert_eq!(c.args, vec!["/select,C:\\a.txt"]);
    assert_eq!(actions::open_path(Os::Windows, "C:\\d", true).args, vec!["C:\\d"]);
    assert_eq!(actions::open_path(Os::Macos, "/a", false).program, "open");
    assert_eq!(actions::open_path(Os::Linux, "/a", true).program, "xdg-open");
}

#[test]
fn urls_are_opened_whole() {
    let url = "http://127.0.0.1:1/?a=1&b=2";
    let c = actions::open_url(Os::Windows, url);
    assert_eq!(c.program, "rundll32");
    assert_eq!(c.args, vec!["url.dll,FileProtocolHandler", url]);
    assert_eq!(actions::open_url(Os::Linux, url).args, vec![url]);
    assert_eq!(actions::open_url(Os::Macos, url).program, "open");
}

#[test]
fn terminals_are_tried_in_order() {
    let path = Some("/n:/usr/bin".to_string());
    let list = actions::open_terminal(Os::Linux, &path, "/w");
    let programs: Vec<&str> = list.iter().map(|c| c.program.as_str()).collect();
    assert_eq!(
        programs,
        vec!["x-terminal-emulator", "gnome-terminal", "konsole", "xfce4-terminal"]
    );
    assert_eq!(list[2].cwd.as_deref(), Some("/w"));
    assert_eq!(list[2].envs, vec![("PATH".to_string(), "/n:/usr/bin".to_string())]);
    let win = actions::open_terminal(Os::Windows, &None, "C:\\w");
    assert_eq!(win.len(), 1);
    assert_eq!(
        win[0].args,
        vec!["/C", "start", "", "powershell.exe", "-NoExit", "-NoLogo"]
    );
    assert!(win[0].envs.is_empty());
    let mac = actions::open_terminal(Os::Macos, &path, "/w");
    assert_eq!(mac[0].args, vec!["-a", "Terminal", "/w"]);
    assert!(mac[0].envs.is_empty());
    assert_eq!(actions::terminal_failure(Os::Linux, "x"), "no terminal emulator found");
    assert_eq!(actions::terminal_failure(Os::Macos, "x"), "x");
}

#[test]
fn processes_are_killed_with_their_tree() {
    assert_eq!(kill_tree(Os::Windows, 42).args, vec!["/F", "/T", "/PID", "42"]);
    assert_eq!(kill_tree(Os::Linux, 42).args, vec!["-KILL", "42"]);
    assert!(process_alive(1, true));
    assert!(!process_alive(1, false));
    assert!(!process_alive(0, true));
    assert!(win_alive(Some(STILL_ACTIVE)));
    assert!(!win_alive(Some(0)));
    assert!(!win_alive(None));
}

#[test]
fn processes_are_found_by_what_the_query_prints() {
    let q = cmdline_query(Os::Linux, "--app=http://localhost:1");
    assert_eq!(q.program, "pgrep");
    assert_eq!(q.args, vec!["-f", "--app=http://localhost:1"]);
    let q = cmdline_query(Os::Windows, "needle");
    assert_eq!(q.program, "powershell");
    assert!(q.args[3].contains("[regex]::Escape('needle') }"));
    let printed = |s: &str| Some(s.to_string());
    assert_eq!(find_process_by_cmdline(Os::Linux, &printed(" 12 \n34\n")), Some(12));
    assert_eq!(find_process_by_cmdline(Os::Windows, &printed("12\r\n")), Some(12));
    assert_eq!(find_process_by_cmdline(Os::Windows, &printed("12\n34")), None);
    assert_eq!(find_process_by_cmdline(Os::Linux, &printed("")), None);
    assert_eq!(find_process_by_cmdline(Os::Linux, &printed("4294967296")), None);
    assert_eq!(find_process_by_cmdline(Os::Linux, &None), None);
}

#[test]
fn a_running_dsh_is_found_by_name_or_by_entry() {
    let unix = dsh_queries(Os::Linux);
    assert_eq!(unix[0].args, vec!["-x", "dsh"]);
    assert_eq!(unix[1].args, vec!["-f", "dsh/lib/bin.js"]);
    assert_eq!(dsh_queries(Os::Windows).len(), 1);
    assert!(dsh_queries(Os::Windows)[0].args[3].contains("@deepseek-ai[\\/]dsh[\\/]lib[\\/]bin\\.js"));
    let second = vec![Some("".to_string()), Some("77\n".to_string())];
    assert_eq!(dsh_instance_running(Os::Linux, &second), Some(77));
    let both = vec![Some("5\n".to_string()), Some("77\n".to_string())];
    assert_eq!(dsh_instance_running(Os::Linux, &both), Some(5));
    assert_eq!(dsh_instance_running(Os::Linux, &vec![None, None]), None);
}

#[test]
fn one_request_activates_once() {
    let h = Host { dshl_cache: Some("/c".to_string()), ..linux() };
    assert_eq!(lock_path(&h), "/c/dshl/instance.lock");
    assert_eq!(activate_path(&h), "/c/dshl/activate");
    assert!(acquire(true, true));
    assert!(!acquire(true, false));
    assert!(!acquire(false, true));
    assert_eq!(notify_activate(Some(1700)), "1700\n");
    assert_eq!(notify_activate(None), "0\n");
    let mut a = Activation::default();
    assert!(!poll_activate(&mut a, Some(14)));
    assert!(!poll_activate(&mut a, Some(14)));
    assert!(poll_activate(&mut a, Some(28)));
    assert!(!poll_activate(&mut a, Some(28)));
    assert!(!poll_activate(&mut a, None));
    assert!(poll_activate(&mut a, Some(14)));
}

#[test]
fn windows_are_measured() {
    let edges = Edges { left: 10, top: 20, right: 110, bottom: 70 };
    assert_eq!(
        window_rect(Os::Windows, Some(edges), false, (1920, 1080)),
        Some(WindowRect { x: 10, y: 20, width: 100, height: 50, maximized: false })
    );
    assert!(window_rect(Os::Windows, Some(edges), true, (1920, 1080)).unwrap().maximized);
    assert!(window_rect(Os::Windows, Some(edges), false, (100, 50)).unwrap().maximized);
    assert_eq!(window_rect(Os::Windows, None, false, (1, 1)), None);
    assert_eq!(window_rect(Os::Linux, Some(edges), false, (1, 1)), None);
    let flipped = Edges { left: 10, top: 0, right: 0, bottom: 5 };
    assert_eq!(window_rect(Os::Windows, Some(flipped), false, (9, 9)).unwrap().width, 0);
    let wide = Edges { left: i32::MIN, top: 0, right: i32::MAX, bottom: 5 };
    assert_eq!(
        window_rect(Os::Windows, Some(wide), false, (9, 9)).unwrap().width,
        i32::MAX as u32
    );
    assert_eq!(screen_size(Os::Linux, Some((800, 600))), (800, 600));
    assert_eq!(screen_size(Os::Windows, Some((800, 0))), (0, 0));
    assert_eq!(screen_size(Os::Macos, Some((800, 600))), (0, 0));
    assert_eq!(screen_size(Os::Linux, None), (0, 0));
}

#[test]
fn windows_are_found_and_watched() {
    let list = vec![
        Listed { hwnd: 1, pid: 7, visible: false },
        Listed { hwnd: 2, pid: 8, visible: true },
        Listed { hwnd: 3, pid: 7, visible: true },
    ];
    assert_eq!(find_hwnd_by_pid(Os::Windows, &list, 7), Some(3));
    assert_eq!(find_hwnd_by_pid(Os::Windows, &list, 9), None);
    assert_eq!(find_hwnd_by_pid(Os::Linux, &list, 7), None);
    assert!(is_window_alive(Os::Windows, 0, false));
    assert!(!is_window_alive(Os::Windows, 5, false));
    assert!(is_window_alive(Os::Linux, 5, false));
}

#[test]
fn the_foreground_is_asked_for_before_it_is_forced() {
    assert_eq!(
        focus_window(Os::Windows, true),
        vec![FocusStep::Restore, FocusStep::Foreground]
    );
    assert_eq!(focus_window(Os::Windows, false), vec![FocusStep::Foreground]);
    assert!(focus_window(Os::Linux, true).is_empty());
    assert!(force_focus(true, 1, 2).is_empty());
    assert_eq!(
        force_focus(false, 2, 2),
        vec![FocusStep::TapAlt, FocusStep::Foreground, FocusStep::Switch]
    );
    assert_eq!(
        force_focus(false, 1, 2),
        vec![
            FocusStep::Attach,
            FocusStep::BringToTop,
            FocusStep::Foreground,
            FocusStep::Detach,
            FocusStep::TapAlt,
            FocusStep::Foreground,
            FocusStep::Switch
        ]
    );
}

#[test]
fn the_theme_follows_the_system() {
    assert!(is_dark_mode(Os::Windows, Some(0), Some(1), &None));
    assert!(!is_dark_mode(Os::Windows, Some(1), Some(0), &None));
    assert!(is_dark_mode(Os::Windows, None, Some(0), &None));
    assert!(!is_dark_mode(Os::Windows, None, None, &None));
    assert!(is_dark_mode(Os::Macos, None, None, &Some("Dark\n".to_string())));
    assert!(!is_dark_mode(Os::Macos, None, None, &Some("".to_string())));
    assert!(!is_dark_mode(Os::Linux, Some(0), Some(0), &Some("Dark".to_string())));
    assert_eq!(set_dark_titlebar(Os::Windows, true), vec![(20, 1), (19, 1)]);
    assert!(set_dark_titlebar(Os::Linux, true).is_empty());
    assert!(set_window_icon(Os::Windows, true));
    assert!(!set_window_icon(Os::Windows, false));
    assert!(!set_window_icon(Os::Linux, true));
}

#[test]
fn a_window_gets_the_icon_of_its_theme() {
    let h = Host { dshl_cache: Some("C:\\c".to_string()), ..windows() };
    let theme = apply_window_theme(&h, 5, true, &vec![1], &vec![2]).expect("a look");
    assert!(theme.dark);
    assert_eq!(theme.icon.as_deref(), Some("C:\\c\\dshl\\dsh-white.ico"));
    let theme = apply_window_theme(&h, 5, false, &vec![1], &vec![]).expect("a look");
    assert_eq!(theme.icon.as_deref(), Some("C:\\c\\dshl\\dsh.ico"));
    assert!(apply_window_theme(&h, 5, true, &vec![1], &vec![]).unwrap().icon.is_none());
    assert!(apply_window_theme(&h, 0, true, &vec![1], &vec![2]).is_none());
    assert!(apply_window_theme(&linux(), 5, true, &vec![1], &vec![2]).is_none());
}

#[test]
fn a_double_click_restores_the_window() {
    let mut tray = Tray::new(Os::Windows);
    let click = |tray: &mut Tray, now: u64| tray.wnd_proc(WM_TRAY_CALLBACK, 1, WM_LBUTTONUP, now);
    assert_eq!(click(&mut tray, 1000), Reaction::Handled);
    assert!(!restore_requested(&mut tray));
    click(&mut tray, 1000 + DOUBLE_CLICK_MS);
    assert!(!restore_requested(&mut tray));
    click(&mut tray, 1000 + DOUBLE_CLICK_MS + 1);
    assert!(restore_requested(&mut tray));
    assert!(!restore_requested(&mut tray));
}

#[test]
fn the_menu_restores_and_quits() {
    let mut tray = Tray::new(Os::Windows);
    assert_eq!(tray.wnd_proc(WM_TRAY_CALLBACK, 1, WM_RBUTTONUP, 1), Reaction::ShowMenu);
    assert_eq!(tray.wnd_proc(WM_COMMAND, 0x7_0001, 0, 1), Reaction::Handled);
    assert!(restore_requested(&mut tray));
    assert!(!quit_requested(&tray));
    assert_eq!(tray.wnd_proc(WM_COMMAND, 2, 0, 1), Reaction::Handled);
    assert!(quit_requested(&tray));
    assert!(quit_requested(&tray));
    assert_eq!(tray.wnd_proc(WM_COMMAND, 3, 0, 1), Reaction::Default);
    assert_eq!(tray.wnd_proc(WM_TRAY_CALLBACK, 1, 0x0200, 1), Reaction::Handled);
    assert_eq!(tray.wnd_proc(WM_TRAY_QUIT, 0, 0, 1), Reaction::EndLoop);
    assert_eq!(tray.wnd_proc(1, 0, 0, 1), Reaction::Default);
}

#[test]
fn the_tray_starts_once_and_shuts_down() {
    let mut tray = Tray::new(Os::Linux);
    assert!(start(&mut tray));
    assert!(!start(&mut tray));
    start_failed(&mut tray);
    assert!(start(&mut tray));
    assert_eq!(shutdown(&mut tray), TrayShutdown { remove_icon: false, end_loop: false });
    assert!(hide_to_tray(&tray).is_some());
    assert!(!start(&mut Tray::new(Os::Macos)));
    assert!(hide_to_tray(&Tray::new(Os::Macos)).is_none());

    let h = Host { dshl_cache: Some("C:\\c".to_string()), ..windows() };
    let mut tray = Tray::new(Os::Windows);
    assert!(start(&mut tray));
    assert!(!start(&mut tray));
    assert!(!tray.window_created(0));
    assert!(set_icon(&tray, &h, true).is_none());
    assert!(start(&mut tray));
    assert!(!start(&mut tray));
    assert!(tray.window_created(9));
    assert!(!start(&mut tray));
    assert!(tray.add_icon());
    assert!(!tray.add_icon());
    assert_eq!(set_icon(&tray, &h, false), Some("C:\\c\\dshl\\dsh.ico".to_string()));
    assert_eq!(tray.icon_loaded(0), None);
    assert_eq!(tray.icon_loaded(3), None);
    assert_eq!(tray.icon_loaded(4), Some(3));
    assert_eq!(shutdown(&mut tray), TrayShutdown { remove_icon: true, end_loop: true });
    assert_eq!(shutdown(&mut tray), TrayShutdown { remove_icon: false, end_loop: true });
    let units: Vec<u16> = "DSHL · DeepSeek Harness\0".encode_utf16().collect();
    assert_eq!(tip(), units);
}

#[test]
fn arch_linux_is_told_apart() {
    assert_eq!(distro(Os::Linux, true), Distro::Arch);
    assert_eq!(distro(Os::Linux, false), Distro::Other);
    assert_eq!(distro(Os::Macos, true), Distro::Other);
}

/// All texts of up to six of these pieces.
fn texts() -> Vec<String> {
    let mut all = vec![String::new()];
    let mut last = all.clone();
    for _ in 0..6 {
        last = last
            .iter()
            .flat_map(|t| ["/", ".", "a"].iter().map(move |p| format!("{t}{p}")))
            .collect();
        all.extend(last.clone());
    }
    all
}

#[test]
fn paths_of_unix_are_those_of_the_standard_library() {
    let all = texts();
    for text in &all {
        let path = std::path::Path::new(text);
        let dir = path.parent().map(|p| p.to_str().unwrap().to_string());
        assert_eq!(parent(Os::Linux, text), dir, "parent of {text:?}");
        for child in ["b", "/b", "./b", "", "b/"] {
            let joined = path.join(child).to_str().unwrap().to_string();
            assert_eq!(join(Os::Linux, text, child), joined, "{child:?} in {text:?}");
        }
        for other in all.iter().filter(|t| t.len() <= 3) {
            assert_eq!(
                is_same_path(Os::Linux, text, other),
                path == std::path::Path::new(other),
                "{text:?} and {other:?}"
            );
        }
    }
}

#[test]
fn windows_paths_keep_their_prefix() {
    let j = |base: &str, child: &str| join(Os::Windows, base, child);
    assert_eq!(j(r"\\srv\share\a", r"\b"), r"\\srv\share\b");
    assert_eq!(j(r"//srv/share/a", r"/b"), r"//srv/share/b");
    assert_eq!(j(r"\\.\COM1\a", r"\b"), r"\\.\COM1\b");
    assert_eq!(j(r"\\srv\share", "b"), r"\\srv\share\b");
    assert_eq!(j(r"\a", r"\b"), r"\b");
    assert_eq!(j(r"C:\a", r"\\srv\share\x"), r"\\srv\share\x");
    assert_eq!(j(r"C:\a", r"\\half"), r"C:\\half");
    assert_eq!(j(r"\\?\C:\a", r"\b"), r"\\?\C:\b");
    assert_eq!(j(r"\\?\C:\a\b", r"..\c/./d"), r"\\?\C:\a\c\d");
    assert_eq!(j(r"\\?\C:\a", r"..\..\..\c"), r"\\?\C:\c");
    assert_eq!(j(r"\\?\UNC\srv\share\a", r"\b"), r"\\?\UNC\srv\share\b");
    assert_eq!(j(r"\\?\UNC\srv\share", "b"), r"\\?\UNC\srv\share\b");
    assert_eq!(j(r"\\?\name", "b"), r"\\?\name\b");
}

#[test]
fn windows_paths_have_parents_and_equals() {
    let p = |path: &str| parent(Os::Windows, path);
    assert_eq!(p(r"C:\a\.\b").as_deref(), Some(r"C:\a"));
    assert_eq!(p(r"C:\a").as_deref(), Some(r"C:\"));
    assert_eq!(p(r"C:a").as_deref(), Some("C:"));
    assert_eq!(p(r"C:\"), None);
    assert_eq!(p("C:"), None);
    assert_eq!(p(r"\\srv\share\a").as_deref(), Some(r"\\srv\share\"));
    assert_eq!(p(r"\\srv\share"), None);
    assert_eq!(p(r"\\?\C:\a\b").as_deref(), Some(r"\\?\C:\a"));
    assert_eq!(p(r"\\?\C:\a\.").as_deref(), Some(r"\\?\C:\a"));
    let same = |a: &str, b: &str| is_same_path(Os::Windows, a, b);
    assert!(same(r"C:\a\b", r"c:/a/./b/"));
    assert!(!same(r"C:\a", r"C:\A"));
    assert!(!same(r"C:\a", r"C:a"));
    assert!(same(r"\\srv\share", r"//srv/share/"));
    assert!(!same(r"\\?\C:\a", r"C:\a"));
    assert!(!same(r"\\?\C:\a\.", r"\\?\C:\a"));
}
