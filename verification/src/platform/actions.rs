//! OS-level user actions (open a file in the file manager, ...) as commands.

use vstd::prelude::*;
use vstd::string::*;
use super::detect::Os;
use crate::process::command::{plain, Cmd, CmdView};
use crate::text::opt_view;

verus! {

/// The program that opens a file, a directory or a URL with what the desktop
/// has for it.
pub open spec fn opener(os: Os) -> Seq<char> {
    if os == Os::Macos {
        "open"@
    } else {
        "xdg-open"@
    }
}

/// The command that opens a file or a directory.
pub open spec fn path_command(os: Os, path: Seq<char>, is_dir: bool) -> CmdView {
    if os != Os::Windows {
        plain(opener(os), seq![path])
    } else if is_dir {
        plain("explorer"@, seq![path])
    } else {
        plain("explorer"@, seq!["/select,"@ + path])
    }
}

/// The command that opens a URL.
pub open spec fn url_command(os: Os, url: Seq<char>) -> CmdView {
    if os == Os::Windows {
        plain("rundll32"@, seq!["url.dll,FileProtocolHandler"@, url])
    } else {
        plain(opener(os), seq![url])
    }
}

/// Opens a file (selected in the file manager) or a directory in the OS shell.
pub fn open_path(os: Os, path: &str, is_dir: bool) -> (r: Cmd)
    ensures
        r@ == path_command(os, path@, is_dir),
{
    let mut cmd = match os {
        Os::Windows => Cmd::new("explorer"),
        Os::Macos => Cmd::new("open"),
        Os::Linux => Cmd::new("xdg-open"),
    };
    if os == Os::Windows && !is_dir {
        let selected = "/select,".to_owned().concat(path);
        cmd.arg(selected.as_str());
    } else {
        cmd.arg(path);
    }
    assert(cmd@.args =~= seq![cmd@.args[0]]);
    cmd
}

/// Opens a URL in the system default browser.
///
/// On Windows `url.dll,FileProtocolHandler` is what opens a URL: it goes past
/// `cmd`, so a `&` in a query string never separates commands.
pub fn open_url(os: Os, url: &str) -> (r: Cmd)
    ensures
        r@ == url_command(os, url@),
{
    match os {
        Os::Windows => {
            let mut cmd = Cmd::new("rundll32");
            cmd.arg("url.dll,FileProtocolHandler");
            cmd.arg(url);
            assert(cmd@.args =~= seq!["url.dll,FileProtocolHandler"@, url@]);
            cmd
        },
        Os::Macos => {
            let mut cmd = Cmd::new("open");
            cmd.arg(url);
            assert(cmd@.args =~= seq![url@]);
            cmd
        },
        Os::Linux => {
            let mut cmd = Cmd::new("xdg-open");
            cmd.arg(url);
            assert(cmd@.args =~= seq![url@]);
            cmd
        },
    }
}

/// The `PATH` that a terminal gets on top of the inherited environment.
pub open spec fn path_env(path: Option<Seq<char>>) -> Seq<(Seq<char>, Seq<char>)> {
    match path {
        Some(path) => seq![("PATH"@, path)],
        None => seq![],
    }
}

/// The terminal emulators of a Linux desktop, in the order in which they are
/// tried.
pub open spec fn emulators() -> Seq<Seq<char>> {
    seq!["x-terminal-emulator"@, "gnome-terminal"@, "konsole"@, "xfce4-terminal"@]
}

/// The commands that open a terminal in `cwd`, in the order in which they are
/// tried.
pub open spec fn terminal_commands(os: Os, path: Option<Seq<char>>, cwd: Seq<char>) -> Seq<
    CmdView,
> {
    match os {
        Os::Windows => seq![
            CmdView {
                program: "cmd.exe"@,
                args: seq![
                    "/C"@,
                    "start"@,
                    ""@,
                    "powershell.exe"@,
                    "-NoExit"@,
                    "-NoLogo"@,
                ],
                envs: path_env(path),
                cwd: Some(cwd),
            },
        ],
        Os::Macos => seq![plain("open"@, seq!["-a"@, "Terminal"@, cwd])],
        Os::Linux => emulators().map_values(
            |program: Seq<char>|
                CmdView { program, args: seq![], envs: path_env(path), cwd: Some(cwd) },
        ),
    }
}

/// The contents of a list of commands.
pub open spec fn cmd_views(list: Seq<Cmd>) -> Seq<CmdView> {
    list.map_values(|c: Cmd| c@)
}

fn placed(cmd: &mut Cmd, path: &Option<String>, cwd: &str)
    requires
        old(cmd)@.envs == Seq::<(Seq<char>, Seq<char>)>::empty(),
    ensures
        final(cmd)@ == (CmdView { envs: path_env(opt_view(*path)), cwd: Some(cwd@), ..old(cmd)@ }),
{
    cmd.current_dir(cwd);
    if let Some(path) = path {
        cmd.env("PATH", path.as_str());
    }
    assert(cmd@.envs =~= path_env(opt_view(*path)));
}

fn emulator(program: &str, path: &Option<String>, cwd: &str) -> (r: Cmd)
    ensures
        r@ == (CmdView {
            program: program@,
            args: seq![],
            envs: path_env(opt_view(*path)),
            cwd: Some(cwd@),
        }),
{
    let mut cmd = Cmd::new(program);
    placed(&mut cmd, path, cwd);
    cmd
}

/// Opens a terminal window running in `cwd` with `path` as its `PATH` (the
/// resolved dsh runtime dirs first), so the terminal feels like the dsh
/// environment: `dsh` / `node` / `bun` resolve without extra setup.
///
/// The commands are tried in their order until one starts. On Windows `cmd /C
/// start` gives the shell a console of its own; on macOS the terminal cannot
/// be handed a `PATH`.
pub fn open_terminal(os: Os, path: &Option<String>, cwd: &str) -> (r: Vec<Cmd>)
    ensures
        cmd_views(r@) == terminal_commands(os, opt_view(*path), cwd@),
{
    let r = match os {
        Os::Windows => {
            let mut cmd = Cmd::new("cmd.exe");
            cmd.arg("/C");
            cmd.arg("start");
            cmd.arg("");
            cmd.arg("powershell.exe");
            cmd.arg("-NoExit");
            cmd.arg("-NoLogo");
            placed(&mut cmd, path, cwd);
            assert(cmd@ =~= terminal_commands(os, opt_view(*path), cwd@)[0]);
            vec![cmd]
        },
        Os::Macos => {
            let mut cmd = Cmd::new("open");
            cmd.arg("-a");
            cmd.arg("Terminal");
            cmd.arg(cwd);
            assert(cmd@ =~= terminal_commands(os, opt_view(*path), cwd@)[0]);
            vec![cmd]
        },
        Os::Linux => {
            vec![
                emulator("x-terminal-emulator", path, cwd),
                emulator("gnome-terminal", path, cwd),
                emulator("konsole", path, cwd),
                emulator("xfce4-terminal", path, cwd),
            ]
        },
    };
    assert(cmd_views(r@) =~= terminal_commands(os, opt_view(*path), cwd@));
    r
}

/// Why no terminal could be opened, when none of the commands started: on
/// Linux, that no emulator was found; elsewhere, what the OS said of the one
/// that was tried.
pub fn terminal_failure(os: Os, error: &str) -> (r: String)
    ensures
        r@ == (if os == Os::Linux {
            "no terminal emulator found"@
        } else {
            error@
        }),
{
    match os {
        Os::Linux => "no terminal emulator found".to_owned(),
        Os::Windows | Os::Macos => error.to_owned(),
    }
}

/// Every terminal is opened in the directory that is asked for, and gets the
/// `PATH` that is given, but for the one of macOS, which takes none.
pub proof fn terminals_open_where_they_should(os: Os, path: Seq<char>, cwd: Seq<char>, i: int)
    requires
        0 <= i < terminal_commands(os, Some(path), cwd).len(),
    ensures
        os != Os::Macos ==> terminal_commands(os, Some(path), cwd)[i].cwd == Some(cwd),
        os != Os::Macos ==> terminal_commands(os, Some(path), cwd)[i].envs == seq![
            ("PATH"@, path),
        ],
        os == Os::Macos ==> terminal_commands(os, Some(path), cwd)[i].args.last() == cwd,
        os == Os::Macos ==> terminal_commands(os, Some(path), cwd)[i].envs.len() == 0,
        terminal_commands(os, None, cwd)[i].envs.len() == 0,
        terminal_commands(os, None, cwd).len() == terminal_commands(os, Some(path), cwd).len(),
{
}

/// The terminals that are tried: PowerShell in a console of its own, the
/// Terminal of macOS, and on Linux the desktop's own choice before those of
/// GNOME, KDE and Xfce.
pub proof fn terminals_are_tried_in_order(path: Option<Seq<char>>, cwd: Seq<char>)
    ensures
        terminal_commands(Os::Windows, path, cwd).len() == 1,
        terminal_commands(Os::Windows, path, cwd)[0].program == "cmd.exe"@,
        terminal_commands(Os::Windows, path, cwd)[0].args == seq![
            "/C"@,
            "start"@,
            ""@,
            "powershell.exe"@,
            "-NoExit"@,
            "-NoLogo"@,
        ],
        terminal_commands(Os::Macos, path, cwd) == seq![
            plain("open"@, seq!["-a"@, "Terminal"@, cwd]),
        ],
        terminal_commands(Os::Linux, path, cwd).len() == 4,
        terminal_commands(Os::Linux, path, cwd)[0].program == "x-terminal-emulator"@,
        terminal_commands(Os::Linux, path, cwd)[1].program == "gnome-terminal"@,
        terminal_commands(Os::Linux, path, cwd)[2].program == "konsole"@,
        terminal_commands(Os::Linux, path, cwd)[3].program == "xfce4-terminal"@,
        opener(Os::Macos) == "open"@,
        opener(Os::Linux) == "xdg-open"@,
{
}

/// What is opened is the last argument of what opens it, the explorer selects a
/// file and opens a directory, and no shell reads a URL.
pub proof fn what_is_opened_is_the_last_argument(os: Os, what: Seq<char>, is_dir: bool)
    ensures
        os != Os::Windows ==> path_command(os, what, is_dir) == plain(opener(os), seq![what]),
        path_command(Os::Windows, what, true) == plain("explorer"@, seq![what]),
        path_command(Os::Windows, what, false) == plain("explorer"@, seq!["/select,"@ + what]),
        url_command(os, what).args.last() == what,
        os != Os::Windows ==> url_command(os, what) == plain(opener(os), seq![what]),
        url_command(Os::Windows, what).program == "rundll32"@,
        url_command(Os::Windows, what).args[0] == "url.dll,FileProtocolHandler"@,
        url_command(Os::Windows, what).args.len() == 2,
{
}

} // verus!
