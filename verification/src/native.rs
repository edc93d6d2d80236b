//! The launcher inside another program: the options and facts that its host
//! exchanges with it.

use vstd::prelude::*;
use crate::cli::options::{OptionsView, RunOptions};
use crate::cli::kernel::{kernel_after, KernelEvent};
use crate::cli::run::{boot, may_boot, Started};
use crate::cli::{run_with_options, Boot, Kernel};
use crate::platform::actions::{cmd_views, terminal_commands};
use crate::platform::detect::os_text;
use crate::platform::{os_name, shell, Os, Shell};
use crate::process::command::{Cmd, CmdView};
use crate::text::{opt_view, views};

verus! {

/// Full options of a launch. Left out, they mean what the installed launcher
/// does, but that the host keeps its signal handling and needs no control
/// plane.
#[derive(Debug, Clone)]
pub struct LaunchOptions {
    /// Optional absolute path to a dshl.toml.
    pub config: Option<String>,
    /// Print runtime logs to stderr (equivalent to `dshl -d`).
    pub debug: Option<bool>,
    /// Honour [ui] single-instance in dshl.toml. Defaults to true.
    pub enable_single_instance: Option<bool>,
    /// Start the control plane. Defaults to false.
    pub enable_control_pipe: Option<bool>,
    /// Install the OS signal handler. Defaults to false.
    pub install_signal_handler: Option<bool>,
}

/// Options for opening a terminal.
#[derive(Debug, Clone)]
pub struct OpenTerminalOptions {
    pub cwd: String,
    pub path: Option<String>,
}

/// Options for a restart when no kernel is running: the command of the hosting
/// process.
#[derive(Debug, Clone)]
pub struct RequestRestartOptions {
    pub cmd: String,
    pub args: Vec<String>,
    pub cwd: Option<String>,
    pub path: Option<String>,
}

/// Host platform facts.
#[derive(Debug, Clone)]
pub struct PlatformInfo {
    pub os: String,
    pub arch: String,
    pub shell: String,
}

/// Health-check payload; the same as the answer to a `ping` of the control
/// plane.
#[derive(Debug, Clone)]
pub struct PingInfo {
    pub pong: bool,
    pub version: String,
}

/// What is launched and visible.
#[derive(Debug, Clone, Copy, PartialEq, Eq, Structural)]
pub struct LaunchStatus {
    pub launched: bool,
    pub kernel_running: bool,
    pub window_visible: bool,
    pub tray_visible: bool,
}

/// Options of an embedded terminal.
#[derive(Debug, Clone)]
pub struct TerminalSpawnOptions {
    pub shell: Option<String>,
    pub cwd: Option<String>,
    pub env: Option<Vec<(String, String)>>,
    pub prepend_path: Option<Vec<String>>,
    pub cols: Option<u16>,
    pub rows: Option<u16>,
}

/// An embedded terminal that was started.
#[derive(Debug, Clone)]
pub struct TerminalSpawnResult {
    pub id: String,
    pub pid: i64,
    pub ws_url: String,
}

/// An embedded terminal.
#[derive(Debug, Clone)]
pub struct TerminalSessionInfo {
    pub id: String,
    pub pid: i64,
    pub shell: String,
    pub cwd: String,
    pub started_at_ms: i64,
    pub alive: bool,
}

/// The server of the embedded terminals.
#[derive(Debug, Clone)]
pub struct TerminalServerInfo {
    pub host: String,
    pub port: i64,
    pub token: String,
    pub url_prefix: String,
}

/// A setting, or what it means when it is left out.
pub open spec fn setting(value: Option<bool>, default: bool) -> bool {
    match value {
        Some(value) => value,
        None => default,
    }
}

fn or_default(value: Option<bool>, default: bool) -> (r: bool)
    ensures
        r == setting(value, default),
{
    match value {
        Some(value) => value,
        None => default,
    }
}

/// The options of the kernel for the options of a launch.
pub open spec fn options_of(options: Option<LaunchOptions>) -> OptionsView {
    match options {
        Some(o) => OptionsView {
            config: opt_view(o.config),
            debug: setting(o.debug, false),
            enable_single_instance: setting(o.enable_single_instance, true),
            enable_control_pipe: setting(o.enable_control_pipe, false),
            install_signal_handler: setting(o.install_signal_handler, false),
        },
        None => OptionsView {
            config: None,
            debug: false,
            enable_single_instance: true,
            enable_control_pipe: false,
            install_signal_handler: false,
        },
    }
}

/// The options of the kernel for the options of a launch.
pub fn run_options(options: Option<LaunchOptions>) -> (r: RunOptions)
    ensures
        r@ == options_of(options),
{
    match options {
        Some(o) => RunOptions {
            config: o.config,
            debug: or_default(o.debug, false),
            enable_single_instance: or_default(o.enable_single_instance, true),
            enable_control_pipe: or_default(o.enable_control_pipe, false),
            install_signal_handler: or_default(o.install_signal_handler, false),
        },
        None => RunOptions {
            config: None,
            debug: false,
            enable_single_instance: true,
            enable_control_pipe: false,
            install_signal_handler: false,
        },
    }
}

/// A launch: the boot of a new kernel, nothing while one is there that was
/// booted and has not ended, or the error when another launcher is running.
pub fn launch(
    kernel: &mut Kernel,
    options: Option<LaunchOptions>,
    single_instance: bool,
    acquired: bool,
) -> (r: Result<Option<Boot>, &'static str>)
    ensures
        match r {
            Ok(None) => old(kernel).alive(),
            Ok(Some(b)) => {
                &&& !old(kernel).alive()
                &&& may_boot(options_of(options), single_instance, acquired)
                &&& b == boot(options_of(options), single_instance)
            },
            Err(error) => {
                &&& !old(kernel).alive()
                &&& !may_boot(options_of(options), single_instance, acquired)
                &&& error@ == "another dshl instance is already running"@
            },
        },
        *final(kernel) == kernel_after(
            *old(kernel),
            KernelEvent::Boot(may_boot(options_of(options), single_instance, acquired)),
        ),
{
    match run_with_options(kernel, &run_options(options), single_instance, acquired) {
        Ok(Started::Existing(_)) => Ok(None),
        Ok(Started::Booted(b)) => Ok(Some(b)),
        Err(error) => Err(error),
    }
}

/// True iff a kernel was booted and has not ended.
pub fn is_kernel_running(kernel: &Kernel) -> (r: bool)
    ensures
        r == kernel.alive(),
{
    kernel.existing().is_some()
}

/// Everything that a host shows of a launch.
pub fn launch_status(kernel: &Kernel, launched: bool, window_visible: bool, tray_visible: bool) -> (r:
    LaunchStatus)
    ensures
        r == (LaunchStatus {
            launched,
            kernel_running: kernel.alive(),
            window_visible,
            tray_visible,
        }),
{
    LaunchStatus {
        launched,
        kernel_running: is_kernel_running(kernel),
        window_visible,
        tray_visible,
    }
}

/// The answer to a health check, with the launcher's version.
pub fn ping(version: &str) -> (r: PingInfo)
    ensures
        r.pong,
        r.version@ == version@,
{
    PingInfo { pong: true, version: version.to_owned() }
}

/// Host platform facts, where `arch` is the name of the architecture.
pub fn platform_info(os: Os, arch: &str) -> (r: PlatformInfo)
    ensures
        r.os@ == os_text(os),
        r.arch@ == arch@,
        r.shell@ == (if os == Os::Windows {
            "powershell"@
        } else {
            "bash"@
        }),
{
    let shell = match shell(os) {
        Shell::PowerShell => "powershell",
        Shell::Cmd => "cmd",
        Shell::Bash => "bash",
        Shell::Sh => "sh",
    };
    PlatformInfo {
        os: os_name(os).to_owned(),
        arch: crate::platform::arch_name(arch),
        shell: shell.to_owned(),
    }
}

/// The commands that open a terminal, tried in their order until one starts.
pub fn open_terminal(os: Os, options: &OpenTerminalOptions) -> (r: Vec<Cmd>)
    ensures
        cmd_views(r@) == terminal_commands(os, opt_view(options.path), options.cwd@),
{
    crate::platform::actions::open_terminal(os, &options.path, options.cwd.as_str())
}

/// Whether the kernel is asked to shut down. The answer to the host is always
/// yes: without a kernel there is nothing to stop, and the host ends itself.
pub fn shutdown(kernel: &Kernel) -> (r: (bool, bool))
    ensures
        r.0 == kernel.alive(),
        r.1,
{
    (is_kernel_running(kernel), true)
}

/// What a restart does.
#[derive(Debug)]
pub enum Restart {
    /// The kernel restarts dsh.
    Kernel,
    /// A detached copy of the hosting process is started.
    Spawn(Cmd),
    /// Nothing: there is no kernel and no command.
    Refused,
}

/// The command of a detached restart.
pub open spec fn restart_command(options: RequestRestartOptions) -> CmdView {
    CmdView {
        program: options.cmd@,
        args: views(options.args@),
        envs: crate::platform::actions::path_env(opt_view(options.path)),
        cwd: match options.cwd {
            Some(cwd) if cwd@.len() > 0 => Some(cwd@),
            _ => None,
        },
    }
}

fn spawn_detached_restart(options: &RequestRestartOptions) -> (r: Cmd)
    ensures
        r@ == restart_command(*options),
{
    let mut cmd = Cmd::new(options.cmd.as_str());
    cmd.args(&options.args);
    if let Some(cwd) = &options.cwd {
        if !cwd.as_str().is_empty() {
            cmd.current_dir(cwd.as_str());
        }
    }
    if let Some(path) = &options.path {
        cmd.env("PATH", path.as_str());
    }
    assert(cmd@ =~= restart_command(*options));
    cmd
}

/// Restarts the supervised dsh: a running kernel does it itself; without one a
/// detached copy of the hosting process is started from the options.
pub fn restart(kernel: &Kernel, options: &Option<RequestRestartOptions>) -> (r: Restart)
    ensures
        match r {
            Restart::Kernel => kernel.alive(),
            Restart::Spawn(cmd) => !kernel.alive() && *options is Some && cmd@ == restart_command(
                options->0,
            ),
            Restart::Refused => !kernel.alive() && *options is None,
        },
{
    if is_kernel_running(kernel) {
        return Restart::Kernel;
    }
    match options {
        Some(options) => Restart::Spawn(spawn_detached_restart(options)),
        None => Restart::Refused,
    }
}

/// The result of starting an embedded terminal, as the host takes it.
pub fn terminal_spawn(id: String, pid: u32, ws_url: String) -> (r: TerminalSpawnResult)
    ensures
        r.id == id,
        r.pid == pid,
        r.ws_url == ws_url,
{
    TerminalSpawnResult { id, pid: pid as i64, ws_url }
}

/// An embedded terminal, as its server keeps it.
#[derive(Debug, Clone)]
pub struct Session {
    pub id: String,
    pub pid: u32,
    pub shell: String,
    pub cwd: String,
    pub started_at_ms: u64,
    pub alive: bool,
}

/// Whether a terminal is reported as it is.
pub open spec fn reports(r: TerminalSessionInfo, s: Session) -> bool {
    &&& r.id@ == s.id@
    &&& r.pid == s.pid
    &&& r.shell@ == s.shell@
    &&& r.cwd@ == s.cwd@
    &&& r.started_at_ms == s.started_at_ms as i64
    &&& r.alive == s.alive
}

/// The embedded terminals, as the host takes them.
pub fn terminal_list(sessions: &Vec<Session>) -> (r: Vec<TerminalSessionInfo>)
    ensures
        r@.len() == sessions@.len(),
        forall|i: int| 0 <= i < r@.len() ==> reports(#[trigger] r@[i], sessions@[i]),
{
    let mut out: Vec<TerminalSessionInfo> = Vec::new();
    let mut i: usize = 0;
    while i < sessions.len()
        invariant
            0 <= i <= sessions@.len(),
            out@.len() == i,
            forall|j: int| 0 <= j < i ==> reports(#[trigger] out@[j], sessions@[j]),
        decreases sessions@.len() - i,
    {
        let s = &sessions[i];
        out.push(
            TerminalSessionInfo {
                id: s.id.clone(),
                pid: s.pid as i64,
                shell: s.shell.clone(),
                cwd: s.cwd.clone(),
                started_at_ms: s.started_at_ms as i64,
                alive: s.alive,
            },
        );
        i += 1;
    }
    out
}

/// The server of the embedded terminals, as the host takes it.
pub fn terminal_ws_endpoint(host: String, port: u16, token: String, url_prefix: String) -> (r:
    TerminalServerInfo)
    ensures
        r.host == host,
        r.port == port,
        r.token == token,
        r.url_prefix == url_prefix,
{
    TerminalServerInfo { host, port: port as i64, token, url_prefix }
}

// ---- laws ----------------------------------------------------------------

/// A setting of a launch means what it says; one that is left out keeps the
/// lock, and leaves the logging, the control plane and the signal handler off.
pub proof fn settings_mean_what_they_say(o: LaunchOptions, value: bool, default: bool)
    ensures
        setting(Some(value), default) == value,
        setting(None, default) == default,
        options_of(Some(o)).config == opt_view(o.config),
        options_of(Some(o)).debug == (o.debug == Some(true)),
        options_of(Some(o)).enable_single_instance == (o.enable_single_instance != Some(false)),
        options_of(Some(o)).enable_control_pipe == (o.enable_control_pipe == Some(true)),
        options_of(Some(o)).install_signal_handler == (o.install_signal_handler == Some(true)),
        options_of(None) == (OptionsView {
            config: None,
            debug: false,
            enable_single_instance: true,
            enable_control_pipe: false,
            install_signal_handler: false,
        }),
{
}

/// A detached restart runs the command of the host with its arguments, in its
/// directory where one is named, and with its `PATH` where one is given.
pub proof fn a_restart_runs_the_command_of_the_host(o: RequestRestartOptions)
    ensures
        restart_command(o).program == o.cmd@,
        restart_command(o).args == views(o.args@),
        o.cwd is None ==> restart_command(o).cwd is None,
        o.cwd is Some && o.cwd->0@.len() == 0 ==> restart_command(o).cwd is None,
        o.cwd is Some && o.cwd->0@.len() > 0 ==> restart_command(o).cwd == Some(o.cwd->0@),
        o.path is None ==> restart_command(o).envs.len() == 0,
        o.path is Some ==> restart_command(o).envs == seq![("PATH"@, o.path->0@)],
{
}

} // verus!
