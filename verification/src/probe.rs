//! Detection of the tools dshl cares about: existence, path and version.

use vstd::prelude::*;
use vstd::string::*;
use crate::platform::paths::{
    choose_first, first_chosen, home_dir, join, path_in, path_in2, the_first_runnable_path_is_found,
    which_in, Host, HostView,
};
use crate::platform::Os;
use crate::process::command::{plain, Cmd};
use crate::process::CommandResult;
use crate::text::{is_digit, opt_view, trim, trimmed, views};
use crate::version::{
    full_text, is_ident_char, is_version, read_core, versions_are_found_in_output, FullVersionView,
    Version,
};

verus! {

/// A detected tool.
#[derive(Debug, Clone)]
pub struct Tool {
    pub name: &'static str,
    pub found: bool,
    pub path: Option<String>,
    pub version: Option<Version>,
    /// Raw version string as printed by the tool.
    pub raw: String,
}

/// A tool as plain texts.
pub struct ToolView {
    pub name: Seq<char>,
    pub found: bool,
    pub path: Option<Seq<char>>,
    pub version: Option<Version>,
    pub raw: Seq<char>,
}

impl View for Tool {
    type V = ToolView;

    open spec fn view(&self) -> ToolView {
        ToolView {
            name: self.name@,
            found: self.found,
            path: opt_view(self.path),
            version: self.version,
            raw: self.raw@,
        }
    }
}

/// What a run of a tool printed, without the white space around it: stdout,
/// then stderr.
pub open spec fn printed(run: CommandResult) -> Seq<char> {
    trimmed(run.stdout@) + trimmed(run.stderr@)
}

impl ToolView {
    /// A tool that is not there.
    pub open spec fn missing(name: Seq<char>) -> ToolView {
        ToolView { name, found: false, path: None, version: None, raw: seq![] }
    }

    /// A tool that printed `raw` when it was asked for its version.
    pub open spec fn found(name: Seq<char>, path: Seq<char>, raw: Seq<char>) -> ToolView {
        ToolView { name, found: true, path: Some(path), version: read_core(raw), raw }
    }

    /// A tool that is there but could not be asked for its version.
    pub open spec fn silent(name: Seq<char>, path: Seq<char>) -> ToolView {
        ToolView { name, found: true, path: Some(path), version: None, raw: seq![] }
    }

    /// A tool at a path, if there is one, and with what it printed, if it
    /// could be run.
    pub open spec fn probed(
        name: Seq<char>,
        path: Option<Seq<char>>,
        raw: Option<Seq<char>>,
    ) -> ToolView {
        match path {
            None => ToolView::missing(name),
            Some(path) => match raw {
                Some(raw) => ToolView::found(name, path, raw),
                None => ToolView::silent(name, path),
            },
        }
    }
}

impl Tool {
    fn missing(name: &'static str) -> (r: Tool)
        ensures
            r@ == ToolView::missing(name@),
    {
        Tool { name, found: false, path: None, version: None, raw: String::new() }
    }

    fn found(name: &'static str, path: String, raw: String) -> (r: Tool)
        ensures
            r@ == ToolView::found(name@, path@, raw@),
    {
        let version = Version::parse(raw.as_str());
        Tool { name, found: true, path: Some(path), version, raw }
    }

    fn silent(name: &'static str, path: String) -> (r: Tool)
        ensures
            r@ == ToolView::silent(name@, path@),
    {
        Tool { name, found: true, path: Some(path), version: None, raw: String::new() }
    }
}

fn printed_text(run: &CommandResult) -> (r: String)
    ensures
        r@ == printed(*run),
{
    trim(run.stdout.as_str()).concat(trim(run.stderr.as_str()).as_str())
}

pub open spec fn run_text(run: Option<CommandResult>) -> Option<Seq<char>> {
    match run {
        Some(run) => Some(printed(run)),
        None => None,
    }
}

/// The command that asks the tool at `path` for its version.
pub fn version_command(path: &str) -> (r: Cmd)
    ensures
        r@ == plain(path@, seq!["--version"@]),
{
    let mut c = Cmd::new(path);
    c.arg("--version");
    assert(c@ =~= plain(path@, seq!["--version"@]));
    c
}

/// The tool `name`, looked for in `extra_dirs` first: `runnable` tells which of
/// the paths of the lookup are executable files, and `run` what came of the
/// [`version_command`] on the one found.
pub fn probe_cmd_in(
    name: &'static str,
    host: &Host,
    extra_dirs: &Vec<String>,
    runnable: &Vec<bool>,
    run: Option<CommandResult>,
) -> (r: Tool)
    ensures
        r@ == ToolView::probed(
            name@,
            first_chosen(host@.which_paths(name@, views(extra_dirs@)), runnable@),
            run_text(run),
        ),
{
    match which_in(host, name, extra_dirs, runnable) {
        None => Tool::missing(name),
        Some(path) => match run {
            Some(run) => Tool::found(name, path, printed_text(&run)),
            None => Tool::silent(name, path),
        },
    }
}

/// The tool `name` in the normal locations.
pub open spec fn probe_of(
    name: Seq<char>,
    host: HostView,
    runnable: Seq<bool>,
    run: Option<CommandResult>,
) -> ToolView {
    ToolView::probed(
        name,
        first_chosen(host.which_paths(name, seq![]), runnable),
        run_text(run),
    )
}

fn probe_cmd(name: &'static str, host: &Host, runnable: &Vec<bool>, run: Option<CommandResult>)
    -> (r: Tool)
    ensures
        r@ == probe_of(name@, host@, runnable@, run),
{
    let none: Vec<String> = Vec::new();
    assert(views(none@) =~= seq![]);
    probe_cmd_in(name, host, &none, runnable, run)
}

pub fn node(host: &Host, runnable: &Vec<bool>, run: Option<CommandResult>) -> (r: Tool)
    ensures
        r@ == probe_of("node"@, host@, runnable@, run),
{
    probe_cmd("node", host, runnable, run)
}

pub fn bun(host: &Host, runnable: &Vec<bool>, run: Option<CommandResult>) -> (r: Tool)
    ensures
        r@ == probe_of("bun"@, host@, runnable@, run),
{
    probe_cmd("bun", host, runnable, run)
}

pub fn pnpm(host: &Host, runnable: &Vec<bool>, run: Option<CommandResult>) -> (r: Tool)
    ensures
        r@ == probe_of("pnpm"@, host@, runnable@, run),
{
    probe_cmd("pnpm", host, runnable, run)
}

pub fn fnm(host: &Host, runnable: &Vec<bool>, run: Option<CommandResult>) -> (r: Tool)
    ensures
        r@ == probe_of("fnm"@, host@, runnable@, run),
{
    probe_cmd("fnm", host, runnable, run)
}

pub fn cargo(host: &Host, runnable: &Vec<bool>, run: Option<CommandResult>) -> (r: Tool)
    ensures
        r@ == probe_of("cargo"@, host@, runnable@, run),
{
    probe_cmd("cargo", host, runnable, run)
}

pub fn dsh(host: &Host, runnable: &Vec<bool>, run: Option<CommandResult>) -> (r: Tool)
    ensures
        r@ == probe_of("dsh"@, host@, runnable@, run),
{
    probe_cmd("dsh", host, runnable, run)
}

/// Probe `dsh` searching `extra_dirs` first (the runtime prefix: fnm's node
/// bin, pnpm's global bin, ...), so a just-installed dsh is found even when
/// its directory is not on the ambient `PATH`.
pub fn dsh_in(
    host: &Host,
    extra_dirs: &Vec<String>,
    runnable: &Vec<bool>,
    run: Option<CommandResult>,
) -> (r: Tool)
    ensures
        r@ == ToolView::probed(
            "dsh"@,
            first_chosen(host@.which_paths("dsh"@, views(extra_dirs@)), runnable@),
            run_text(run),
        ),
{
    probe_cmd_in("dsh", host, extra_dirs, runnable, run)
}

// ---- nvm -----------------------------------------------------------------

/// The command that asks nvm for its version: nvm-windows has a subcommand
/// for it.
pub fn nvm_version_command(os: Os, path: &str) -> (r: Cmd)
    ensures
        r@ == plain(
            path@,
            seq![
                if os == Os::Windows {
                    "version"@
                } else {
                    "--version"@
                },
            ],
        ),
{
    if os == Os::Windows {
        let mut c = Cmd::new(path);
        c.arg("version");
        assert(c@ =~= plain(path@, seq!["version"@]));
        c
    } else {
        version_command(path)
    }
}

/// The places of the script that holds nvm's shell function: in the home
/// directory, and where `NVM_DIR` says. Without a home there is none.
pub open spec fn nvm_scripts_of(host: HostView, nvm_dir: Option<Seq<char>>) -> Seq<Seq<char>> {
    match host.home_dir() {
        None => seq![],
        Some(home) => seq![path_in2(host.os, home, ".nvm"@, "nvm.sh"@)] + (match nvm_dir {
            Some(dir) => seq![path_in(host.os, dir, "nvm.sh"@)],
            None => seq![],
        }),
    }
}

/// The places of the script that holds nvm's shell function.
pub fn nvm_scripts(host: &Host, nvm_dir: &Option<String>) -> (r: Vec<String>)
    ensures
        views(r@) == nvm_scripts_of(host@, opt_view(*nvm_dir)),
{
    let mut list: Vec<String> = Vec::new();
    if let Some(home) = home_dir(host) {
        list.push(join(host.os, join(host.os, home.as_str(), ".nvm").as_str(), "nvm.sh"));
        if let Some(dir) = nvm_dir {
            list.push(join(host.os, dir.as_str(), "nvm.sh"));
        }
    }
    assert(views(list@) =~= nvm_scripts_of(host@, opt_view(*nvm_dir)));
    list
}

pub open spec fn nvm_of(
    host: HostView,
    nvm_dir: Option<Seq<char>>,
    scripts: Seq<bool>,
    runnable: Seq<bool>,
    run: Option<CommandResult>,
) -> ToolView {
    let path = first_chosen(host.which_paths("nvm"@, seq![]), runnable);
    if host.os == Os::Windows {
        ToolView::probed(
            "nvm"@,
            path,
            match run {
                Some(run) => Some(trimmed(run.stdout@)),
                None => None,
            },
        )
    } else {
        match first_chosen(nvm_scripts_of(host, nvm_dir), scripts) {
            Some(script) => ToolView {
                name: "nvm"@,
                found: true,
                path: Some(script),
                version: None,
                raw: "shell function"@,
            },
            None => ToolView::probed("nvm"@, path, run_text(run)),
        }
    }
}

/// nvm needs special handling: it is a shell function on Unix and a binary
/// (nvm-windows) on Windows. `scripts` tells which of the [`nvm_scripts`] are
/// files. In rare cases there is a real `nvm` binary on Unix, too.
pub fn nvm(
    host: &Host,
    nvm_dir: &Option<String>,
    scripts: &Vec<bool>,
    runnable: &Vec<bool>,
    run: Option<CommandResult>,
) -> (r: Tool)
    ensures
        r@ == nvm_of(host@, opt_view(*nvm_dir), scripts@, runnable@, run),
{
    if host.os == Os::Windows {
        let none: Vec<String> = Vec::new();
        assert(views(none@) =~= seq![]);
        return match which_in(host, "nvm", &none, runnable) {
            None => Tool::missing("nvm"),
            Some(path) => match run {
                Some(run) => Tool::found("nvm", path, trim(run.stdout.as_str())),
                None => Tool::silent("nvm", path),
            },
        };
    }
    let list = nvm_scripts(host, nvm_dir);
    match choose_first(&list, scripts) {
        Some(script) => Tool {
            name: "nvm",
            found: true,
            path: Some(script),
            version: None,
            raw: "shell function".to_owned(),
        },
        None => probe_cmd("nvm", host, runnable, run),
    }
}

// ---- laws ----------------------------------------------------------------

/// A tool has the version that it prints, on stdout or on stderr, whatever
/// words stand around it.
pub proof fn a_tool_has_the_version_that_it_prints(
    name: Seq<char>,
    path: Seq<char>,
    run: CommandResult,
    before: Seq<char>,
    v: FullVersionView,
    after: Seq<char>,
)
    requires
        is_version(v),
        forall|j: int| 0 <= j < before.len() ==> !is_digit(#[trigger] before[j]),
        after.len() > 0 ==> !is_ident_char(after[0]) && after[0] != '.',
        ({
            let text = before + (full_text(v) + after);
            ||| trimmed(run.stdout@) == text && trimmed(run.stderr@).len() == 0
            ||| trimmed(run.stderr@) == text && trimmed(run.stdout@).len() == 0
        }),
    ensures
        ({
            let tool = ToolView::probed(name, Some(path), run_text(Some(run)));
            &&& tool.found
            &&& tool.version == Some(v.core)
            &&& tool.path == Some(path)
            &&& tool.name == name
            &&& tool.raw == before + (full_text(v) + after)
        }),
{
    let text = before + (full_text(v) + after);
    versions_are_found_in_output(before, v, after);
    if trimmed(run.stdout@) == text && trimmed(run.stderr@).len() == 0 {
        assert(printed(run) =~= text);
    } else {
        assert(printed(run) =~= text);
    }
}

/// A tool without a path is not there, whatever a run printed; one with a path
/// is there, even where it cannot be run.
pub proof fn a_tool_is_there_where_it_has_a_path(
    name: Seq<char>,
    path: Seq<char>,
    raw: Option<Seq<char>>,
)
    ensures
        !ToolView::probed(name, None, raw).found,
        ToolView::probed(name, None, raw).path is None,
        ToolView::probed(name, None, raw).version is None,
        ToolView::probed(name, None, raw).raw.len() == 0,
        ToolView::probed(name, Some(path), raw).found,
        ToolView::probed(name, Some(path), raw).path == Some(path),
        ToolView::probed(name, Some(path), None).version is None,
        ToolView::probed(name, Some(path), None).raw.len() == 0,
        raw is Some ==> ToolView::probed(name, Some(path), raw).raw == raw->0,
        ToolView::probed(name, Some(path), raw).name == name,
        ToolView::probed(name, None, raw).name == name,
{
}

/// A tool is found at the first of its paths that can be run.
pub proof fn a_tool_is_found_at_its_first_path(
    name: Seq<char>,
    host: HostView,
    runnable: Seq<bool>,
    run: Option<CommandResult>,
    i: int,
)
    requires
        runnable.len() == host.which_paths(name, seq![]).len(),
        0 <= i < runnable.len(),
    ensures
        runnable[i] ==> probe_of(name, host, runnable, run).found,
        runnable[i] && (forall|j: int| 0 <= j < i ==> !#[trigger] runnable[j]) ==> probe_of(
            name,
            host,
            runnable,
            run,
        ).path == Some(host.which_paths(name, seq![])[i]),
        (forall|j: int| 0 <= j < runnable.len() ==> !#[trigger] runnable[j]) ==> !probe_of(
            name,
            host,
            runnable,
            run,
        ).found,
{
    the_first_runnable_path_is_found(host.which_paths(name, seq![]), runnable, i);
}

/// On Unix the script of nvm is taken before any executable, the one in the
/// home directory before the one that is named; on Windows only the executable
/// counts.
pub proof fn the_script_of_nvm_is_taken_first(
    host: HostView,
    nvm_dir: Option<Seq<char>>,
    scripts: Seq<bool>,
    runnable: Seq<bool>,
    run: Option<CommandResult>,
)
    requires
        scripts.len() == nvm_scripts_of(host, nvm_dir).len(),
    ensures
        host.os != Os::Windows && scripts.len() > 0 && scripts[0] ==> {
            let nvm = nvm_of(host, nvm_dir, scripts, runnable, run);
            &&& nvm.found
            &&& nvm.path == Some(path_in2(host.os, host.home_dir()->0, ".nvm"@, "nvm.sh"@))
            &&& nvm.version is None
        },
        host.os != Os::Windows && scripts.len() == 2 && !scripts[0] && scripts[1] ==> {
            let nvm = nvm_of(host, nvm_dir, scripts, runnable, run);
            &&& nvm.found
            &&& nvm.path == Some(path_in(host.os, nvm_dir->0, "nvm.sh"@))
        },
        host.os != Os::Windows && (forall|j: int|
            0 <= j < scripts.len() ==> !#[trigger] scripts[j]) ==> nvm_of(
            host,
            nvm_dir,
            scripts,
            runnable,
            run,
        ) == probe_of("nvm"@, host, runnable, run),
        host.os == Os::Windows ==> {
            let nvm = nvm_of(host, nvm_dir, scripts, runnable, run);
            &&& nvm.path == first_chosen(host.which_paths("nvm"@, seq![]), runnable)
            &&& nvm.found <==> nvm.path is Some
            &&& nvm.found && run is Some ==> nvm.raw == trimmed(run->0.stdout@)
        },
        host.home_dir() is None ==> scripts.len() == 0,
        host.home_dir() is Some ==> scripts.len() == (if nvm_dir is Some {
            2int
        } else {
            1
        }),
{
    let list = nvm_scripts_of(host, nvm_dir);
    if scripts.len() > 0 {
        the_first_runnable_path_is_found(list, scripts, 0);
        if scripts.len() == 2 {
            the_first_runnable_path_is_found(list, scripts, 1);
        }
    }
}

} // verus!
