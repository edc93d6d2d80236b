//! Node.js: when the one that is there will do, and the chain of ways to
//! install one.
//!
//! Node is always required: dsh runs on it whatever the package manager. The
//! chain is: existing fnm, `cargo install fnm`, nvm, best-effort fnm
//! auto-install into `~/.cache/bin`, and last the advice to install fnm
//! manually.

use vstd::prelude::*;
use vstd::string::*;
use super::download::{
    a_snippet_is_one_argument, an_archive_is_fetched_unpacked_and_removed, download_zip,
    each_system_has_its_own_fnm, fnm_asset, fnm_target, fnm_url, proxied, run_snippet, snippet,
    zip_script,
};
use crate::config::MirrorMode;
use crate::message::{note, note1, note2, notes, Message, MessageView};
use crate::mirror::{MirrorConfig, MirrorView};
use crate::platform::detect::os_text;
use crate::platform::path::{
    is_name, is_plain_dir, parent_of_a_found_file_is_its_directory, unix_paths_are_joined_by_one_slash,
};
use crate::platform::paths::{
    dir_of, ext_text, or_empty, parent, path_in, path_in2, path_in3, with_ext, Host, HostView,
};
use crate::platform::{bin_dir, home_dir, join, Os};
use crate::probe::Tool;
use crate::process::command::{plain, with_env, Cmd, CmdView};
use crate::text::{opt_view, split_on, views};
use crate::version::{core_less, Version};

verus! {

/// Minimum Node.js version required by dsh.
pub open spec fn node_min_version() -> Version {
    Version { major: 24, minor: 15, patch: 0 }
}

/// Minimum Node.js version required by dsh.
pub fn node_min() -> (r: Version)
    ensures
        r == node_min_version(),
{
    Version::new(24, 15, 0)
}

/// Node.js major version to install when missing.
pub const NODE_INSTALL_VERSION: &'static str = "26";

/// fnm manual-install guide shown when every fallback fails.
pub const FNM_GUIDE_URL: &'static str = "https://www.fnmnode.com/zh-cn/guide/install";

// ---- the node that is there ----------------------------------------------

/// What to make of the node that was found.
pub open spec fn usable_dir(os: Os, node: Tool) -> Option<Seq<char>> {
    if node.found && node.version is Some && !core_less(node.version->0, node_min_version())
        && node.path is Some {
        dir_of(os, node.path->0@)
    } else {
        None
    }
}

/// What is said about the node that was found.
pub open spec fn node_notes(os: Os, node: Tool) -> Seq<MessageView> {
    let min = node_min_version().text();
    if !node.found {
        seq![note("install.node.not_found"@)]
    } else if node.version is None {
        seq![note("install.node.unparsable"@)]
    } else if core_less(node.version->0, node_min_version()) {
        seq![
            MessageView {
                key: "install.node.too_old"@,
                args: seq![
                    ("v"@, node.version->0.text()),
                    ("min"@, min),
                    ("install"@, NODE_INSTALL_VERSION@),
                ],
            },
        ]
    } else if usable_dir(os, node) is Some {
        seq![note2("install.node.satisfies"@, "v"@, node.version->0.text(), "min"@, min)]
    } else {
        seq![]
    }
}

/// The directory of the node that was found, if it is recent enough to be
/// used; and what is said about it. Without one, node has to be installed.
pub fn ensure_node(os: Os, node: &Tool) -> (r: (Option<String>, Vec<Message>))
    ensures
        opt_view(r.0) == usable_dir(os, *node),
        notes(r.1@) == node_notes(os, *node),
{
    let mut said: Vec<Message> = Vec::new();
    let mut dir: Option<String> = None;
    if !node.found {
        said.push(Message::new("install.node.not_found"));
    } else {
        match node.version {
            None => {
                said.push(Message::new("install.node.unparsable"));
            },
            Some(v) => {
                let min = node_min().to_text();
                if v.at_least(&node_min()) {
                    if let Some(path) = &node.path {
                        dir = parent(os, path.as_str());
                    }
                    if dir.is_some() {
                        said.push(
                            Message::with2(
                                "install.node.satisfies",
                                "v",
                                v.to_text().as_str(),
                                "min",
                                min.as_str(),
                            ),
                        );
                    }
                } else {
                    let m = Message::with2(
                        "install.node.too_old",
                        "v",
                        v.to_text().as_str(),
                        "min",
                        min.as_str(),
                    ).with("install", NODE_INSTALL_VERSION);
                    said.push(m);
                }
            },
        }
    }
    assert(notes(said@) =~= node_notes(os, *node)) by {
        if said@.len() == 1 {
            assert(notes(said@)[0] == said@[0]@);
            assert(node_notes(os, *node).len() == 1);
            assert(said@[0]@ =~= node_notes(os, *node)[0]);
        }
    }
    (dir, said)
}

// ---- the chain -----------------------------------------------------------

/// Where the installation of node stands.
#[derive(Debug, Clone, Copy, PartialEq, Eq, Structural)]
pub enum NodeStage {
    WhichFnm,
    FnmInstall,
    FnmFind,
    ProbeCargo,
    CargoInstall,
    CargoFile,
    CargoWhich,
    CargoFnmInstall,
    CargoFnmFind,
    ProbeNvm,
    NvmInstall,
    NvmUse,
    NvmFind,
    MakeBin,
    Download,
    Locate,
    LocateTarget,
    Copy,
    AutoInstall,
    AutoFind,
    Done,
    Fatal,
}

/// What is to be done at a stage.
#[derive(Debug)]
pub enum NodeRequest {
    /// Look for this executable; the answer's text is its path.
    Which(&'static str),
    /// Look for cargo.
    ProbeCargo,
    /// Look for nvm; the answer's text is its path, or empty.
    ProbeNvm,
    /// Run this command under this label, its output going to the log.
    Run(Cmd, &'static str),
    /// Search these roots for a node executable; the answer's text is the
    /// directory that holds it.
    FindNode(Vec<String>),
    /// Is this a file?
    IsFile(String),
    /// Create this directory.
    MakeDir(String),
    /// Search this directory for a file of this name; the answer's text is its
    /// path.
    Locate(String, String),
    /// Copy the first file to the second, unless they are the same, and make
    /// the second executable.
    Copy(String, String),
    /// Node is in this directory.
    Done(String),
    /// Node cannot be installed.
    Fatal(Message),
}

/// The outcome of a request: whether it went well, and its text (a path, or an
/// error).
#[derive(Debug)]
pub struct Answer {
    pub yes: bool,
    pub text: String,
}

/// The installation of node.
#[derive(Debug)]
pub struct NodeInstall {
    pub stage: NodeStage,
    /// The path that the last stages found.
    pub path: String,
}

/// The stage that follows on an outcome.
pub open spec fn next_stage(
    stage: NodeStage,
    yes: bool,
    has_home: bool,
    windows: bool,
) -> NodeStage {
    match stage {
        NodeStage::WhichFnm => if yes {
            NodeStage::FnmInstall
        } else {
            NodeStage::ProbeCargo
        },
        NodeStage::FnmInstall => if yes {
            NodeStage::FnmFind
        } else {
            NodeStage::ProbeCargo
        },
        NodeStage::FnmFind => if yes {
            NodeStage::Done
        } else {
            NodeStage::ProbeCargo
        },
        NodeStage::ProbeCargo => if yes {
            NodeStage::CargoInstall
        } else {
            NodeStage::ProbeNvm
        },
        NodeStage::CargoInstall => if !yes {
            NodeStage::ProbeNvm
        } else if has_home {
            NodeStage::CargoFile
        } else {
            NodeStage::CargoWhich
        },
        NodeStage::CargoFile => if yes {
            NodeStage::CargoFnmInstall
        } else {
            NodeStage::CargoWhich
        },
        NodeStage::CargoWhich => if yes {
            NodeStage::CargoFnmInstall
        } else {
            NodeStage::ProbeNvm
        },
        NodeStage::CargoFnmInstall => if yes {
            NodeStage::CargoFnmFind
        } else {
            NodeStage::ProbeNvm
        },
        NodeStage::CargoFnmFind => if yes {
            NodeStage::Done
        } else {
            NodeStage::ProbeNvm
        },
        NodeStage::ProbeNvm => if yes {
            NodeStage::NvmInstall
        } else {
            NodeStage::MakeBin
        },
        NodeStage::NvmInstall => if !yes {
            NodeStage::MakeBin
        } else if windows {
            NodeStage::NvmUse
        } else {
            NodeStage::NvmFind
        },
        NodeStage::NvmUse => if yes {
            NodeStage::NvmFind
        } else {
            NodeStage::MakeBin
        },
        NodeStage::NvmFind => if yes {
            NodeStage::Done
        } else {
            NodeStage::MakeBin
        },
        NodeStage::MakeBin => if yes {
            NodeStage::Download
        } else {
            NodeStage::Fatal
        },
        NodeStage::Download => if yes {
            NodeStage::Locate
        } else {
            NodeStage::Fatal
        },
        NodeStage::Locate => if yes {
            NodeStage::Copy
        } else {
            NodeStage::LocateTarget
        },
        NodeStage::LocateTarget => if yes {
            NodeStage::Copy
        } else {
            NodeStage::Fatal
        },
        NodeStage::Copy => if yes {
            NodeStage::AutoInstall
        } else {
            NodeStage::Fatal
        },
        NodeStage::AutoInstall => if yes {
            NodeStage::AutoFind
        } else {
            NodeStage::Fatal
        },
        NodeStage::AutoFind => if yes {
            NodeStage::Done
        } else {
            NodeStage::Fatal
        },
        NodeStage::Done => NodeStage::Done,
        NodeStage::Fatal => NodeStage::Fatal,
    }
}

/// Where cargo puts fnm.
pub open spec fn cargo_fnm(host: HostView) -> Seq<char> {
    path_in3(
        host.os,
        or_empty(host.home_dir()),
        ".cargo"@,
        "bin"@,
        "fnm"@ + ext_text(host.os),
    )
}

/// Where the downloaded fnm belongs.
pub open spec fn bin_fnm(host: HostView) -> Seq<char> {
    path_in(host.os, host.bin_dir(), "fnm"@ + ext_text(host.os))
}

/// The path that is kept after an outcome.
pub open spec fn next_path(
    stage: NodeStage,
    path: Seq<char>,
    yes: bool,
    text: Seq<char>,
    host: HostView,
) -> Seq<char> {
    if !yes {
        path
    } else {
        match stage {
            NodeStage::WhichFnm
            | NodeStage::FnmFind
            | NodeStage::CargoWhich
            | NodeStage::CargoFnmFind
            | NodeStage::ProbeNvm
            | NodeStage::NvmFind
            | NodeStage::Locate
            | NodeStage::LocateTarget
            | NodeStage::AutoFind => text,
            NodeStage::CargoFile => cargo_fnm(host),
            NodeStage::Copy => bin_fnm(host),
            _ => path,
        }
    }
}

/// What is said on an outcome.
pub open spec fn stage_notes(
    stage: NodeStage,
    yes: bool,
    text: Seq<char>,
    host: HostView,
) -> Seq<MessageView> {
    match stage {
        NodeStage::WhichFnm => if yes {
            seq![note1("install.node.using_fnm"@, "path"@, text)]
        } else {
            seq![]
        },
        NodeStage::FnmInstall => if yes {
            seq![]
        } else {
            seq![note("install.node.fnm_failed"@)]
        },
        NodeStage::FnmFind => if yes {
            seq![note1("install.node.fnm_done"@, "dir"@, text)]
        } else {
            seq![note("install.node.fnm_failed"@)]
        },
        NodeStage::ProbeCargo => if yes {
            seq![note("install.node.try_cargo"@)]
        } else {
            seq![]
        },
        NodeStage::CargoInstall => if yes {
            seq![]
        } else {
            seq![note1("install.node.cargo_failed"@, "err"@, text)]
        },
        NodeStage::CargoWhich => if yes {
            seq![]
        } else {
            seq![note1("install.node.cargo_failed"@, "err"@, "install.node.cargo_no_fnm"@)]
        },
        NodeStage::CargoFnmInstall => if yes {
            seq![]
        } else {
            seq![note("install.node.cargo_fnm_node_failed"@)]
        },
        NodeStage::CargoFnmFind => if yes {
            seq![note1("install.node.fnm_done"@, "dir"@, text)]
        } else {
            seq![note("install.node.cargo_fnm_node_failed"@)]
        },
        NodeStage::ProbeNvm => if yes {
            seq![note("install.node.try_nvm"@)]
        } else {
            seq![]
        },
        NodeStage::NvmInstall | NodeStage::NvmUse | NodeStage::NvmFind => if yes {
            seq![]
        } else {
            seq![note("install.node.nvm_failed"@)]
        },
        NodeStage::MakeBin | NodeStage::Download => if yes {
            seq![]
        } else {
            seq![note1("install.node.auto_fnm_failed"@, "err"@, text)]
        },
        NodeStage::LocateTarget => if yes {
            seq![]
        } else {
            seq![note1("install.node.auto_fnm_failed"@, "err"@, "install.download.no_fnm"@)]
        },
        NodeStage::Copy => if yes {
            seq![note1("install.node.auto_fnm_installed"@, "path"@, bin_fnm(host))]
        } else {
            seq![note1("install.node.auto_fnm_failed"@, "err"@, text)]
        },
        NodeStage::AutoFind => if yes {
            seq![note1("install.node.fnm_done"@, "dir"@, text)]
        } else {
            seq![]
        },
        _ => seq![],
    }
}

fn following(stage: NodeStage, yes: bool, has_home: bool, windows: bool) -> (r: NodeStage)
    ensures
        r == next_stage(stage, yes, has_home, windows),
{
    match stage {
        NodeStage::WhichFnm => if yes {
            NodeStage::FnmInstall
        } else {
            NodeStage::ProbeCargo
        },
        NodeStage::FnmInstall => if yes {
            NodeStage::FnmFind
        } else {
            NodeStage::ProbeCargo
        },
        NodeStage::FnmFind => if yes {
            NodeStage::Done
        } else {
            NodeStage::ProbeCargo
        },
        NodeStage::ProbeCargo => if yes {
            NodeStage::CargoInstall
        } else {
            NodeStage::ProbeNvm
        },
        NodeStage::CargoInstall => if !yes {
            NodeStage::ProbeNvm
        } else if has_home {
            NodeStage::CargoFile
        } else {
            NodeStage::CargoWhich
        },
        NodeStage::CargoFile => if yes {
            NodeStage::CargoFnmInstall
        } else {
            NodeStage::CargoWhich
        },
        NodeStage::CargoWhich => if yes {
            NodeStage::CargoFnmInstall
        } else {
            NodeStage::ProbeNvm
        },
        NodeStage::CargoFnmInstall => if yes {
            NodeStage::CargoFnmFind
        } else {
            NodeStage::ProbeNvm
        },
        NodeStage::CargoFnmFind => if yes {
            NodeStage::Done
        } else {
            NodeStage::ProbeNvm
        },
        NodeStage::ProbeNvm => if yes {
            NodeStage::NvmInstall
        } else {
            NodeStage::MakeBin
        },
        NodeStage::NvmInstall => if !yes {
            NodeStage::MakeBin
        } else if windows {
            NodeStage::NvmUse
        } else {
            NodeStage::NvmFind
        },
        NodeStage::NvmUse => if yes {
            NodeStage::NvmFind
        } else {
            NodeStage::MakeBin
        },
        NodeStage::NvmFind => if yes {
            NodeStage::Done
        } else {
            NodeStage::MakeBin
        },
        NodeStage::MakeBin => if yes {
            NodeStage::Download
        } else {
            NodeStage::Fatal
        },
        NodeStage::Download => if yes {
            NodeStage::Locate
        } else {
            NodeStage::Fatal
        },
        NodeStage::Locate => if yes {
            NodeStage::Copy
        } else {
            NodeStage::LocateTarget
        },
        NodeStage::LocateTarget => if yes {
            NodeStage::Copy
        } else {
            NodeStage::Fatal
        },
        NodeStage::Copy => if yes {
            NodeStage::AutoInstall
        } else {
            NodeStage::Fatal
        },
        NodeStage::AutoInstall => if yes {
            NodeStage::AutoFind
        } else {
            NodeStage::Fatal
        },
        NodeStage::AutoFind => if yes {
            NodeStage::Done
        } else {
            NodeStage::Fatal
        },
        NodeStage::Done => NodeStage::Done,
        NodeStage::Fatal => NodeStage::Fatal,
    }
}

/// The directories below which fnm and nvm install node.
pub open spec fn node_roots(host: HostView) -> Seq<Seq<char>> {
    (match host.home_dir() {
        Some(home) => seq![
            path_in2(host.os, home, ".fnm"@, "node-versions"@),
            path_in3(host.os, home, ".nvm"@, "versions"@, "node"@),
        ],
        None => seq![],
    }) + (match host.appdata {
        Some(appdata) => seq![
            path_in2(host.os, appdata, "fnm"@, "node-versions"@),
            path_in(host.os, appdata, "nvm"@),
        ],
        None => seq![],
    })
}

/// The directories below which fnm and nvm install node.
pub fn find_node_roots(host: &Host) -> (r: Vec<String>)
    ensures
        views(r@) == node_roots(host@),
{
    let os = host.os;
    let mut roots: Vec<String> = Vec::new();
    if let Some(home) = home_dir(host) {
        let h = home.as_str();
        roots.push(join(os, join(os, h, ".fnm").as_str(), "node-versions"));
        roots.push(join(os, join(os, join(os, h, ".nvm").as_str(), "versions").as_str(), "node"));
    }
    if let Some(appdata) = &host.appdata {
        roots.push(join(os, join(os, appdata.as_str(), "fnm").as_str(), "node-versions"));
        roots.push(join(os, appdata.as_str(), "nvm"));
    }
    assert(views(roots@) =~= node_roots(host@));
    roots
}

/// `fnm install 26`, with the mirror for node.
pub open spec fn fnm_install(fnm: Seq<char>, mirror: MirrorView) -> CmdView {
    CmdView {
        envs: mirror.fnm_env(),
        ..plain(fnm, seq!["install"@, NODE_INSTALL_VERSION@])
    }
}

fn fnm_install_command(fnm: &str, mirror: &MirrorConfig) -> (r: Cmd)
    ensures
        r@ == fnm_install(fnm@, mirror@),
{
    let mut c = Cmd::new(fnm);
    c.arg("install");
    c.arg(NODE_INSTALL_VERSION);
    with_env(&mut c, &mirror.fnm_env());
    assert(c@ =~= fnm_install(fnm@, mirror@));
    c
}

/// `cargo install fnm`, with the mirror for cargo.
pub open spec fn cargo_install(mirror: MirrorView) -> CmdView {
    CmdView { envs: mirror.cargo_env(), ..plain("cargo"@, seq!["install"@, "fnm"@]) }
}

fn cargo_install_command(mirror: &MirrorConfig) -> (r: Cmd)
    ensures
        r@ == cargo_install(mirror@),
{
    let mut c = Cmd::new("cargo");
    c.arg("install");
    c.arg("fnm");
    with_env(&mut c, &mirror.cargo_env());
    assert(c@ =~= cargo_install(mirror@));
    c
}

/// The script that holds nvm: the one found, or the one in its usual place.
pub open spec fn nvm_script(found: Seq<char>, host: HostView) -> Seq<char> {
    if found.len() == 0 {
        path_in2(host.os, or_empty(host.home_dir()), ".nvm"@, "nvm.sh"@)
    } else {
        found
    }
}

/// The installation of node through nvm, with the mirror for node: a binary on
/// Windows, elsewhere a shell function whose script is sourced first.
pub open spec fn nvm_install(found: Seq<char>, host: HostView, mirror: MirrorView) -> CmdView {
    if host.os == Os::Windows {
        CmdView {
            envs: mirror.nvm_env(),
            ..plain("nvm"@, seq!["install"@, NODE_INSTALL_VERSION@])
        }
    } else {
        CmdView {
            envs: mirror.nvm_env(),
            ..snippet(
                host.os,
                "source '"@ + nvm_script(found, host) + "' >/dev/null 2>&1 && nvm install "@
                    + NODE_INSTALL_VERSION@ + " && nvm use "@ + NODE_INSTALL_VERSION@,
            )
        }
    }
}

fn nvm_install_command(found: &str, host: &Host, mirror: &MirrorConfig) -> (r: Cmd)
    ensures
        r@ == nvm_install(found@, host@, mirror@),
{
    let mut c = if host.os == Os::Windows {
        let mut c = Cmd::new("nvm");
        c.arg("install");
        c.arg(NODE_INSTALL_VERSION);
        assert(c@ =~= plain("nvm"@, seq!["install"@, NODE_INSTALL_VERSION@]));
        c
    } else {
        let script = if found.is_empty() {
            let home = match home_dir(host) {
                Some(h) => h,
                None => String::new(),
            };
            assert(home@ =~= or_empty(host@.home_dir()));
            join(host.os, join(host.os, home.as_str(), ".nvm").as_str(), "nvm.sh")
        } else {
            found.to_owned()
        };
        let mut s = "source '".to_owned();
        s.append(script.as_str());
        s.append("' >/dev/null 2>&1 && nvm install ");
        s.append(NODE_INSTALL_VERSION);
        s.append(" && nvm use ");
        s.append(NODE_INSTALL_VERSION);
        run_snippet(host.os, s.as_str())
    };
    with_env(&mut c, &mirror.nvm_env());
    assert(c@ =~= nvm_install(found@, host@, mirror@));
    c
}

/// `nvm use 26`.
fn nvm_use_command() -> (r: Cmd)
    ensures
        r@ == plain("nvm"@, seq!["use"@, NODE_INSTALL_VERSION@]),
{
    let mut c = Cmd::new("nvm");
    c.arg("use");
    c.arg(NODE_INSTALL_VERSION);
    assert(c@ =~= plain("nvm"@, seq!["use"@, NODE_INSTALL_VERSION@]));
    c
}

/// Whether a request is the one for a stage.
pub open spec fn is_request(
    r: NodeRequest,
    stage: NodeStage,
    path: Seq<char>,
    host: HostView,
    mirror: MirrorView,
) -> bool {
    match stage {
        NodeStage::WhichFnm | NodeStage::CargoWhich => r matches NodeRequest::Which(n) && n@
            == "fnm"@,
        NodeStage::FnmInstall | NodeStage::CargoFnmInstall | NodeStage::AutoInstall => {
            &&& r matches NodeRequest::Run(c, label)
            &&& c@ == fnm_install(path, mirror)
            &&& label@ == "fnm install"@
        },
        NodeStage::FnmFind
        | NodeStage::CargoFnmFind
        | NodeStage::NvmFind
        | NodeStage::AutoFind => r matches NodeRequest::FindNode(roots) && views(roots@)
            == node_roots(host),
        NodeStage::ProbeCargo => r is ProbeCargo,
        NodeStage::CargoInstall => {
            &&& r matches NodeRequest::Run(c, label)
            &&& c@ == cargo_install(mirror)
            &&& label@ == "cargo install fnm"@
        },
        NodeStage::CargoFile => r matches NodeRequest::IsFile(p) && p@ == cargo_fnm(host),
        NodeStage::ProbeNvm => r is ProbeNvm,
        NodeStage::NvmInstall => {
            &&& r matches NodeRequest::Run(c, label)
            &&& c@ == nvm_install(path, host, mirror)
            &&& label@ == "nvm install"@
        },
        NodeStage::NvmUse => {
            &&& r matches NodeRequest::Run(c, label)
            &&& c@ == plain("nvm"@, seq!["use"@, NODE_INSTALL_VERSION@])
            &&& label@ == "nvm use"@
        },
        NodeStage::MakeBin => r matches NodeRequest::MakeDir(d) && d@ == host.bin_dir(),
        NodeStage::Download => {
            &&& r matches NodeRequest::Run(c, label)
            &&& c@ == snippet(
                host.os,
                zip_script(
                    host.os,
                    proxied(
                        mirror,
                        "https://github.com/Schniz/fnm/releases/latest/download/"@ + fnm_asset(
                            host.os,
                        ),
                    ),
                    path_in(host.os, host.bin_dir(), ".dshl-download.zip"@),
                    host.bin_dir(),
                ),
            )
            &&& label@ == "download"@
        },
        NodeStage::Locate => {
            &&& r matches NodeRequest::Locate(d, n)
            &&& d@ == host.bin_dir()
            &&& n@ == "fnm"@
        },
        NodeStage::LocateTarget => {
            &&& r matches NodeRequest::Locate(d, n)
            &&& d@ == host.bin_dir()
            &&& n@ == "fnm"@ + ext_text(host.os)
        },
        NodeStage::Copy => {
            &&& r matches NodeRequest::Copy(from, to)
            &&& from@ == path
            &&& to@ == bin_fnm(host)
        },
        NodeStage::Done => r matches NodeRequest::Done(d) && d@ == path,
        NodeStage::Fatal => r matches NodeRequest::Fatal(m) && m@ == note2(
            "install.node.fatal"@,
            "version"@,
            NODE_INSTALL_VERSION@,
            "url"@,
            FNM_GUIDE_URL@,
        ),
    }
}

impl NodeInstall {
    /// An installation that has not begun, and what is said about it.
    pub fn start() -> (r: (NodeInstall, Message))
        ensures
            r.0.stage == NodeStage::WhichFnm,
            r.0.path@ == Seq::<char>::empty(),
            r.1@ == note1("install.node.starting"@, "version"@, NODE_INSTALL_VERSION@),
    {
        (
            NodeInstall { stage: NodeStage::WhichFnm, path: String::new() },
            Message::with1("install.node.starting", "version", NODE_INSTALL_VERSION),
        )
    }

    /// What is to be done now.
    pub fn request(&self, host: &Host, mirror: &MirrorConfig) -> (r: NodeRequest)
        ensures
            is_request(r, self.stage, self.path@, host@, mirror@),
    {
        match self.stage {
            NodeStage::WhichFnm | NodeStage::CargoWhich => NodeRequest::Which("fnm"),
            NodeStage::FnmInstall | NodeStage::CargoFnmInstall | NodeStage::AutoInstall =>
                NodeRequest::Run(
                fnm_install_command(self.path.as_str(), mirror),
                "fnm install",
            ),
            NodeStage::FnmFind
            | NodeStage::CargoFnmFind
            | NodeStage::NvmFind
            | NodeStage::AutoFind => NodeRequest::FindNode(find_node_roots(host)),
            NodeStage::ProbeCargo => NodeRequest::ProbeCargo,
            NodeStage::CargoInstall => NodeRequest::Run(
                cargo_install_command(mirror),
                "cargo install fnm",
            ),
            NodeStage::CargoFile => NodeRequest::IsFile(cargo_fnm_path(host)),
            NodeStage::ProbeNvm => NodeRequest::ProbeNvm,
            NodeStage::NvmInstall => NodeRequest::Run(
                nvm_install_command(self.path.as_str(), host, mirror),
                "nvm install",
            ),
            NodeStage::NvmUse => NodeRequest::Run(nvm_use_command(), "nvm use"),
            NodeStage::MakeBin => NodeRequest::MakeDir(bin_dir(host)),
            NodeStage::Download => {
                let url = fnm_url(host.os, mirror);
                let dir = bin_dir(host);
                NodeRequest::Run(download_zip(host.os, url.as_str(), dir.as_str()), "download")
            },
            NodeStage::Locate => NodeRequest::Locate(bin_dir(host), "fnm".to_owned()),
            NodeStage::LocateTarget => NodeRequest::Locate(
                bin_dir(host),
                with_ext(host.os, "fnm"),
            ),
            NodeStage::Copy => NodeRequest::Copy(self.path.clone(), fnm_target(host)),
            NodeStage::Done => NodeRequest::Done(self.path.clone()),
            NodeStage::Fatal => NodeRequest::Fatal(
                Message::with2(
                    "install.node.fatal",
                    "version",
                    NODE_INSTALL_VERSION,
                    "url",
                    FNM_GUIDE_URL,
                ),
            ),
        }
    }

    /// Takes in the outcome of the request, and says what is to be said.
    pub fn advance(&mut self, host: &Host, answer: &Answer) -> (r: Vec<Message>)
        ensures
            final(self).stage == next_stage(
                old(self).stage,
                answer.yes,
                host@.home_dir() is Some,
                host.os == Os::Windows,
            ),
            final(self).path@ == next_path(
                old(self).stage,
                old(self).path@,
                answer.yes,
                answer.text@,
                host@,
            ),
            notes(r@) == stage_notes(old(self).stage, answer.yes, answer.text@, host@),
    {
        let stage = self.stage;
        let mut said: Vec<Message> = Vec::new();
        let text = answer.text.as_str();
        if answer.yes {
            match stage {
                NodeStage::WhichFnm => {
                    said.push(Message::with1("install.node.using_fnm", "path", text));
                    self.path = answer.text.clone();
                },
                NodeStage::FnmFind | NodeStage::CargoFnmFind | NodeStage::AutoFind => {
                    said.push(Message::with1("install.node.fnm_done", "dir", text));
                    self.path = answer.text.clone();
                },
                NodeStage::ProbeCargo => {
                    said.push(Message::new("install.node.try_cargo"));
                },
                NodeStage::ProbeNvm => {
                    said.push(Message::new("install.node.try_nvm"));
                    self.path = answer.text.clone();
                },
                NodeStage::CargoWhich
                | NodeStage::NvmFind
                | NodeStage::Locate
                | NodeStage::LocateTarget => {
                    self.path = answer.text.clone();
                },
                NodeStage::CargoFile => {
                    self.path = cargo_fnm_path(host);
                },
                NodeStage::Copy => {
                    let target = fnm_target(host);
                    said.push(
                        Message::with1("install.node.auto_fnm_installed", "path", target.as_str()),
                    );
                    self.path = target;
                },
                _ => {},
            }
        } else {
            match stage {
                NodeStage::FnmInstall | NodeStage::FnmFind => {
                    said.push(Message::new("install.node.fnm_failed"));
                },
                NodeStage::CargoInstall => {
                    said.push(Message::with1("install.node.cargo_failed", "err", text));
                },
                NodeStage::CargoWhich => {
                    said.push(
                        Message::with1(
                            "install.node.cargo_failed",
                            "err",
                            "install.node.cargo_no_fnm",
                        ),
                    );
                },
                NodeStage::CargoFnmInstall | NodeStage::CargoFnmFind => {
                    said.push(Message::new("install.node.cargo_fnm_node_failed"));
                },
                NodeStage::NvmInstall | NodeStage::NvmUse | NodeStage::NvmFind => {
                    said.push(Message::new("install.node.nvm_failed"));
                },
                NodeStage::MakeBin | NodeStage::Download | NodeStage::Copy => {
                    said.push(Message::with1("install.node.auto_fnm_failed", "err", text));
                },
                NodeStage::LocateTarget => {
                    said.push(
                        Message::with1(
                            "install.node.auto_fnm_failed",
                            "err",
                            "install.download.no_fnm",
                        ),
                    );
                },
                _ => {},
            }
        }
        self.stage = following(
            stage,
            answer.yes,
            home_dir(host).is_some(),
            host.os == Os::Windows,
        );
        assert(notes(said@) =~= stage_notes(stage, answer.yes, answer.text@, host@));
        said
    }
}

fn cargo_fnm_path(host: &Host) -> (r: String)
    ensures
        r@ == cargo_fnm(host@),
{
    let home = match home_dir(host) {
        Some(h) => h,
        None => String::new(),
    };
    assert(home@ =~= or_empty(host@.home_dir()));
    let os = host.os;
    join(
        os,
        join(os, join(os, home.as_str(), ".cargo").as_str(), "bin").as_str(),
        with_ext(os, "fnm").as_str(),
    )
}

// ---- the search for node -------------------------------------------------

/// How deep below a root node is searched for.
pub const NODE_DEPTH: u32 = 6;

/// A search for the node executable under way: the directories that are still
/// to be looked at, each with its depth below its root. The last is next.
#[derive(Debug)]
pub struct NodeSearch {
    pub stack: Vec<(String, u32)>,
}

/// The contents of a list of directories with their depths.
pub open spec fn depth_views(list: Seq<(String, u32)>) -> Seq<(Seq<char>, u32)> {
    list.map_values(|p: (String, u32)| (p.0@, p.1))
}

/// Directories at a depth, the last first.
pub open spec fn backwards(dirs: Seq<Seq<char>>, depth: u32) -> Seq<(Seq<char>, u32)> {
    Seq::new(dirs.len(), |i: int| (dirs[dirs.len() - 1 - i], depth))
}

fn push_backwards(stack: &mut Vec<(String, u32)>, dirs: &Vec<String>, depth: u32)
    ensures
        depth_views(final(stack)@) == depth_views(old(stack)@) + backwards(views(dirs@), depth),
{
    let ghost want = backwards(views(dirs@), depth);
    let mut i: usize = dirs.len();
    assert(depth_views(stack@) =~= depth_views(old(stack)@) + want.take(0));
    while i > 0
        invariant
            0 <= i <= dirs@.len(),
            want == backwards(views(dirs@), depth),
            depth_views(stack@) == depth_views(old(stack)@) + want.take(dirs@.len() - i),
        decreases i,
    {
        let ghost before = stack@;
        i -= 1;
        let dir = dirs[i].clone();
        stack.push((dir, depth));
        assert(depth_views(stack@) =~= depth_views(before).push((dir@, depth)));
        assert(want[dirs@.len() - 1 - i] == (dir@, depth));
        assert(depth_views(stack@) =~= depth_views(old(stack)@) + want.take(dirs@.len() - i));
    }
    assert(want.take(dirs@.len() as int) =~= want);
}

impl NodeSearch {
    /// A search below the given roots, in their order.
    pub fn new(roots: &Vec<String>) -> (r: NodeSearch)
        ensures
            depth_views(r.stack@) == backwards(views(roots@), 0),
    {
        let mut stack: Vec<(String, u32)> = Vec::new();
        push_backwards(&mut stack, roots, 0);
        assert(depth_views(stack@) =~= backwards(views(roots@), 0));
        NodeSearch { stack }
    }

    /// The next directory to look at, with its depth; without one the search
    /// is over. If it holds the node executable, it is what was searched for.
    pub fn next_dir(&mut self) -> (r: Option<(String, u32)>)
        ensures
            if old(self).stack@.len() > 0 {
                &&& r matches Some(p)
                &&& (p.0@, p.1) == depth_views(old(self).stack@).last()
                &&& depth_views(final(self).stack@) == depth_views(old(self).stack@).drop_last()
            } else {
                r is None && final(self).stack@ == old(self).stack@
            },
    {
        let r = self.stack.pop();
        assert(old(self).stack@.len() > 0 ==> depth_views(self.stack@) =~= depth_views(
            old(self).stack@,
        ).drop_last());
        r
    }

    /// Takes in the directories inside one at the given depth: they are looked
    /// at next, in their order, unless they are too deep.
    pub fn descend(&mut self, depth: u32, dirs: &Vec<String>)
        ensures
            depth_views(final(self).stack@) == depth_views(old(self).stack@) + (if depth
                < NODE_DEPTH {
                backwards(views(dirs@), (depth + 1) as u32)
            } else {
                seq![]
            }),
    {
        if depth < NODE_DEPTH {
            push_backwards(&mut self.stack, dirs, depth + 1);
        } else {
            assert(depth_views(self.stack@) =~= depth_views(old(self).stack@) + seq![]);
        }
    }
}

/// No directory deeper than the limit is ever looked at.
pub proof fn search_stays_within_its_depth(
    stack: Seq<(Seq<char>, u32)>,
    depth: u32,
    dirs: Seq<Seq<char>>,
)
    requires
        forall|i: int| 0 <= i < stack.len() ==> (#[trigger] stack[i]).1 <= NODE_DEPTH,
        depth < NODE_DEPTH,
    ensures
        forall|i: int|
            0 <= i < (stack + backwards(dirs, (depth + 1) as u32)).len() ==> (#[trigger] (stack
                + backwards(dirs, (depth + 1) as u32))[i]).1 <= NODE_DEPTH,
{
    let all = stack + backwards(dirs, (depth + 1) as u32);
    assert forall|i: int| 0 <= i < all.len() implies (#[trigger] all[i]).1 <= NODE_DEPTH by {
        if i < stack.len() {
            assert(all[i] == stack[i]);
        }
    }
}

// ---- laws ----------------------------------------------------------------

/// How many stages may follow at most.
pub open spec fn stages_left(stage: NodeStage) -> nat {
    match stage {
        NodeStage::WhichFnm => 20,
        NodeStage::FnmInstall => 19,
        NodeStage::FnmFind => 18,
        NodeStage::ProbeCargo => 17,
        NodeStage::CargoInstall => 16,
        NodeStage::CargoFile => 15,
        NodeStage::CargoWhich => 14,
        NodeStage::CargoFnmInstall => 13,
        NodeStage::CargoFnmFind => 12,
        NodeStage::ProbeNvm => 11,
        NodeStage::NvmInstall => 10,
        NodeStage::NvmUse => 9,
        NodeStage::NvmFind => 8,
        NodeStage::MakeBin => 7,
        NodeStage::Download => 6,
        NodeStage::Locate => 5,
        NodeStage::LocateTarget => 4,
        NodeStage::Copy => 3,
        NodeStage::AutoInstall => 2,
        NodeStage::AutoFind => 1,
        NodeStage::Done => 0,
        NodeStage::Fatal => 0,
    }
}

/// The installation always comes to an end: every outcome brings it closer,
/// until it is done or has failed for good.
pub proof fn installation_ends(stage: NodeStage, yes: bool, has_home: bool, windows: bool)
    ensures
        stages_left(stage) > 0 ==> stages_left(next_stage(stage, yes, has_home, windows))
            < stages_left(stage),
        stages_left(stage) == 0 <==> stage == NodeStage::Done || stage == NodeStage::Fatal,
{
}

/// It is done only where a search found node, and it fails for good only in
/// the last way, when all others have been tried.
pub proof fn installation_ends_well_or_after_all_ways(
    stage: NodeStage,
    yes: bool,
    has_home: bool,
    windows: bool,
)
    requires
        stages_left(stage) > 0,
    ensures
        next_stage(stage, yes, has_home, windows) == NodeStage::Done ==> yes && (stage
            == NodeStage::FnmFind || stage == NodeStage::CargoFnmFind || stage
            == NodeStage::NvmFind || stage == NodeStage::AutoFind),
        next_stage(stage, yes, has_home, windows) == NodeStage::Fatal ==> !yes && stages_left(
            stage,
        ) <= stages_left(NodeStage::MakeBin),
{
}

/// The stages that are gone through when every request fails.
pub open spec fn after_failures(n: nat, has_home: bool, windows: bool) -> NodeStage
    decreases n,
{
    if n == 0 {
        NodeStage::WhichFnm
    } else {
        next_stage(after_failures((n - 1) as nat, has_home, windows), false, has_home, windows)
    }
}

/// When everything fails, the ways are tried in this order: fnm, cargo, nvm,
/// download.
pub proof fn ways_are_tried_in_order(has_home: bool, windows: bool)
    ensures
        after_failures(0, has_home, windows) == NodeStage::WhichFnm,
        after_failures(1, has_home, windows) == NodeStage::ProbeCargo,
        after_failures(2, has_home, windows) == NodeStage::ProbeNvm,
        after_failures(3, has_home, windows) == NodeStage::MakeBin,
        after_failures(4, has_home, windows) == NodeStage::Fatal,
{
    reveal_with_fuel(after_failures, 5);
}

/// What a search found is what the installation gives: wherever it is done, the
/// path that it keeps, and the directory that it hands out, is the answer of
/// the search that ended it.
pub proof fn the_directory_that_was_found_is_the_result(
    stage: NodeStage,
    path: Seq<char>,
    yes: bool,
    text: Seq<char>,
    host: HostView,
    mirror: MirrorView,
    r: NodeRequest,
)
    requires
        stages_left(stage) > 0,
    ensures
        ({
            let next = next_stage(stage, yes, host.home_dir() is Some, host.os == Os::Windows);
            let kept = next_path(stage, path, yes, text, host);
            &&& next == NodeStage::Done ==> kept == text
            &&& next == NodeStage::Done && is_request(r, next, kept, host, mirror) ==> (
            r matches NodeRequest::Done(dir) && dir@ == text)
        }),
        forall|h: bool, w: bool| #[trigger]
            next_stage(stage, yes, h, w) == NodeStage::Done ==> next_path(
                stage,
                path,
                yes,
                text,
                host,
            ) == text,
{
}

/// Each search for node ends the installation where it finds one, and only
/// where it finds one.
pub proof fn a_search_that_finds_node_ends_the_installation(
    stage: NodeStage,
    path: Seq<char>,
    text: Seq<char>,
    host: HostView,
    mirror: MirrorView,
    has_home: bool,
    windows: bool,
    r: NodeRequest,
)
    requires
        is_request(r, stage, path, host, mirror),
    ensures
        r is FindNode ==> next_stage(stage, true, has_home, windows) == NodeStage::Done
            && next_path(stage, path, true, text, host) == text,
        stages_left(stage) > 0 && next_stage(stage, true, has_home, windows) == NodeStage::Done
            ==> r is FindNode,
        r is Done <==> stage == NodeStage::Done,
        r is Fatal <==> stage == NodeStage::Fatal,
{
}

/// The fnm that was found is the one that installs node: the answer of the
/// lookup, the file that cargo left, or the place that the download was copied
/// to.
pub proof fn the_fnm_that_was_found_is_run(
    stage: NodeStage,
    path: Seq<char>,
    text: Seq<char>,
    host: HostView,
    mirror: MirrorView,
    asked: NodeRequest,
    next: NodeRequest,
)
    requires
        is_request(asked, stage, path, host, mirror),
        is_request(
            next,
            next_stage(stage, true, host.home_dir() is Some, host.os == Os::Windows),
            next_path(stage, path, true, text, host),
            host,
            mirror,
        ),
    ensures
        asked is Which ==> (next matches NodeRequest::Run(c, _) && c@.program == text && c@.args
            == seq!["install"@, "26"@]),
        asked matches NodeRequest::IsFile(p) ==> (next matches NodeRequest::Run(c, _)
            && c@.program == p@ && c@.args == seq!["install"@, "26"@]),
        asked is Locate ==> (next matches NodeRequest::Copy(from, _) && from@ == text),
        asked matches NodeRequest::Copy(_, to) ==> (next matches NodeRequest::Run(c, _)
            && c@.program == to@ && c@.args == seq!["install"@, "26"@]),
        asked is ProbeNvm && host.os == Os::Windows ==> (next matches NodeRequest::Run(c, _)
            && c@.program == "nvm"@ && c@.args == seq!["install"@, "26"@]),
        asked is ProbeNvm && host.os != Os::Windows && text.len() > 0 ==> (
        next matches NodeRequest::Run(c, _) && c@.args.last() == "source '"@ + text
            + "' >/dev/null 2>&1 && nvm install 26 && nvm use 26"@),
        asked is ProbeCargo ==> (next matches NodeRequest::Run(c, _) && c@.program == "cargo"@
            && c@.args == seq!["install"@, "fnm"@]),
        asked is MakeDir ==> (next matches NodeRequest::Run(_, label) && label@ == "download"@),
{
    reveal_strlit("26");
    if asked is ProbeNvm && host.os != Os::Windows && text.len() > 0 {
        reveal_strlit("' >/dev/null 2>&1 && nvm install ");
        reveal_strlit(" && nvm use ");
        reveal_strlit("' >/dev/null 2>&1 && nvm install 26 && nvm use 26");
        assert("source '"@ + text + "' >/dev/null 2>&1 && nvm install "@ + NODE_INSTALL_VERSION@
            + " && nvm use "@ + NODE_INSTALL_VERSION@ =~= "source '"@ + text
            + "' >/dev/null 2>&1 && nvm install 26 && nvm use 26"@);
    }
}

/// The path of fnm is kept while it installs node, so that a failure on the way
/// changes nothing of what was found.
pub proof fn a_failure_keeps_the_path(
    stage: NodeStage,
    path: Seq<char>,
    text: Seq<char>,
    host: HostView,
)
    ensures
        next_path(stage, path, false, text, host) == path,
{
}

/// The stages that are gone through with these answers.
pub open spec fn after_answers(
    stage: NodeStage,
    answers: Seq<bool>,
    has_home: bool,
    windows: bool,
) -> NodeStage
    decreases answers.len(),
{
    if answers.len() == 0 {
        stage
    } else {
        after_answers(
            next_stage(stage, answers[0], has_home, windows),
            answers.skip(1),
            has_home,
            windows,
        )
    }
}

/// Each way leads to node where all of its steps go well.
pub proof fn every_way_can_succeed(has_home: bool, windows: bool)
    ensures
        after_answers(NodeStage::WhichFnm, seq![true, true, true], has_home, windows)
            == NodeStage::Done,
        after_answers(
            NodeStage::ProbeCargo,
            seq![true, true, true, true, true],
            has_home,
            windows,
        ) == NodeStage::Done,
        after_answers(
            NodeStage::ProbeNvm,
            if windows {
                seq![true, true, true, true]
            } else {
                seq![true, true, true]
            },
            has_home,
            windows,
        ) == NodeStage::Done,
        after_answers(
            NodeStage::MakeBin,
            seq![true, true, true, true, true, true],
            has_home,
            windows,
        ) == NodeStage::Done,
{
    lemma_answers(NodeStage::WhichFnm, 3, has_home, windows);
    lemma_answers(NodeStage::ProbeCargo, 5, has_home, windows);
    lemma_answers(NodeStage::ProbeNvm, 3, has_home, windows);
    lemma_answers(NodeStage::ProbeNvm, 4, has_home, windows);
    lemma_answers(NodeStage::MakeBin, 6, has_home, windows);
    reveal_with_fuel(after_successes, 7);
    assert(Seq::new(3, |i: int| true) =~= seq![true, true, true]);
    assert(Seq::new(4, |i: int| true) =~= seq![true, true, true, true]);
    assert(Seq::new(5, |i: int| true) =~= seq![true, true, true, true, true]);
    assert(Seq::new(6, |i: int| true) =~= seq![true, true, true, true, true, true]);
}

/// The stage after a number of requests that went well.
pub open spec fn after_successes(stage: NodeStage, n: nat, has_home: bool, windows: bool) -> NodeStage
    decreases n,
{
    if n == 0 {
        stage
    } else {
        after_successes(next_stage(stage, true, has_home, windows), (n - 1) as nat, has_home, windows)
    }
}

proof fn lemma_answers(stage: NodeStage, n: nat, has_home: bool, windows: bool)
    ensures
        after_answers(stage, Seq::new(n, |i: int| true), has_home, windows) == after_successes(
            stage,
            n,
            has_home,
            windows,
        ),
    decreases n,
{
    if n > 0 {
        lemma_answers(next_stage(stage, true, has_home, windows), (n - 1) as nat, has_home, windows);
        assert(Seq::new(n, |i: int| true).skip(1) =~= Seq::new((n - 1) as nat, |i: int| true));
    }
}

/// A step that fails ends its way and starts the next one; only the two
/// lookups for fnm are made in a second place first.
pub proof fn a_failed_step_starts_the_next_way(stage: NodeStage, has_home: bool, windows: bool)
    ensures
        ({
            let next = next_stage(stage, false, has_home, windows);
            let left = stages_left(stage);
            &&& left > stages_left(NodeStage::ProbeCargo) ==> next == NodeStage::ProbeCargo
            &&& stages_left(NodeStage::ProbeNvm) < left <= stages_left(NodeStage::ProbeCargo)
                && stage != NodeStage::CargoFile ==> next == NodeStage::ProbeNvm
            &&& stage == NodeStage::CargoFile ==> next == NodeStage::CargoWhich
            &&& stages_left(NodeStage::MakeBin) < left <= stages_left(NodeStage::ProbeNvm) ==> next
                == NodeStage::MakeBin
            &&& 0 < left <= stages_left(NodeStage::MakeBin) && stage != NodeStage::Locate ==> next
                == NodeStage::Fatal
            &&& stage == NodeStage::Locate ==> next == NodeStage::LocateTarget
        }),
{
}

/// What a way came to is said: the directory where fnm brought node, and that
/// the way failed where one of its commands did.
pub proof fn what_came_of_a_way_is_said(
    stage: NodeStage,
    text: Seq<char>,
    host: HostView,
    has_home: bool,
    windows: bool,
)
    ensures
        stages_left(stage) > 0 && stage != NodeStage::NvmFind && next_stage(
            stage,
            true,
            has_home,
            windows,
        ) == NodeStage::Done ==> stage_notes(stage, true, text, host) == seq![
            note1("install.node.fnm_done"@, "dir"@, text),
        ],
        stage == NodeStage::FnmInstall || stage == NodeStage::FnmFind ==> stage_notes(
            stage,
            false,
            text,
            host,
        ) == seq![note("install.node.fnm_failed"@)],
        stage == NodeStage::CargoInstall ==> stage_notes(stage, false, text, host) == seq![
            note1("install.node.cargo_failed"@, "err"@, text),
        ],
        stage == NodeStage::CargoFnmInstall || stage == NodeStage::CargoFnmFind ==> stage_notes(
            stage,
            false,
            text,
            host,
        ) == seq![note("install.node.cargo_fnm_node_failed"@)],
        stages_left(NodeStage::MakeBin) < stages_left(stage) < stages_left(NodeStage::ProbeNvm)
            ==> stage_notes(stage, false, text, host) == seq![note("install.node.nvm_failed"@)],
        stage == NodeStage::MakeBin || stage == NodeStage::Download || stage == NodeStage::Copy
            ==> stage_notes(stage, false, text, host) == seq![
            note1("install.node.auto_fnm_failed"@, "err"@, text),
        ],
        stage == NodeStage::WhichFnm ==> stage_notes(stage, true, text, host) == seq![
            note1("install.node.using_fnm"@, "path"@, text),
        ],
{
}

/// The node that is there will do exactly from 24.15.0 on; then its directory
/// is used, and otherwise nothing is.
pub proof fn node_is_used_from_its_minimum_on(os: Os, node: Tool)
    ensures
        !node.found ==> usable_dir(os, node) is None,
        node.version is None ==> usable_dir(os, node) is None,
        node.found && node.path is Some && node.version is Some ==> ({
            let v = node.version->0;
            usable_dir(os, node) == (if v.major > 24 || (v.major == 24 && v.minor >= 15) {
                dir_of(os, node.path->0@)
            } else {
                None
            })
        }),
{
}

/// A recent node is used from the directory in which it was found.
pub proof fn node_is_used_from_where_it_was_found(os: Os, node: Tool, dir: Seq<char>, name: Seq<char>)
    requires
        node.found,
        node.version is Some,
        node.version->0.major > 24,
        node.path is Some,
        node.path->0@ == path_in(os, dir, name),
        is_plain_dir(os, dir),
        is_name(os, name),
    ensures
        usable_dir(os, node) == Some(dir),
{
    parent_of_a_found_file_is_its_directory(os, dir, name);
}

/// What is said of the node that was found matches what is done with it: it
/// satisfies the minimum only where it is used, and it is too old exactly
/// below 24.15.0.
pub proof fn what_is_said_of_node_is_done(os: Os, node: Tool)
    ensures
        usable_dir(os, node) is Some <==> node_notes(os, node).len() == 1 && node_notes(
            os,
            node,
        )[0].key == "install.node.satisfies"@,
        node_notes(os, node).len() == 1 && node_notes(os, node)[0].key == "install.node.too_old"@
            <==> node.found && node.version is Some && (node.version->0.major < 24 || (
        node.version->0.major == 24 && node.version->0.minor < 15)),
        node_notes(os, node).len() == 1 && node_notes(os, node)[0].key == "install.node.not_found"@
            <==> !node.found,
        node_notes(os, node).len() == 1 && node_notes(os, node)[0].key
            == "install.node.unparsable"@ <==> node.found && node.version is None,
{
    reveal_strlit("install.node.satisfies");
    reveal_strlit("install.node.too_old");
    reveal_strlit("install.node.not_found");
    reveal_strlit("install.node.unparsable");
    assert("install.node.satisfies"@.len() == 22);
    assert("install.node.too_old"@.len() == 20);
    assert("install.node.not_found"@.len() == 22);
    assert("install.node.unparsable"@.len() == 23);
    assert("install.node.satisfies"@[13] == 's');
    assert("install.node.not_found"@[13] == 'n');
}

/// The mirrors reach the commands that use them: the one for node reaches fnm
/// and nvm, the one for crates reaches cargo.
pub proof fn mirrors_reach_the_installers(
    found: Seq<char>,
    fnm: Seq<char>,
    host: HostView,
    mirror: MirrorView,
)
    requires
        mirror.mode != MirrorMode::Off,
    ensures
        mirror.nodejs_release is Some ==> {
            &&& fnm_install(fnm, mirror).envs == seq![
                ("FNM_NODE_DIST_MIRROR"@, mirror.nodejs_release->0),
            ]
            &&& nvm_install(found, host, mirror).envs == seq![
                ("NVM_NODEJS_ORG_MIRROR"@, mirror.nodejs_release->0),
            ]
        },
        mirror.nodejs_release is None ==> fnm_install(fnm, mirror).envs.len() == 0 && nvm_install(
            found,
            host,
            mirror,
        ).envs.len() == 0,
        mirror.cargo is Some ==> cargo_install(mirror).envs.contains(
            ("CARGO_REGISTRIES_CRATES_IO_INDEX"@, mirror.cargo->0),
        ),
        mirror.cargo is None ==> cargo_install(mirror).envs.len() == 0,
        fnm_install(fnm, mirror).cwd is None,
        cargo_install(mirror).cwd is None,
{
    crate::mirror::the_crates_index_is_what_cargo_gets(mirror);
    crate::mirror::the_node_mirror_is_what_version_managers_get(mirror);
}

/// On Unix node is searched for where fnm and nvm put it in the home directory.
pub proof fn node_is_searched_for_in_the_home_directory(host: HostView, home: Seq<char>)
    requires
        host.os != Os::Windows,
        host.home_dir() == Some(home),
        home.last() != '/',
    ensures
        node_roots(host).contains(home + "/.fnm/node-versions"@),
        node_roots(host).contains(home + "/.nvm/versions/node"@),
        host.appdata is None ==> node_roots(host).len() == 2,
        cargo_fnm(host) == home + "/.cargo/bin/fnm"@,
        nvm_script(seq![], host) == home + "/.nvm/nvm.sh"@,
{
    let os = host.os;
    reveal_strlit(".fnm");
    reveal_strlit("node-versions");
    reveal_strlit("/.fnm/node-versions");
    reveal_strlit(".nvm");
    reveal_strlit("versions");
    reveal_strlit("node");
    reveal_strlit("/.nvm/versions/node");
    reveal_strlit(".cargo");
    reveal_strlit("bin");
    reveal_strlit("fnm");
    reveal_strlit("");
    reveal_strlit("/.cargo/bin/fnm");
    reveal_strlit("nvm.sh");
    reveal_strlit("/.nvm/nvm.sh");
    let fnm_dir = path_in(os, home, ".fnm"@);
    let nvm_dir = path_in(os, home, ".nvm"@);
    let cargo_dir = path_in(os, home, ".cargo"@);
    unix_paths_are_joined_by_one_slash(os, home, ".fnm"@);
    unix_paths_are_joined_by_one_slash(os, home, ".nvm"@);
    unix_paths_are_joined_by_one_slash(os, home, ".cargo"@);
    assert(fnm_dir.last() == 'm' && nvm_dir.last() == 'm' && cargo_dir.last() == 'o');
    unix_paths_are_joined_by_one_slash(os, fnm_dir, "node-versions"@);
    unix_paths_are_joined_by_one_slash(os, nvm_dir, "versions"@);
    unix_paths_are_joined_by_one_slash(os, nvm_dir, "nvm.sh"@);
    unix_paths_are_joined_by_one_slash(os, cargo_dir, "bin"@);
    let versions = path_in(os, nvm_dir, "versions"@);
    let cargo_bin = path_in(os, cargo_dir, "bin"@);
    assert(versions.last() == 's' && cargo_bin.last() == 'n');
    unix_paths_are_joined_by_one_slash(os, versions, "node"@);
    assert("fnm"@ + ext_text(os) =~= "fnm"@);
    unix_paths_are_joined_by_one_slash(os, cargo_bin, "fnm"@);
    let roots = node_roots(host);
    assert(roots[0] =~= home + "/.fnm/node-versions"@);
    assert(roots[1] =~= home + "/.nvm/versions/node"@);
    assert(cargo_fnm(host) =~= home + "/.cargo/bin/fnm"@);
    assert(nvm_script(seq![], host) =~= home + "/.nvm/nvm.sh"@);
}

/// Directories are searched in their order, each before those that were waiting
/// already: the first of them is the next to be taken, at the depth that they
/// have.
pub proof fn directories_are_searched_in_order(
    waiting: Seq<(Seq<char>, u32)>,
    dirs: Seq<Seq<char>>,
    depth: u32,
    i: int,
)
    requires
        0 <= i < dirs.len(),
    ensures
        ({
            let stack = waiting + backwards(dirs, depth);
            &&& stack.last() == (dirs[0], depth)
            &&& stack[stack.len() - 1 - i] == (dirs[i], depth)
            &&& stack.len() == waiting.len() + dirs.len()
            &&& stack.drop_last() == waiting + backwards(dirs.skip(1), depth)
        }),
{
    let stack = waiting + backwards(dirs, depth);
    assert(stack.drop_last() =~= waiting + backwards(dirs.skip(1), depth));
}

/// A node that was found is reported with its version and the minimum, and with
/// what is installed in place of one that is too old.
pub proof fn a_found_node_is_reported_with_its_version(os: Os, node: Tool)
    requires
        node.found,
        node.version is Some,
    ensures
        usable_dir(os, node) is Some ==> node_notes(os, node)[0].args == seq![
            ("v"@, node.version->0.text()),
            ("min"@, "24.15.0"@),
        ],
        core_less(node.version->0, node_min_version()) ==> node_notes(os, node)[0].args == seq![
            ("v"@, node.version->0.text()),
            ("min"@, "24.15.0"@),
            ("install"@, "26"@),
        ],
{
    reveal_strlit("24.15.0");
    reveal_with_fuel(crate::text::dec, 3);
    assert(crate::text::dec(24) =~= seq!['2', '4']);
    assert(crate::text::dec(15) =~= seq!['1', '5']);
    assert(crate::text::dec(0) =~= seq!['0']);
    assert(node_min_version().text() =~= "24.15.0"@);
}

/// Every command runs under a label that says what it does.
pub proof fn commands_run_under_their_labels(
    r: NodeRequest,
    stage: NodeStage,
    path: Seq<char>,
    host: HostView,
    mirror: MirrorView,
)
    requires
        is_request(r, stage, path, host, mirror),
    ensures
        stage == NodeStage::FnmInstall || stage == NodeStage::CargoFnmInstall || stage
            == NodeStage::AutoInstall ==> (r matches NodeRequest::Run(_, l) && l@ == "fnm install"@),
        stage == NodeStage::CargoInstall ==> (r matches NodeRequest::Run(_, l) && l@
            == "cargo install fnm"@),
        stage == NodeStage::NvmInstall ==> (r matches NodeRequest::Run(_, l) && l@
            == "nvm install"@),
        stage == NodeStage::NvmUse ==> (r matches NodeRequest::Run(c, l) && l@ == "nvm use"@
            && c@.program == "nvm"@ && c@.args == seq!["use"@, "26"@]),
        stage == NodeStage::Download ==> (r matches NodeRequest::Run(_, l) && l@ == "download"@),
        stage == NodeStage::WhichFnm || stage == NodeStage::CargoWhich ==> (
        r matches NodeRequest::Which(n) && n@ == "fnm"@),
{
}

/// The fnm that is downloaded lies in the directory for executables of the
/// cache: it is unpacked there, searched for there and kept there.
pub proof fn a_downloaded_fnm_stays_in_the_cache(
    host: HostView,
    mirror: MirrorView,
    path: Seq<char>,
    made: NodeRequest,
    searched: NodeRequest,
    again: NodeRequest,
    copied: NodeRequest,
)
    requires
        host.os != Os::Windows,
        host.bin_dir().len() > 0,
        host.bin_dir().last() != '/',
        is_request(made, NodeStage::MakeBin, path, host, mirror),
        is_request(searched, NodeStage::Locate, path, host, mirror),
        is_request(again, NodeStage::LocateTarget, path, host, mirror),
        is_request(copied, NodeStage::Copy, path, host, mirror),
    ensures
        bin_fnm(host) == host.bin_dir() + "/fnm"@,
        made matches NodeRequest::MakeDir(d) && d@ == host.bin_dir(),
        searched matches NodeRequest::Locate(d, n) && d@ == host.bin_dir() && n@ == "fnm"@,
        again matches NodeRequest::Locate(d, n) && d@ == host.bin_dir() && n@ == "fnm"@,
        copied matches NodeRequest::Copy(from, to) && from@ == path && to@ == host.bin_dir()
            + "/fnm"@,
{
    reveal_strlit("fnm");
    reveal_strlit("");
    reveal_strlit("/fnm");
    assert("fnm"@ + ext_text(host.os) =~= "fnm"@);
    unix_paths_are_joined_by_one_slash(host.os, host.bin_dir(), "fnm"@);
    assert(bin_fnm(host) =~= host.bin_dir() + "/fnm"@);
}

/// The archive of fnm is fetched from its release, through the proxy where one
/// is configured, and unpacked into the directory for executables.
pub proof fn fnm_is_fetched_from_its_release(
    host: HostView,
    mirror: MirrorView,
    path: Seq<char>,
    r: NodeRequest,
)
    requires
        is_request(r, NodeStage::Download, path, host, mirror),
        mirror.mode == MirrorMode::Off || mirror.github is None,
        !host.bin_dir().contains('\''),
        !path_in(host.os, host.bin_dir(), ".dshl-download.zip"@).contains('\''),
    ensures
        r matches NodeRequest::Run(c, _) && {
            let words = split_on(c@.args.last(), '\'');
            &&& words[1] == "https://github.com/Schniz/fnm/releases/latest/download/"@ + "fnm-"@
                + os_text(host.os) + ".zip"@
            &&& words[7] == host.bin_dir()
        },
{
    let base = "https://github.com/Schniz/fnm/releases/latest/download/"@;
    let url = base + fnm_asset(host.os);
    each_system_has_its_own_fnm(host.os, host.os);
    reveal_strlit("https://github.com/Schniz/fnm/releases/latest/download/");
    reveal_strlit("fnm-windows.zip");
    reveal_strlit("fnm-macos.zip");
    reveal_strlit("fnm-linux.zip");
    assert(base + ("fnm-"@ + os_text(host.os) + ".zip"@) =~= base + "fnm-"@ + os_text(host.os)
        + ".zip"@);
    assert(!url.contains('\''));
    let tmp = path_in(host.os, host.bin_dir(), ".dshl-download.zip"@);
    an_archive_is_fetched_unpacked_and_removed(host.os, url, tmp, host.bin_dir());
    a_snippet_is_one_argument(host.os, zip_script(host.os, url, tmp, host.bin_dir()));
}

} // verus!
