//! Bun: when the one that is there will do, and the chain of ways to install
//! one.
//!
//! Bun is installed only when the config's `pm` asks for it. The chain is:
//! direct binary download (bun-download mirror, github proxy, github), the
//! official install script, npm install into dshl's cache (respects the npm
//! registry mirror). It is never installed globally.

use vstd::prelude::*;
use vstd::string::*;
use super::download::{
    a_snippet_is_one_argument, an_archive_is_fetched_unpacked_and_removed, below, download_zip,
    proxied, proxied_github, run_snippet, snippet, zip_script,
};
use super::node::Answer;
use crate::config::{Config, MirrorMode, Pm};
use crate::message::{note, note1, note2, notes, Line, LineView, Message, MessageView};
use crate::mirror::{MirrorConfig, MirrorView};
use crate::platform::path::unix_paths_are_joined_by_one_slash;
use crate::platform::paths::{
    choose_first, dir_of, ext_text, first_chosen, parent, path_in, path_in2, with_ext, Host,
    HostView,
};
use crate::platform::{cache_dir, join, Arch, Os};
use crate::probe::Tool;
use crate::process::command::{plain, with_env, Cmd, CmdView};
use crate::text::{
    joined, joined_pieces_come_back, only_the_given_character_is_trimmed, opt_view, split_on,
    trim_end_of, views,
};
use crate::version::{core_less, Version};

verus! {

/// Minimum bun version.
pub open spec fn bun_min_version() -> Version {
    Version { major: 1, minor: 3, patch: 14 }
}

/// Minimum bun version.
pub fn bun_min() -> (r: Version)
    ensures
        r == bun_min_version(),
{
    Version::new(1, 3, 14)
}

// ---- addresses -----------------------------------------------------------

pub open spec fn zip_target(os: Os, arch: Arch) -> Seq<char> {
    match (os, arch) {
        (Os::Windows, _) => "bun-windows-x64.zip"@,
        (Os::Macos, Arch::Aarch64) => "bun-darwin-aarch64.zip"@,
        (Os::Macos, _) => "bun-darwin-x64.zip"@,
        (Os::Linux, Arch::Aarch64) => "bun-linux-aarch64.zip"@,
        (Os::Linux, _) => "bun-linux-x64.zip"@,
    }
}

/// The archive of the bun binary for a platform.
pub fn bun_zip_target(os: Os, arch: Arch) -> (r: &'static str)
    ensures
        r@ == zip_target(os, arch),
{
    match (os, arch) {
        (Os::Windows, _) => "bun-windows-x64.zip",
        (Os::Macos, Arch::Aarch64) => "bun-darwin-aarch64.zip",
        (Os::Macos, _) => "bun-darwin-x64.zip",
        (Os::Linux, Arch::Aarch64) => "bun-linux-aarch64.zip",
        (Os::Linux, _) => "bun-linux-x64.zip",
    }
}

pub open spec fn download_url(os: Os, arch: Arch, mirror: MirrorView) -> Seq<char> {
    match mirror.used(mirror.bun_download) {
        Some(base) => below(base, zip_target(os, arch)),
        None => proxied(
            mirror,
            "https://github.com/oven-sh/bun/releases/latest/download/"@ + zip_target(os, arch),
        ),
    }
}

/// Resolve the direct bun binary download URL.
///
/// `bun-download` takes priority when set; otherwise bun is fetched from its
/// GitHub release, going through the `github` proxy prefix when one is
/// configured (empty `github` = download from github directly).
pub fn bun_download_url(os: Os, arch: Arch, mirror: &MirrorConfig) -> (r: String)
    ensures
        r@ == download_url(os, arch, mirror@),
{
    let target = bun_zip_target(os, arch);
    if mirror.enabled() {
        if let Some(base) = &mirror.bun_download {
            let mut r = trim_end_of(base.as_str(), '/');
            r.append("/");
            r.append(target);
            return r;
        }
    }
    let original = "https://github.com/oven-sh/bun/releases/latest/download/".to_owned().concat(
        target,
    );
    proxied_github(mirror, original.as_str())
}

// ---- the bun that is there -----------------------------------------------

/// What to do about bun.
#[derive(Debug)]
pub enum BunVerdict {
    /// The configuration does not need it.
    NotNeeded,
    /// The one that is there will do; its directory, if it has one.
    Use(Option<String>),
    /// Look for one in the [`cached_dirs`], or install one.
    Look,
}

/// Whether a bun is there that is recent enough.
pub open spec fn bun_will_do(bun: Tool) -> bool {
    bun.found && bun.version is Some && !core_less(bun.version->0, bun_min_version())
}

pub open spec fn bun_notes(pm: Pm, bun: Tool) -> Seq<MessageView> {
    let min = bun_min_version().text();
    if pm != Pm::Bun {
        seq![]
    } else if !bun.found {
        seq![note("install.bun.not_found"@)]
    } else if bun.version is None {
        seq![]
    } else if bun_will_do(bun) {
        seq![note2("install.bun.satisfies"@, "v"@, bun.version->0.text(), "min"@, min)]
    } else {
        seq![note2("install.bun.too_old"@, "v"@, bun.version->0.text(), "min"@, min)]
    }
}

/// Whether this is what to do about bun.
pub open spec fn is_bun_verdict(r: BunVerdict, os: Os, pm: Pm, bun: Tool) -> bool {
    if pm != Pm::Bun {
        r is NotNeeded
    } else if bun_will_do(bun) {
        &&& r matches BunVerdict::Use(dir)
        &&& opt_view(dir) == (match bun.path {
            Some(p) => dir_of(os, p@),
            None => None,
        })
    } else {
        r is Look
    }
}

/// What to do about bun, given the one that was found; and what is said.
pub fn ensure_bun(os: Os, config: &Config, bun: &Tool) -> (r: (BunVerdict, Vec<Message>))
    ensures
        is_bun_verdict(r.0, os, config.dsh.pm, *bun),
        notes(r.1@) == bun_notes(config.dsh.pm, *bun),
{
    let mut said: Vec<Message> = Vec::new();
    if !config.dsh.needs_bun() {
        assert(notes(said@) =~= bun_notes(config.dsh.pm, *bun));
        return (BunVerdict::NotNeeded, said);
    }
    if !bun.found {
        said.push(Message::new("install.bun.not_found"));
        assert(notes(said@) =~= bun_notes(config.dsh.pm, *bun));
        return (BunVerdict::Look, said);
    }
    match bun.version {
        None => {
            assert(notes(said@) =~= bun_notes(config.dsh.pm, *bun));
            (BunVerdict::Look, said)
        },
        Some(v) => {
            let min = bun_min().to_text();
            if v.at_least(&bun_min()) {
                let dir = match &bun.path {
                    Some(p) => parent(os, p.as_str()),
                    None => None,
                };
                said.push(
                    Message::with2(
                        "install.bun.satisfies",
                        "v",
                        v.to_text().as_str(),
                        "min",
                        min.as_str(),
                    ),
                );
                assert(notes(said@) =~= bun_notes(config.dsh.pm, *bun));
                (BunVerdict::Use(dir), said)
            } else {
                said.push(
                    Message::with2(
                        "install.bun.too_old",
                        "v",
                        v.to_text().as_str(),
                        "min",
                        min.as_str(),
                    ),
                );
                assert(notes(said@) =~= bun_notes(config.dsh.pm, *bun));
                (BunVerdict::Look, said)
            }
        },
    }
}

impl HostView {
    /// Where the direct download and the script put bun.
    pub open spec fn bun_dir(self) -> Seq<char> {
        path_in(self.os, self.cache_dir(), "bun"@)
    }

    pub open spec fn bun_bin(self) -> Seq<char> {
        path_in(self.os, self.bun_dir(), "bin"@)
    }

    /// Where npm puts bun.
    pub open spec fn bun_npm(self) -> Seq<char> {
        path_in2(self.os, self.cache_dir(), "dshl"@, "bun-npm"@)
    }

    pub open spec fn bun_npm_bin(self) -> Seq<char> {
        path_in2(self.os, self.bun_npm(), "node_modules"@, ".bin"@)
    }

    /// The executable of bun in a directory.
    pub open spec fn bun_in(self, dir: Seq<char>) -> Seq<char> {
        path_in(self.os, dir, "bun"@ + ext_text(self.os))
    }
}

fn bun_dir(host: &Host) -> (r: String)
    ensures
        r@ == host@.bun_dir(),
{
    join(host.os, cache_dir(host).as_str(), "bun")
}

fn bun_bin(host: &Host) -> (r: String)
    ensures
        r@ == host@.bun_bin(),
{
    join(host.os, bun_dir(host).as_str(), "bin")
}

fn bun_npm(host: &Host) -> (r: String)
    ensures
        r@ == host@.bun_npm(),
{
    join(host.os, join(host.os, cache_dir(host).as_str(), "dshl").as_str(), "bun-npm")
}

fn bun_npm_bin(host: &Host) -> (r: String)
    ensures
        r@ == host@.bun_npm_bin(),
{
    join(host.os, join(host.os, bun_npm(host).as_str(), "node_modules").as_str(), ".bin")
}

fn bun_in(host: &Host, dir: &str) -> (r: String)
    ensures
        r@ == host@.bun_in(dir@),
{
    join(host.os, dir, with_ext(host.os, "bun").as_str())
}

/// The directories into which an earlier run may have installed bun.
pub fn cached_dirs(host: &Host) -> (r: Vec<String>)
    ensures
        views(r@) == seq![host@.bun_bin(), host@.bun_npm_bin()],
{
    let mut dirs: Vec<String> = Vec::new();
    dirs.push(bun_bin(host));
    dirs.push(bun_npm_bin(host));
    assert(views(dirs@) =~= seq![host@.bun_bin(), host@.bun_npm_bin()]);
    dirs
}

/// The executables of bun that an earlier run may have installed.
pub fn cached_files(host: &Host) -> (r: Vec<String>)
    ensures
        views(r@) == seq![host@.bun_in(host@.bun_bin()), host@.bun_in(host@.bun_npm_bin())],
{
    let mut files: Vec<String> = Vec::new();
    files.push(bun_in(host, bun_bin(host).as_str()));
    files.push(bun_in(host, bun_npm_bin(host).as_str()));
    assert(views(files@) =~= seq![
        host@.bun_in(host@.bun_bin()),
        host@.bun_in(host@.bun_npm_bin()),
    ]);
    files
}

/// The first of the [`cached_dirs`] whose executable is a file, and what is
/// said about it: it is used again, even though it is not on the ambient
/// `PATH`.
pub fn reuse_cached(host: &Host, is_file: &Vec<bool>) -> (r: Option<(String, Message)>)
    ensures
        match first_chosen(seq![host@.bun_bin(), host@.bun_npm_bin()], is_file@) {
            Some(dir) => {
                &&& r matches Some(x)
                &&& x.0@ == dir
                &&& x.1@ == note1("install.bun.cached"@, "dir"@, dir)
            },
            None => r is None,
        },
{
    match choose_first(&cached_dirs(host), is_file) {
        Some(dir) => {
            let said = Message::with1("install.bun.cached", "dir", dir.as_str());
            Some((dir, said))
        },
        None => None,
    }
}

// ---- the chain -----------------------------------------------------------

/// Where the installation of bun stands.
#[derive(Debug, Clone, Copy, PartialEq, Eq, Structural)]
pub enum BunStage {
    MakeDir,
    AskDistro,
    Download,
    Locate,
    Copy,
    CheckCopy,
    Script,
    CheckScript,
    Npm,
    CheckNpm,
    Done,
    DoneNpm,
    /// A step failed that nothing replaces.
    Failed,
    /// Arch Linux manages bun with pacman: the user installs it.
    FailedOnArch,
    /// No way led to an executable.
    FailedEveryWay,
}

/// What is to be done at a stage.
#[derive(Debug)]
pub enum BunRequest {
    /// Create this directory.
    MakeDir(String),
    /// Is this a distribution whose package manager provides bun (Arch)?
    AskDistro,
    /// Run this command under this label, its output going to the log.
    Run(Cmd, &'static str),
    /// Create the directory, and run the command in the same way.
    RunIn(String, Cmd, &'static str),
    /// Search this directory for a file of this name; the answer's text is its
    /// path.
    Locate(String, &'static str),
    /// Create the directory of the second path, copy the first file to it,
    /// unless they are the same, and make it executable.
    Copy(String, String),
    /// Is this a file?
    IsFile(String),
    /// Bun is in this directory.
    Done(String),
    /// Bun cannot be installed.
    Failed(Line),
}

/// The installation of bun.
#[derive(Debug)]
pub struct BunInstall {
    pub stage: BunStage,
    /// The file that was found, or why the installation failed.
    pub text: String,
}

/// The stage that follows on an outcome.
pub open spec fn next_bun_stage(stage: BunStage, yes: bool) -> BunStage {
    match stage {
        BunStage::MakeDir => if yes {
            BunStage::AskDistro
        } else {
            BunStage::Failed
        },
        BunStage::AskDistro => if yes {
            BunStage::FailedOnArch
        } else {
            BunStage::Download
        },
        BunStage::Download => if yes {
            BunStage::Locate
        } else {
            BunStage::Script
        },
        BunStage::Locate => if yes {
            BunStage::Copy
        } else {
            BunStage::Script
        },
        BunStage::Copy => BunStage::CheckCopy,
        BunStage::CheckCopy => if yes {
            BunStage::Done
        } else {
            BunStage::Script
        },
        BunStage::Script => BunStage::CheckScript,
        BunStage::CheckScript => if yes {
            BunStage::Done
        } else {
            BunStage::Npm
        },
        BunStage::Npm => if yes {
            BunStage::CheckNpm
        } else {
            BunStage::Failed
        },
        BunStage::CheckNpm => if yes {
            BunStage::DoneNpm
        } else {
            BunStage::FailedEveryWay
        },
        BunStage::Done => BunStage::Done,
        BunStage::DoneNpm => BunStage::DoneNpm,
        BunStage::Failed => BunStage::Failed,
        BunStage::FailedOnArch => BunStage::FailedOnArch,
        BunStage::FailedEveryWay => BunStage::FailedEveryWay,
    }
}

fn following(stage: BunStage, yes: bool) -> (r: BunStage)
    ensures
        r == next_bun_stage(stage, yes),
{
    match stage {
        BunStage::MakeDir => if yes {
            BunStage::AskDistro
        } else {
            BunStage::Failed
        },
        BunStage::AskDistro => if yes {
            BunStage::FailedOnArch
        } else {
            BunStage::Download
        },
        BunStage::Download => if yes {
            BunStage::Locate
        } else {
            BunStage::Script
        },
        BunStage::Locate => if yes {
            BunStage::Copy
        } else {
            BunStage::Script
        },
        BunStage::Copy => BunStage::CheckCopy,
        BunStage::CheckCopy => if yes {
            BunStage::Done
        } else {
            BunStage::Script
        },
        BunStage::Script => BunStage::CheckScript,
        BunStage::CheckScript => if yes {
            BunStage::Done
        } else {
            BunStage::Npm
        },
        BunStage::Npm => if yes {
            BunStage::CheckNpm
        } else {
            BunStage::Failed
        },
        BunStage::CheckNpm => if yes {
            BunStage::DoneNpm
        } else {
            BunStage::FailedEveryWay
        },
        BunStage::Done => BunStage::Done,
        BunStage::DoneNpm => BunStage::DoneNpm,
        BunStage::Failed => BunStage::Failed,
        BunStage::FailedOnArch => BunStage::FailedOnArch,
        BunStage::FailedEveryWay => BunStage::FailedEveryWay,
    }
}

/// The text that is kept after an outcome: the file that was found, or why the
/// installation failed.
pub open spec fn next_bun_text(
    stage: BunStage,
    kept: Seq<char>,
    yes: bool,
    text: Seq<char>,
) -> Seq<char> {
    match stage {
        BunStage::MakeDir | BunStage::Npm => if yes {
            kept
        } else {
            text
        },
        BunStage::Locate => if yes {
            text
        } else {
            kept
        },
        _ => kept,
    }
}

pub open spec fn bun_stage_notes(
    stage: BunStage,
    yes: bool,
    os: Os,
    arch: Arch,
    mirror: MirrorView,
) -> Seq<MessageView> {
    match stage {
        BunStage::AskDistro => if yes {
            seq![note("install.bun.arch_pacman"@)]
        } else {
            seq![note1("install.bun.downloading"@, "url"@, download_url(os, arch, mirror))]
        },
        BunStage::Download | BunStage::Locate | BunStage::CheckCopy => if yes {
            seq![]
        } else {
            seq![note("install.bun.direct_failed"@)]
        },
        BunStage::CheckScript => if yes {
            seq![]
        } else {
            seq![note("install.bun.script_failed"@)]
        },
        _ => seq![],
    }
}

/// The official install script, told where to install.
pub open spec fn bun_script(host: HostView, mirror: MirrorView) -> CmdView {
    CmdView {
        envs: mirror.npm_env(),
        ..snippet(
            host.os,
            if host.os == Os::Windows {
                "$env:BUN_INSTALL = '"@ + host.bun_dir() + "'; irm bun.sh/install.ps1 | iex"@
            } else {
                "export BUN_INSTALL='"@ + host.bun_dir()
                    + "'; curl -fsSL https://bun.sh/install | bash"@
            },
        )
    }
}

fn bun_script_command(host: &Host, mirror: &MirrorConfig) -> (r: Cmd)
    ensures
        r@ == bun_script(host@, mirror@),
{
    let dir = bun_dir(host);
    let mut c = if host.os == Os::Windows {
        let mut s = "$env:BUN_INSTALL = '".to_owned();
        s.append(dir.as_str());
        s.append("'; irm bun.sh/install.ps1 | iex");
        run_snippet(host.os, s.as_str())
    } else {
        let mut s = "export BUN_INSTALL='".to_owned();
        s.append(dir.as_str());
        s.append("'; curl -fsSL https://bun.sh/install | bash");
        run_snippet(host.os, s.as_str())
    };
    with_env(&mut c, &mirror.npm_env());
    assert(c@ =~= bun_script(host@, mirror@));
    c
}

/// `npm install` of bun into dshl's cache, never globally.
pub open spec fn bun_npm_install(npm: Seq<char>, host: HostView, mirror: MirrorView) -> CmdView {
    CmdView {
        envs: mirror.npm_env(),
        ..plain(npm, seq!["install"@, "--prefix"@, host.bun_npm(), "--no-save"@, "bun"@])
    }
}

fn bun_npm_command(npm: &str, host: &Host, mirror: &MirrorConfig) -> (r: Cmd)
    ensures
        r@ == bun_npm_install(npm@, host@, mirror@),
{
    let mut c = Cmd::new(npm);
    c.arg("install");
    c.arg("--prefix");
    c.arg(bun_npm(host).as_str());
    c.arg("--no-save");
    c.arg("bun");
    with_env(&mut c, &mirror.npm_env());
    assert(c@ =~= bun_npm_install(npm@, host@, mirror@));
    c
}

/// Whether a request is the one for a stage; `npm` is what npm is started as.
pub open spec fn is_bun_request(
    r: BunRequest,
    stage: BunStage,
    text: Seq<char>,
    host: HostView,
    arch: Arch,
    mirror: MirrorView,
    npm: Seq<char>,
) -> bool {
    match stage {
        BunStage::MakeDir => r matches BunRequest::MakeDir(d) && d@ == host.bun_dir(),
        BunStage::AskDistro => r is AskDistro,
        BunStage::Download => {
            &&& r matches BunRequest::Run(c, label)
            &&& c@ == snippet(
                host.os,
                zip_script(
                    host.os,
                    download_url(host.os, arch, mirror),
                    path_in(host.os, host.bun_dir(), ".dshl-download.zip"@),
                    host.bun_dir(),
                ),
            )
            &&& label@ == "download"@
        },
        BunStage::Locate => {
            &&& r matches BunRequest::Locate(d, n)
            &&& d@ == host.bun_dir()
            &&& n@ == "bun"@
        },
        BunStage::Copy => {
            &&& r matches BunRequest::Copy(from, to)
            &&& from@ == text
            &&& to@ == host.bun_in(host.bun_bin())
        },
        BunStage::CheckCopy | BunStage::CheckScript => r matches BunRequest::IsFile(p) && p@
            == host.bun_in(host.bun_bin()),
        BunStage::Script => {
            &&& r matches BunRequest::Run(c, label)
            &&& c@ == bun_script(host, mirror)
            &&& label@ == "bun install"@
        },
        BunStage::Npm => {
            &&& r matches BunRequest::RunIn(d, c, label)
            &&& d@ == host.bun_npm()
            &&& c@ == bun_npm_install(npm, host, mirror)
            &&& label@ == "npm install bun"@
        },
        BunStage::CheckNpm => r matches BunRequest::IsFile(p) && p@ == host.bun_in(
            host.bun_npm_bin(),
        ),
        BunStage::Done => r matches BunRequest::Done(d) && d@ == host.bun_bin(),
        BunStage::DoneNpm => r matches BunRequest::Done(d) && d@ == host.bun_npm_bin(),
        BunStage::Failed => r matches BunRequest::Failed(e) && e@ == LineView::Text(text),
        BunStage::FailedOnArch => r matches BunRequest::Failed(e) && e@ == LineView::Note(
            note("install.bun.arch_pacman_fatal"@),
        ),
        BunStage::FailedEveryWay => r matches BunRequest::Failed(e) && e@ == LineView::Note(
            note("install.bun.failed"@),
        ),
    }
}

impl BunInstall {
    /// An installation that has not begun.
    pub fn start() -> (r: BunInstall)
        ensures
            r.stage == BunStage::MakeDir,
            r.text@ == Seq::<char>::empty(),
    {
        BunInstall { stage: BunStage::MakeDir, text: String::new() }
    }

    /// What is to be done now.
    pub fn request(&self, host: &Host, arch: Arch, mirror: &MirrorConfig, npm: &str) -> (r:
        BunRequest)
        ensures
            is_bun_request(r, self.stage, self.text@, host@, arch, mirror@, npm@),
    {
        match self.stage {
            BunStage::MakeDir => BunRequest::MakeDir(bun_dir(host)),
            BunStage::AskDistro => BunRequest::AskDistro,
            BunStage::Download => {
                let url = bun_download_url(host.os, arch, mirror);
                let dir = bun_dir(host);
                BunRequest::Run(download_zip(host.os, url.as_str(), dir.as_str()), "download")
            },
            BunStage::Locate => BunRequest::Locate(bun_dir(host), "bun"),
            BunStage::Copy => {
                let bin = bun_bin(host);
                BunRequest::Copy(self.text.clone(), bun_in(host, bin.as_str()))
            },
            BunStage::CheckCopy | BunStage::CheckScript => {
                let bin = bun_bin(host);
                BunRequest::IsFile(bun_in(host, bin.as_str()))
            },
            BunStage::Script => BunRequest::Run(bun_script_command(host, mirror), "bun install"),
            BunStage::Npm => BunRequest::RunIn(
                bun_npm(host),
                bun_npm_command(npm, host, mirror),
                "npm install bun",
            ),
            BunStage::CheckNpm => {
                let bin = bun_npm_bin(host);
                BunRequest::IsFile(bun_in(host, bin.as_str()))
            },
            BunStage::Done => BunRequest::Done(bun_bin(host)),
            BunStage::DoneNpm => BunRequest::Done(bun_npm_bin(host)),
            BunStage::Failed => BunRequest::Failed(Line::Text(self.text.clone())),
            BunStage::FailedOnArch => BunRequest::Failed(
                Line::Note(Message::new("install.bun.arch_pacman_fatal")),
            ),
            BunStage::FailedEveryWay => BunRequest::Failed(
                Line::Note(Message::new("install.bun.failed")),
            ),
        }
    }

    /// Takes in the outcome of the request, and says what is to be said.
    pub fn advance(&mut self, os: Os, arch: Arch, mirror: &MirrorConfig, answer: &Answer) -> (r:
        Vec<Message>)
        ensures
            final(self).stage == next_bun_stage(old(self).stage, answer.yes),
            final(self).text@ == next_bun_text(
                old(self).stage,
                old(self).text@,
                answer.yes,
                answer.text@,
            ),
            notes(r@) == bun_stage_notes(old(self).stage, answer.yes, os, arch, mirror@),
    {
        let stage = self.stage;
        let mut said: Vec<Message> = Vec::new();
        match stage {
            BunStage::MakeDir | BunStage::Npm => if !answer.yes {
                self.text = answer.text.clone();
            },
            BunStage::AskDistro => if answer.yes {
                said.push(Message::new("install.bun.arch_pacman"));
            } else {
                let url = bun_download_url(os, arch, mirror);
                said.push(Message::with1("install.bun.downloading", "url", url.as_str()));
            },
            BunStage::Locate => if answer.yes {
                self.text = answer.text.clone();
            } else {
                said.push(Message::new("install.bun.direct_failed"));
            },
            BunStage::Download | BunStage::CheckCopy => if !answer.yes {
                said.push(Message::new("install.bun.direct_failed"));
            },
            BunStage::CheckScript => if !answer.yes {
                said.push(Message::new("install.bun.script_failed"));
            },
            _ => {},
        }
        self.stage = following(stage, answer.yes);
        assert(notes(said@) =~= bun_stage_notes(stage, answer.yes, os, arch, mirror@));
        said
    }
}

// ---- laws ----------------------------------------------------------------

/// How many stages may follow at most.
pub open spec fn bun_stages_left(stage: BunStage) -> nat {
    match stage {
        BunStage::MakeDir => 10,
        BunStage::AskDistro => 9,
        BunStage::Download => 8,
        BunStage::Locate => 7,
        BunStage::Copy => 6,
        BunStage::CheckCopy => 5,
        BunStage::Script => 4,
        BunStage::CheckScript => 3,
        BunStage::Npm => 2,
        BunStage::CheckNpm => 1,
        _ => 0,
    }
}

/// The installation always comes to an end, and it ends well only behind a
/// check that the executable is there.
pub proof fn bun_installation_ends(stage: BunStage, yes: bool)
    ensures
        bun_stages_left(stage) > 0 ==> bun_stages_left(next_bun_stage(stage, yes))
            < bun_stages_left(stage),
        bun_stages_left(stage) > 0 && (next_bun_stage(stage, yes) == BunStage::Done
            || next_bun_stage(stage, yes) == BunStage::DoneNpm) ==> yes && (stage
            == BunStage::CheckCopy || stage == BunStage::CheckScript || stage
            == BunStage::CheckNpm),
{
}

/// What was checked is what is used: the directory that is handed out holds the
/// executable whose presence was confirmed last.
pub proof fn the_bun_that_was_checked_is_used(
    stage: BunStage,
    kept: Seq<char>,
    yes: bool,
    text: Seq<char>,
    host: HostView,
    arch: Arch,
    mirror: MirrorView,
    npm: Seq<char>,
    asked: BunRequest,
    next: BunRequest,
)
    requires
        bun_stages_left(stage) > 0,
        is_bun_request(asked, stage, kept, host, arch, mirror, npm),
        is_bun_request(
            next,
            next_bun_stage(stage, yes),
            next_bun_text(stage, kept, yes, text),
            host,
            arch,
            mirror,
            npm,
        ),
    ensures
        next matches BunRequest::Done(dir) ==> {
            &&& yes
            &&& asked matches BunRequest::IsFile(file) && file@ == path_in(
                host.os,
                dir@,
                "bun"@ + ext_text(host.os),
            )
        },
        asked is IsFile && yes ==> next is Done,
        asked is Locate && yes ==> (next matches BunRequest::Copy(from, _) && from@ == text),
        asked matches BunRequest::Copy(_, to) ==> (next matches BunRequest::IsFile(file) && file@
            == to@),
        asked is AskDistro ==> (yes <==> next is Failed),
        next is Failed && asked is MakeDir ==> (next matches BunRequest::Failed(e) && e@
            == LineView::Text(text)),
        next is Failed && asked is RunIn ==> (next matches BunRequest::Failed(e) && e@
            == LineView::Text(text)),
        next is Failed && asked is AskDistro ==> (next matches BunRequest::Failed(e) && e@
            == LineView::Note(note("install.bun.arch_pacman_fatal"@))),
        next is Failed && asked is IsFile ==> (next matches BunRequest::Failed(e) && e@
            == LineView::Note(note("install.bun.failed"@))),
        next is Failed ==> asked is MakeDir || asked is RunIn || asked is AskDistro
            || asked is IsFile,
{
}

/// The ways are tried one after the other: a step of the download that fails
/// leads to the script, the script is judged by what it left, and npm comes
/// last.
pub proof fn bun_ways_are_tried_in_order(stage: BunStage, yes: bool)
    ensures
        next_bun_stage(BunStage::MakeDir, true) == BunStage::AskDistro,
        next_bun_stage(BunStage::AskDistro, false) == BunStage::Download,
        next_bun_stage(BunStage::Download, true) == BunStage::Locate,
        next_bun_stage(BunStage::Locate, true) == BunStage::Copy,
        stage == BunStage::Download || stage == BunStage::Locate || stage == BunStage::CheckCopy
            ==> next_bun_stage(stage, false) == BunStage::Script,
        next_bun_stage(BunStage::Copy, yes) == BunStage::CheckCopy,
        next_bun_stage(BunStage::Script, yes) == BunStage::CheckScript,
        next_bun_stage(BunStage::CheckScript, false) == BunStage::Npm,
        next_bun_stage(BunStage::Npm, true) == BunStage::CheckNpm,
        next_bun_stage(BunStage::CheckNpm, false) == BunStage::FailedEveryWay,
        next_bun_stage(stage, yes) == BunStage::Failed && bun_stages_left(stage) > 0 ==> !yes && (
        stage == BunStage::MakeDir || stage == BunStage::Npm),
{
}

/// What is said matches what comes next: the address that is downloaded from,
/// and that a way failed where the next one is taken.
pub proof fn what_is_said_of_bun_is_done(
    stage: BunStage,
    yes: bool,
    os: Os,
    arch: Arch,
    mirror: MirrorView,
)
    ensures
        next_bun_stage(stage, yes) == BunStage::Download && bun_stages_left(stage) > 0
            ==> bun_stage_notes(stage, yes, os, arch, mirror) == seq![
            note1("install.bun.downloading"@, "url"@, download_url(os, arch, mirror)),
        ],
        next_bun_stage(stage, yes) == BunStage::Script ==> bun_stage_notes(
            stage,
            yes,
            os,
            arch,
            mirror,
        ) == seq![note("install.bun.direct_failed"@)],
        next_bun_stage(stage, yes) == BunStage::Npm ==> bun_stage_notes(
            stage,
            yes,
            os,
            arch,
            mirror,
        ) == seq![note("install.bun.script_failed"@)],
        bun_stages_left(stage) > 0 && next_bun_stage(stage, yes) == BunStage::FailedOnArch
            ==> bun_stage_notes(stage, yes, os, arch, mirror) == seq![
            note("install.bun.arch_pacman"@),
        ],
{
}

/// Bun comes from its own mirror first, then through the proxy for GitHub, and
/// otherwise from GitHub; the file is always the one for the platform.
pub proof fn bun_comes_from_the_nearest_mirror(
    os: Os,
    arch: Arch,
    mirror: MirrorView,
    base: Seq<char>,
)
    requires
        base.len() > 0,
        base.last() != '/',
    ensures
        mirror.mode != MirrorMode::Off && mirror.bun_download == Some(base) ==> download_url(
            os,
            arch,
            mirror,
        ) == base + seq!['/'] + zip_target(os, arch),
        mirror.mode != MirrorMode::Off && mirror.bun_download == Some(base.push('/'))
            ==> download_url(os, arch, mirror) == base + seq!['/'] + zip_target(os, arch),
        mirror.mode != MirrorMode::Off && mirror.bun_download is None && mirror.github == Some(base)
            ==> download_url(os, arch, mirror) == base + seq!['/']
            + "https://github.com/oven-sh/bun/releases/latest/download/"@ + zip_target(os, arch),
        mirror.mode == MirrorMode::Off || (mirror.bun_download is None && mirror.github is None)
            ==> download_url(os, arch, mirror)
            == "https://github.com/oven-sh/bun/releases/latest/download/"@ + zip_target(os, arch),
{
    let zip = zip_target(os, arch);
    let home = "https://github.com/oven-sh/bun/releases/latest/download/"@;
    only_the_given_character_is_trimmed(0, '/', base);
    only_the_given_character_is_trimmed(1, '/', base);
    assert(base + Seq::new(0, |i: int| '/') =~= base);
    assert(base + Seq::new(1, |i: int| '/') =~= base.push('/'));
    reveal_strlit("/");
    assert("/"@ =~= seq!['/']);
    assert(base + seq!['/'] + (home + zip) =~= base + seq!['/'] + home + zip);
}

/// Each platform has its own archive, named after the system and the machine.
pub proof fn bun_archives_are_named_after_the_platform(arch: Arch)
    ensures
        zip_target(Os::Windows, arch) == "bun-windows-x64.zip"@,
        zip_target(Os::Macos, arch) == (if arch == Arch::Aarch64 {
            "bun-darwin-aarch64.zip"@
        } else {
            "bun-darwin-x64.zip"@
        }),
        zip_target(Os::Linux, arch) == (if arch == Arch::Aarch64 {
            "bun-linux-aarch64.zip"@
        } else {
            "bun-linux-x64.zip"@
        }),
{
}

/// The bun that is there will do exactly from 1.3.14 on.
pub proof fn bun_is_used_from_its_minimum_on(bun: Tool)
    ensures
        !bun.found || bun.version is None ==> !bun_will_do(bun),
        bun.found && bun.version is Some ==> ({
            let v = bun.version->0;
            bun_will_do(bun) <==> v.major > 1 || (v.major == 1 && (v.minor > 3 || (v.minor == 3
                && v.patch >= 14)))
        }),
{
}

/// What is said of the bun that was found matches whether it is used; nothing
/// is said where none is needed.
pub proof fn what_is_said_of_the_found_bun(pm: Pm, bun: Tool)
    ensures
        pm != Pm::Bun ==> bun_notes(pm, bun).len() == 0,
        pm == Pm::Bun ==> {
            &&& bun_will_do(bun) <==> bun_notes(pm, bun).len() == 1 && bun_notes(pm, bun)[0].key
                == "install.bun.satisfies"@
            &&& !bun.found <==> bun_notes(pm, bun).len() == 1 && bun_notes(pm, bun)[0].key
                == "install.bun.not_found"@
            &&& bun.found && bun.version is Some && !bun_will_do(bun) <==> bun_notes(pm, bun).len()
                == 1 && bun_notes(pm, bun)[0].key == "install.bun.too_old"@
        },
{
    reveal_strlit("install.bun.satisfies");
    reveal_strlit("install.bun.not_found");
    reveal_strlit("install.bun.too_old");
    assert("install.bun.satisfies"@[12] == 's');
    assert("install.bun.not_found"@[12] == 'n');
    assert("install.bun.too_old"@[12] == 't');
}

/// npm installs bun into the directory that is made for it, inside the cache
/// and never globally, and leaves its executables where they are looked for.
pub proof fn npm_puts_bun_into_the_cache(npm: Seq<char>, host: HostView, mirror: MirrorView)
    ensures
        ({
            let c = bun_npm_install(npm, host, mirror);
            &&& c.program == npm
            &&& c.args == seq!["install"@, "--prefix"@, host.bun_npm(), "--no-save"@, "bun"@]
            &&& c.envs == mirror.npm_env()
            &&& c.cwd is None
            &&& host.bun_npm_bin() == path_in(
                host.os,
                path_in(host.os, c.args[2], "node_modules"@),
                ".bin"@,
            )
        }),
{
}

/// The script installs bun into the directory whose `bin` is looked into, and
/// gets the registry of the mirrors.
pub proof fn the_script_puts_bun_into_the_cache(host: HostView, mirror: MirrorView)
    requires
        !host.bun_dir().contains('\''),
    ensures
        split_on(bun_script(host, mirror).args.last(), '\'').len() == 3,
        split_on(bun_script(host, mirror).args.last(), '\'')[1] == host.bun_dir(),
        host.bun_bin() == path_in(host.os, host.bun_dir(), "bin"@),
        bun_script(host, mirror).envs == mirror.npm_env(),
{
    let dir = host.bun_dir();
    let words = if host.os == Os::Windows {
        reveal_strlit("$env:BUN_INSTALL = '");
        reveal_strlit("'; irm bun.sh/install.ps1 | iex");
        seq!["$env:BUN_INSTALL = '"@.drop_last(), dir, "'; irm bun.sh/install.ps1 | iex"@.skip(1)]
    } else {
        reveal_strlit("export BUN_INSTALL='");
        reveal_strlit("'; curl -fsSL https://bun.sh/install | bash");
        seq![
            "export BUN_INSTALL='"@.drop_last(),
            dir,
            "'; curl -fsSL https://bun.sh/install | bash"@.skip(1),
        ]
    };
    assert forall|i: int| 0 <= i < words.len() implies !(#[trigger] words[i]).contains('\'') by {
        assert(i == 0 || i == 1 || i == 2);
    }
    joined_pieces_come_back(words, '\'');
    reveal_with_fuel(joined, 3);
    assert(joined(words, seq!['\'']) =~= bun_script(host, mirror).args.last());
}

/// On Unix bun lives inside the cache directory: the download and the script
/// share one place, and npm has another one.
pub proof fn bun_lives_inside_the_cache(host: HostView)
    requires
        host.os != Os::Windows,
        host.cache_dir().len() > 0,
        host.cache_dir().last() != '/',
    ensures
        host.bun_dir() == host.cache_dir() + "/bun"@,
        host.bun_in(host.bun_bin()) == host.cache_dir() + "/bun/bin/bun"@,
        host.bun_npm() == host.cache_dir() + "/dshl/bun-npm"@,
        host.bun_in(host.bun_npm_bin()) == host.cache_dir()
            + "/dshl/bun-npm/node_modules/.bin/bun"@,
{
    let os = host.os;
    let cache = host.cache_dir();
    reveal_strlit("bun");
    reveal_strlit("bin");
    reveal_strlit("");
    reveal_strlit("dshl");
    reveal_strlit("bun-npm");
    reveal_strlit("node_modules");
    reveal_strlit(".bin");
    reveal_strlit("/bun");
    reveal_strlit("/bun/bin/bun");
    reveal_strlit("/dshl/bun-npm");
    reveal_strlit("/dshl/bun-npm/node_modules/.bin/bun");
    assert("bun"@ + ext_text(os) =~= "bun"@);
    unix_paths_are_joined_by_one_slash(os, cache, "bun"@);
    assert(host.bun_dir() =~= cache + "/bun"@);
    unix_paths_are_joined_by_one_slash(os, host.bun_dir(), "bin"@);
    assert(host.bun_bin().last() == 'n');
    unix_paths_are_joined_by_one_slash(os, host.bun_bin(), "bun"@);
    assert(host.bun_in(host.bun_bin()) =~= cache + "/bun/bin/bun"@);
    unix_paths_are_joined_by_one_slash(os, cache, "dshl"@);
    let own = path_in(os, cache, "dshl"@);
    assert(own.last() == 'l');
    unix_paths_are_joined_by_one_slash(os, own, "bun-npm"@);
    assert(host.bun_npm() =~= cache + "/dshl/bun-npm"@);
    unix_paths_are_joined_by_one_slash(os, host.bun_npm(), "node_modules"@);
    let modules = path_in(os, host.bun_npm(), "node_modules"@);
    assert(modules.last() == 's');
    unix_paths_are_joined_by_one_slash(os, modules, ".bin"@);
    assert(host.bun_npm_bin().last() == 'n');
    unix_paths_are_joined_by_one_slash(os, host.bun_npm_bin(), "bun"@);
    assert(host.bun_in(host.bun_npm_bin()) =~= cache + "/dshl/bun-npm/node_modules/.bin/bun"@);
}

/// The archive is searched where it was unpacked.
pub proof fn the_archive_is_searched_where_it_was_unpacked(
    host: HostView,
    arch: Arch,
    mirror: MirrorView,
    npm: Seq<char>,
    kept: Seq<char>,
    made: BunRequest,
    fetched: BunRequest,
    searched: BunRequest,
)
    requires
        is_bun_request(made, BunStage::MakeDir, kept, host, arch, mirror, npm),
        is_bun_request(fetched, BunStage::Download, kept, host, arch, mirror, npm),
        is_bun_request(searched, BunStage::Locate, kept, host, arch, mirror, npm),
        !host.bun_dir().contains('\''),
        !path_in(host.os, host.bun_dir(), ".dshl-download.zip"@).contains('\''),
        !download_url(host.os, arch, mirror).contains('\''),
    ensures
        fetched matches BunRequest::Run(c, _) && made matches BunRequest::MakeDir(m)
            && searched matches BunRequest::Locate(d, name) && {
            let words = split_on(c@.args.last(), '\'');
            &&& words[1] == download_url(host.os, arch, mirror)
            &&& words[7] == d@
            &&& m@ == d@
            &&& words[3] == path_in(host.os, d@, ".dshl-download.zip"@)
            &&& name@ == "bun"@
        },
{
    an_archive_is_fetched_unpacked_and_removed(
        host.os,
        download_url(host.os, arch, mirror),
        path_in(host.os, host.bun_dir(), ".dshl-download.zip"@),
        host.bun_dir(),
    );
    a_snippet_is_one_argument(
        host.os,
        zip_script(
            host.os,
            download_url(host.os, arch, mirror),
            path_in(host.os, host.bun_dir(), ".dshl-download.zip"@),
            host.bun_dir(),
        ),
    );
}

/// Bun is left alone where it is not the package manager; one that will do is
/// used from where it was found, and otherwise one is looked for.
pub proof fn bun_is_used_where_it_will_do(r: BunVerdict, os: Os, pm: Pm, bun: Tool)
    requires
        is_bun_verdict(r, os, pm, bun),
    ensures
        r is NotNeeded <==> pm != Pm::Bun,
        pm == Pm::Bun ==> (r is Use <==> bun_will_do(bun)),
        pm == Pm::Bun ==> (r is Look <==> !bun_will_do(bun)),
        r matches BunVerdict::Use(dir) ==> {
            &&& bun.path is Some ==> opt_view(dir) == dir_of(os, bun.path->0@)
            &&& bun.path is None ==> dir is None
        },
{
}

/// A bun that was found is reported with its version and the minimum.
pub proof fn a_found_bun_is_reported_with_its_version(bun: Tool)
    requires
        bun.found,
        bun.version is Some,
    ensures
        bun_notes(Pm::Bun, bun).len() == 1,
        bun_notes(Pm::Bun, bun)[0].args == seq![
            ("v"@, bun.version->0.text()),
            ("min"@, "1.3.14"@),
        ],
{
    reveal_strlit("1.3.14");
    reveal_with_fuel(crate::text::dec, 3);
    assert(crate::text::dec(1) =~= seq!['1']);
    assert(crate::text::dec(3) =~= seq!['3']);
    assert(crate::text::dec(14) =~= seq!['1', '4']);
    assert(bun_min_version().text() =~= "1.3.14"@);
}

/// Every command runs under a label that says what it does, and npm in the
/// directory that is made for it.
pub proof fn bun_commands_run_under_their_labels(
    r: BunRequest,
    stage: BunStage,
    text: Seq<char>,
    host: HostView,
    arch: Arch,
    mirror: MirrorView,
    npm: Seq<char>,
)
    requires
        is_bun_request(r, stage, text, host, arch, mirror, npm),
    ensures
        stage == BunStage::Download ==> (r matches BunRequest::Run(_, l) && l@ == "download"@),
        stage == BunStage::Script ==> (r matches BunRequest::Run(c, l) && l@ == "bun install"@
            && c@ == bun_script(host, mirror)),
        stage == BunStage::Npm ==> (r matches BunRequest::RunIn(d, c, l) && l@
            == "npm install bun"@ && c@.program == npm && c@.args[2] == d@),
{
}

} // verus!
