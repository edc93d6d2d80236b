//! nub: installer for the all-in-one Node toolkit, straight from the registry.
//!
//! `@nubjs/nub` and its platform binary package are downloaded from the
//! configured registry (npmjs.org or `mirrors.npm`) as tarballs; no `npm`
//! process is ever spawned. Only the `bin/` directory is needed on PATH.

use vstd::prelude::*;
use vstd::string::*;
use super::download::{
    a_snippet_is_one_argument, a_tarball_is_named_without_its_scope, downloads_name_their_files,
    extract_command, extract_json_string, extract_script, json_string, registry, registry_base, snippet, tarball, tarball_url,
};
use super::node::Answer;
use crate::config::{Config, Pm};
use crate::message::{note, note1, Message};
use crate::mirror::{MirrorConfig, MirrorView};
use crate::platform::path::unix_paths_are_joined_by_one_slash;
use crate::platform::paths::{
    choose_first, dir_of, ext_text, first_chosen, parent, path_in, path_in2,
    the_first_runnable_path_is_found, with_ext, Host, HostView,
};
use crate::platform::{cache_dir, join, Os};
use crate::process::command::{plain, with_env, Cmd, CmdView};
use crate::process::CommandResult;
use crate::text::{
    all_white, is_white, joined, lines, lines_come_back, lines_of, opt_view, same, split_on, trim, trimmed, views,
    white_space_around_a_text_is_trimmed,
};

verus! {

pub open spec fn platform_package_text(os: Os, arch: Seq<char>) -> Seq<char> {
    match os {
        Os::Windows => if arch == "x86_64"@ {
            "@nubjs/nub-win32-x64"@
        } else {
            "@nubjs/nub-win32-arm64"@
        },
        Os::Macos => if arch == "aarch64"@ {
            "@nubjs/nub-darwin-arm64"@
        } else {
            "@nubjs/nub-darwin-x64"@
        },
        Os::Linux => if arch == "aarch64"@ {
            "@nubjs/nub-linux-arm64"@
        } else {
            "@nubjs/nub-linux-x64"@
        },
    }
}

/// Platform subpackage for `@nubjs/nub` (matches its optionalDependencies).
pub fn platform_package(os: Os, arch: &str) -> (r: &'static str)
    ensures
        r@ == platform_package_text(os, arch@),
{
    match os {
        Os::Windows => if same(arch, "x86_64") {
            "@nubjs/nub-win32-x64"
        } else {
            "@nubjs/nub-win32-arm64"
        },
        Os::Macos => if same(arch, "aarch64") {
            "@nubjs/nub-darwin-arm64"
        } else {
            "@nubjs/nub-darwin-x64"
        },
        Os::Linux => if same(arch, "aarch64") {
            "@nubjs/nub-linux-arm64"
        } else {
            "@nubjs/nub-linux-x64"
        },
    }
}

// ---- places --------------------------------------------------------------

impl HostView {
    /// Where nub is installed.
    pub open spec fn nub_root(self) -> Seq<char> {
        path_in2(self.os, self.cache_dir(), "dshl"@, "nub"@)
    }

    pub open spec fn nub_bin(self) -> Seq<char> {
        path_in(self.os, self.nub_root(), "bin"@)
    }

    pub open spec fn nub_in(self, dir: Seq<char>) -> Seq<char> {
        path_in(self.os, dir, "nub"@ + ext_text(self.os))
    }

    /// The file that holds the installed version.
    pub open spec fn nub_marker(self) -> Seq<char> {
        path_in(self.os, self.nub_root(), "nub.version"@)
    }

    /// Where packages are unpacked.
    pub open spec fn nub_stage(self) -> Seq<char> {
        path_in(self.os, self.nub_root(), ".stage"@)
    }

    pub open spec fn nub_tarball(self) -> Seq<char> {
        path_in(self.os, self.nub_stage(), "pkg.tgz"@)
    }

    pub open spec fn nub_extracted(self) -> Seq<char> {
        path_in(self.os, self.nub_stage(), "extracted"@)
    }

    /// The root of an unpacked package.
    pub open spec fn nub_package(self) -> Seq<char> {
        path_in(self.os, self.nub_extracted(), "package"@)
    }
}

fn nub_root(host: &Host) -> (r: String)
    ensures
        r@ == host@.nub_root(),
{
    join(host.os, join(host.os, cache_dir(host).as_str(), "dshl").as_str(), "nub")
}

/// The directory of the installed nub.
pub fn nub_bin(host: &Host) -> (r: String)
    ensures
        r@ == host@.nub_bin(),
{
    join(host.os, nub_root(host).as_str(), "bin")
}

/// The executable of nub in a directory.
pub fn nub_in(host: &Host, dir: &str) -> (r: String)
    ensures
        r@ == host@.nub_in(dir@),
{
    join(host.os, dir, with_ext(host.os, "nub").as_str())
}

/// The file that holds the installed version.
pub fn nub_marker(host: &Host) -> (r: String)
    ensures
        r@ == host@.nub_marker(),
{
    join(host.os, nub_root(host).as_str(), "nub.version")
}

fn nub_stage(host: &Host) -> (r: String)
    ensures
        r@ == host@.nub_stage(),
{
    join(host.os, nub_root(host).as_str(), ".stage")
}

fn nub_tarball(host: &Host) -> (r: String)
    ensures
        r@ == host@.nub_tarball(),
{
    join(host.os, nub_stage(host).as_str(), "pkg.tgz")
}

fn nub_extracted(host: &Host) -> (r: String)
    ensures
        r@ == host@.nub_extracted(),
{
    join(host.os, nub_stage(host).as_str(), "extracted")
}

fn nub_package(host: &Host) -> (r: String)
    ensures
        r@ == host@.nub_package(),
{
    join(host.os, nub_extracted(host).as_str(), "package")
}

/// The version that a marker holds, given its content.
pub open spec fn marked_version(content: Option<Seq<char>>) -> Option<Seq<char>> {
    match content {
        Some(text) => if trimmed(text).len() == 0 {
            None
        } else {
            Some(trimmed(text))
        },
        None => None,
    }
}

/// The version that the marker file holds, given its content: nothing where
/// the file is missing or blank.
pub fn marker_version(content: &Option<String>) -> (r: Option<String>)
    ensures
        opt_view(r) == marked_version(opt_view(*content)),
{
    match content {
        Some(text) => {
            let t = trim(text.as_str());
            if t.as_str().is_empty() {
                None
            } else {
                Some(t)
            }
        },
        None => None,
    }
}

// ---- the nub that is there -----------------------------------------------

/// What to do about nub.
#[derive(Debug)]
pub enum NubPlan {
    /// Nothing is to be added to `PATH`: nub is not needed, an installation
    /// failed earlier in this session, or the user has a nub of their own.
    Nothing,
    /// The installed one will do: its directory, and what is said.
    Cached(String, Message),
    /// It has to be installed; what is said.
    Install(Message),
}

/// Whether nothing is to be added whatever nub is there: nub is not needed, or
/// an installation failed earlier in this session.
pub open spec fn nub_is_left_alone(pm: Pm, failed_before: bool) -> bool {
    pm != Pm::Nub || failed_before
}

/// What is known before any nub is looked for: nothing to add, or no decision
/// yet. An earlier failure of this session is not repeated.
pub fn ensure_nub_early(config: &Config, failed_before: bool) -> (r: Option<NubPlan>)
    ensures
        if nub_is_left_alone(config.dsh.pm, failed_before) {
            r matches Some(p) && p is Nothing
        } else {
            r is None
        },
{
    if !config.dsh.needs_nub() || failed_before {
        Some(NubPlan::Nothing)
    } else {
        None
    }
}

/// Whether this is what to do about nub.
pub open spec fn is_nub_plan(
    r: NubPlan,
    host: HostView,
    pm: Pm,
    failed_before: bool,
    exe_is_file: bool,
    marked: bool,
    global_found: bool,
) -> bool {
    if nub_is_left_alone(pm, failed_before) || global_found {
        r is Nothing
    } else if exe_is_file && marked {
        &&& r matches NubPlan::Cached(dir, m)
        &&& dir@ == host.nub_bin()
        &&& m@ == note1("install.nub.cached"@, "dir"@, host.nub_root())
    } else {
        r matches NubPlan::Install(m) && m@ == note("install.nub.not_found"@)
    }
}

/// What to do about nub. The user's own global nub wins over the installed
/// one, and an installed one with its marker is used as it is.
pub fn ensure_nub(
    host: &Host,
    config: &Config,
    failed_before: bool,
    exe_is_file: bool,
    marker: &Option<String>,
    global_found: bool,
) -> (r: NubPlan)
    ensures
        is_nub_plan(
            r,
            host@,
            config.dsh.pm,
            failed_before,
            exe_is_file,
            marker is Some,
            global_found,
        ),
{
    match ensure_nub_early(config, failed_before) {
        Some(plan) => plan,
        None => if global_found {
            NubPlan::Nothing
        } else if exe_is_file && marker.is_some() {
            let said = Message::with1("install.nub.cached", "dir", nub_root(host).as_str());
            NubPlan::Cached(nub_bin(host), said)
        } else {
            NubPlan::Install(Message::new("install.nub.not_found"))
        },
    }
}

// ---- installation --------------------------------------------------------

/// Where the installation of nub stands.
#[derive(Debug, Clone, Copy, PartialEq, Eq, Structural)]
pub enum NubStage {
    Latest,
    ClearStage,
    MainDownload,
    MainExtract,
    PlatformDownload,
    PlatformExtract,
    LocatePlatform,
    CopyPlatform,
    LocateMain,
    CopyMain,
    Mark,
    CleanUp,
    Done,
    Failed,
}

/// What is to be done at a stage.
#[derive(Debug)]
pub enum NubRequest {
    /// Fetch this small document; it is the answer's text.
    GetText(String),
    /// Remove this directory with all that is in it.
    Remove(String),
    /// Download the address to the file.
    Download(String, String),
    /// Create the directory, run this command under this label, and remove the
    /// file if that went well.
    Extract(String, Cmd, &'static str, String),
    /// Search the directory for a directory of this name; the answer's text is
    /// its path.
    LocateDir(String, &'static str),
    /// Create the second directory and copy the files of the first into it.
    CopyFiles(String, String),
    /// Write the text to the file.
    Write(String, String),
    /// nub is in this directory; what is said.
    Done(String, Message),
    /// nub cannot be installed: it is not tried again in this session.
    Failed(String),
}

/// The installation of nub.
#[derive(Debug)]
pub struct NubInstall {
    pub stage: NubStage,
    pub version: String,
    /// The directory that was found, or why the installation failed.
    pub text: String,
}

/// The stage that follows on an outcome; `named` tells whether the document of
/// the registry names a version.
pub open spec fn next_nub_stage(stage: NubStage, yes: bool, named: bool) -> NubStage {
    match stage {
        NubStage::Latest => if yes && named {
            NubStage::ClearStage
        } else {
            NubStage::Failed
        },
        NubStage::ClearStage => NubStage::MainDownload,
        NubStage::MainDownload => if yes {
            NubStage::MainExtract
        } else {
            NubStage::Failed
        },
        NubStage::MainExtract => if yes {
            NubStage::PlatformDownload
        } else {
            NubStage::Failed
        },
        NubStage::PlatformDownload => if yes {
            NubStage::PlatformExtract
        } else {
            NubStage::Failed
        },
        NubStage::PlatformExtract => if yes {
            NubStage::LocatePlatform
        } else {
            NubStage::Failed
        },
        NubStage::LocatePlatform => if yes {
            NubStage::CopyPlatform
        } else {
            NubStage::Failed
        },
        NubStage::CopyPlatform => if yes {
            NubStage::LocateMain
        } else {
            NubStage::Failed
        },
        NubStage::LocateMain => if yes {
            NubStage::CopyMain
        } else {
            NubStage::Mark
        },
        NubStage::CopyMain => if yes {
            NubStage::Mark
        } else {
            NubStage::Failed
        },
        NubStage::Mark => if yes {
            NubStage::CleanUp
        } else {
            NubStage::Failed
        },
        NubStage::CleanUp => NubStage::Done,
        NubStage::Done => NubStage::Done,
        NubStage::Failed => NubStage::Failed,
    }
}

fn following(stage: NubStage, yes: bool, named: bool) -> (r: NubStage)
    ensures
        r == next_nub_stage(stage, yes, named),
{
    match stage {
        NubStage::ClearStage => NubStage::MainDownload,
        NubStage::LocateMain => if yes {
            NubStage::CopyMain
        } else {
            NubStage::Mark
        },
        NubStage::CleanUp | NubStage::Done => NubStage::Done,
        NubStage::Failed => NubStage::Failed,
        _ => if !yes {
            NubStage::Failed
        } else {
            match stage {
                NubStage::Latest => if named {
                    NubStage::ClearStage
                } else {
                    NubStage::Failed
                },
                NubStage::MainDownload => NubStage::MainExtract,
                NubStage::MainExtract => NubStage::PlatformDownload,
                NubStage::PlatformDownload => NubStage::PlatformExtract,
                NubStage::PlatformExtract => NubStage::LocatePlatform,
                NubStage::LocatePlatform => NubStage::CopyPlatform,
                NubStage::CopyPlatform => NubStage::LocateMain,
                NubStage::CopyMain => NubStage::Mark,
                _ => NubStage::CleanUp,
            }
        },
    }
}

/// The version that is kept after an outcome: the one that the registry names.
pub open spec fn next_nub_version(
    stage: NubStage,
    version: Seq<char>,
    yes: bool,
    text: Seq<char>,
) -> Seq<char> {
    if stage == NubStage::Latest && yes && json_string(text, "version"@) is Some {
        json_string(text, "version"@)->0
    } else {
        version
    }
}

/// The text that is kept after an outcome.
pub open spec fn next_nub_text(
    stage: NubStage,
    kept: Seq<char>,
    yes: bool,
    text: Seq<char>,
) -> Seq<char> {
    match stage {
        NubStage::ClearStage | NubStage::CleanUp | NubStage::Done | NubStage::Failed => kept,
        NubStage::Latest => if !yes {
            text
        } else if json_string(text, "version"@) is None {
            "registry latest response has no version"@
        } else {
            kept
        },
        NubStage::LocatePlatform => if yes {
            text
        } else {
            "platform package has no bin dir"@
        },
        NubStage::LocateMain => if yes {
            text
        } else {
            kept
        },
        _ => if yes {
            kept
        } else {
            text
        },
    }
}

/// Whether a request is the one for a stage.
pub open spec fn is_nub_request(
    r: NubRequest,
    stage: NubStage,
    version: Seq<char>,
    text: Seq<char>,
    host: HostView,
    arch: Seq<char>,
    mirror: MirrorView,
) -> bool {
    match stage {
        NubStage::Latest => r matches NubRequest::GetText(u) && u@ == registry(mirror)
            + "/@nubjs%2Fnub/latest"@,
        NubStage::ClearStage | NubStage::CleanUp => r matches NubRequest::Remove(d) && d@
            == host.nub_stage(),
        NubStage::MainDownload => {
            &&& r matches NubRequest::Download(u, f)
            &&& u@ == tarball(registry(mirror), "@nubjs/nub"@, version)
            &&& f@ == host.nub_tarball()
        },
        NubStage::PlatformDownload => {
            &&& r matches NubRequest::Download(u, f)
            &&& u@ == tarball(registry(mirror), platform_package_text(host.os, arch), version)
            &&& f@ == host.nub_tarball()
        },
        NubStage::MainExtract | NubStage::PlatformExtract => {
            &&& r matches NubRequest::Extract(d, c, label, f)
            &&& d@ == host.nub_extracted()
            &&& c@ == snippet(host.os, extract_script(host.nub_tarball(), host.nub_extracted()))
            &&& label@ == "extract"@
            &&& f@ == host.nub_tarball()
        },
        NubStage::LocatePlatform | NubStage::LocateMain => {
            &&& r matches NubRequest::LocateDir(d, n)
            &&& d@ == host.nub_package()
            &&& n@ == "bin"@
        },
        NubStage::CopyPlatform | NubStage::CopyMain => {
            &&& r matches NubRequest::CopyFiles(from, to)
            &&& from@ == text
            &&& to@ == host.nub_bin()
        },
        NubStage::Mark => {
            &&& r matches NubRequest::Write(f, t)
            &&& f@ == host.nub_marker()
            &&& t@ == version
        },
        NubStage::Done => {
            &&& r matches NubRequest::Done(d, m)
            &&& d@ == host.nub_bin()
            &&& m@ == note1("install.nub.cached"@, "dir"@, host.nub_bin())
        },
        NubStage::Failed => r matches NubRequest::Failed(e) && e@ == text,
    }
}

impl NubInstall {
    /// An installation that has not begun.
    pub fn start() -> (r: NubInstall)
        ensures
            r.stage == NubStage::Latest,
            r.version@ == Seq::<char>::empty(),
            r.text@ == Seq::<char>::empty(),
    {
        NubInstall { stage: NubStage::Latest, version: String::new(), text: String::new() }
    }

    /// What is to be done now.
    pub fn request(&self, host: &Host, arch: &str, mirror: &MirrorConfig) -> (r: NubRequest)
        ensures
            is_nub_request(r, self.stage, self.version@, self.text@, host@, arch@, mirror@),
    {
        match self.stage {
            NubStage::Latest => NubRequest::GetText(
                registry_base(mirror).concat("/@nubjs%2Fnub/latest"),
            ),
            NubStage::ClearStage | NubStage::CleanUp => NubRequest::Remove(nub_stage(host)),
            NubStage::MainDownload => NubRequest::Download(
                tarball_url(mirror, "@nubjs/nub", self.version.as_str()),
                nub_tarball(host),
            ),
            NubStage::PlatformDownload => NubRequest::Download(
                tarball_url(mirror, platform_package(host.os, arch), self.version.as_str()),
                nub_tarball(host),
            ),
            NubStage::MainExtract | NubStage::PlatformExtract => {
                let tgz = nub_tarball(host);
                let out = nub_extracted(host);
                let cmd = extract_command(host.os, tgz.as_str(), out.as_str());
                NubRequest::Extract(out, cmd, "extract", tgz)
            },
            NubStage::LocatePlatform | NubStage::LocateMain => NubRequest::LocateDir(
                nub_package(host),
                "bin",
            ),
            NubStage::CopyPlatform | NubStage::CopyMain => NubRequest::CopyFiles(
                self.text.clone(),
                nub_bin(host),
            ),
            NubStage::Mark => NubRequest::Write(nub_marker(host), self.version.clone()),
            NubStage::Done => {
                let bin = nub_bin(host);
                let said = Message::with1("install.nub.cached", "dir", bin.as_str());
                NubRequest::Done(bin, said)
            },
            NubStage::Failed => NubRequest::Failed(self.text.clone()),
        }
    }

    /// Takes in the outcome of the request.
    pub fn advance(&mut self, answer: &Answer)
        ensures
            final(self).stage == next_nub_stage(
                old(self).stage,
                answer.yes,
                json_string(answer.text@, "version"@) is Some,
            ),
            final(self).version@ == next_nub_version(
                old(self).stage,
                old(self).version@,
                answer.yes,
                answer.text@,
            ),
            final(self).text@ == next_nub_text(
                old(self).stage,
                old(self).text@,
                answer.yes,
                answer.text@,
            ),
    {
        let stage = self.stage;
        let named = extract_json_string(answer.text.as_str(), "version");
        let has_name = named.is_some();
        match stage {
            NubStage::ClearStage | NubStage::CleanUp | NubStage::Done | NubStage::Failed => {},
            NubStage::Latest => if !answer.yes {
                self.text = answer.text.clone();
            } else {
                match named {
                    Some(v) => {
                        self.version = v;
                    },
                    None => {
                        self.text = "registry latest response has no version".to_owned();
                    },
                }
            },
            NubStage::LocatePlatform => {
                self.text = if answer.yes {
                    answer.text.clone()
                } else {
                    "platform package has no bin dir".to_owned()
                };
            },
            NubStage::LocateMain => if answer.yes {
                self.text = answer.text.clone();
            },
            _ => if !answer.yes {
                self.text = answer.text.clone();
            },
        }
        self.stage = following(stage, answer.yes, has_name);
    }
}

// ---- node through nub ----------------------------------------------------

/// A command of nub with the mirrors for node and npm.
pub open spec fn nub_command(nub: Seq<char>, args: Seq<Seq<char>>, mirror: MirrorView) -> CmdView {
    CmdView { envs: mirror.nub_env(), ..plain(nub, args) }
}

/// `nub node install <version>`.
pub fn provision_command(nub: &str, version: &str, mirror: &MirrorConfig) -> (r: Cmd)
    ensures
        r@ == nub_command(nub@, seq!["node"@, "install"@, version@], mirror@),
{
    let mut c = Cmd::new(nub);
    c.arg("node");
    c.arg("install");
    c.arg(version);
    with_env(&mut c, &mirror.nub_env());
    assert(c@ =~= nub_command(nub@, seq!["node"@, "install"@, version@], mirror@));
    c
}

/// `nub node which`.
pub fn which_command(nub: &str, mirror: &MirrorConfig) -> (r: Cmd)
    ensures
        r@ == nub_command(nub@, seq!["node"@, "which"@], mirror@),
{
    let mut c = Cmd::new(nub);
    c.arg("node");
    c.arg("which");
    with_env(&mut c, &mirror.nub_env());
    assert(c@ =~= nub_command(nub@, seq!["node"@, "which"@], mirror@));
    c
}

/// The paths that `nub node which` may have printed: its lines without the
/// white space around them, if it went well.
pub open spec fn printed_paths_of(run: Option<CommandResult>) -> Seq<Seq<char>> {
    match run {
        Some(res) => if res.status == Some(0i32) {
            lines_of(res.stdout@).map_values(|l: Seq<char>| trimmed(l))
        } else {
            seq![]
        },
        None => seq![],
    }
}

/// The paths that `nub node which` may have printed.
pub fn printed_paths(run: &Option<CommandResult>) -> (r: Vec<String>)
    ensures
        views(r@) == printed_paths_of(*run),
{
    let mut out: Vec<String> = Vec::new();
    if let Some(res) = run {
        if res.success() {
            let rows = lines(res.stdout.as_str());
            let ghost want = printed_paths_of(*run);
            let mut i: usize = 0;
            while i < rows.len()
                invariant
                    0 <= i <= rows@.len(),
                    views(rows@) == lines_of(res.stdout@),
                    want == lines_of(res.stdout@).map_values(|l: Seq<char>| trimmed(l)),
                    views(out@) == want.take(i as int),
                decreases rows@.len() - i,
            {
                let ghost before = out@;
                let line = trim(rows[i].as_str());
                assert(views(rows@)[i as int] == rows@[i as int]@);
                assert(want[i as int] == line@);
                out.push(line);
                assert(views(out@) =~= views(before).push(line@));
                i += 1;
                assert(views(out@) =~= want.take(i as int));
            }
            assert(want.take(i as int) =~= want);
            assert(views(out@) =~= want);
            return out;
        }
    }
    assert(views(out@) =~= seq![]);
    out
}

/// The directory of the node that nub provides.
pub open spec fn provided_dir(os: Os, run: Option<CommandResult>, is_file: Seq<bool>) -> Option<
    Seq<char>,
> {
    match first_chosen(printed_paths_of(run), is_file) {
        Some(p) => dir_of(os, p),
        None => None,
    }
}

/// The directory of the node that nub provides: that of the first printed path
/// that is a file. Banner lines are none. Nothing means that provisioning
/// failed, and the caller falls back to the other ways.
pub fn provision_node(os: Os, run: &Option<CommandResult>, is_file: &Vec<bool>) -> (r: Option<
    String,
>)
    ensures
        opt_view(r) == provided_dir(os, *run, is_file@),
{
    match choose_first(&printed_paths(run), is_file) {
        Some(p) => parent(os, p.as_str()),
        None => None,
    }
}

/// The executable of nub to provision node with: in the first of the
/// directories that holds one.
pub fn ensure_nub_with_node(host: &Host, dirs: &Vec<String>, has_nub: &Vec<bool>) -> (r: Option<
    String,
>)
    ensures
        opt_view(r) == (match first_chosen(views(dirs@), has_nub@) {
            Some(dir) => Some(host@.nub_in(dir)),
            None => None,
        }),
{
    match choose_first(dirs, has_nub) {
        Some(dir) => Some(nub_in(host, dir.as_str())),
        None => None,
    }
}

// ---- laws ----------------------------------------------------------------

/// How many stages may follow at most.
pub open spec fn nub_stages_left(stage: NubStage) -> nat {
    match stage {
        NubStage::Latest => 12,
        NubStage::ClearStage => 11,
        NubStage::MainDownload => 10,
        NubStage::MainExtract => 9,
        NubStage::PlatformDownload => 8,
        NubStage::PlatformExtract => 7,
        NubStage::LocatePlatform => 6,
        NubStage::CopyPlatform => 5,
        NubStage::LocateMain => 4,
        NubStage::CopyMain => 3,
        NubStage::Mark => 2,
        NubStage::CleanUp => 1,
        _ => 0,
    }
}

/// The installation always comes to an end, and the marker is written only
/// after the binaries have been copied: it never stands beside a half
/// installation.
pub proof fn nub_installation_ends(stage: NubStage, yes: bool, named: bool)
    ensures
        nub_stages_left(stage) > 0 ==> nub_stages_left(next_nub_stage(stage, yes, named))
            < nub_stages_left(stage),
        next_nub_stage(stage, yes, named) == NubStage::Mark ==> stage == NubStage::LocateMain
            || stage == NubStage::CopyMain,
        next_nub_stage(stage, yes, named) == NubStage::LocateMain ==> stage
            == NubStage::CopyPlatform && yes,
{
}

/// What was asked for and what follows fit together: the tarball that was
/// downloaded is the one that is unpacked, the directory that was found is the
/// one that is copied, and it is copied to where nub is handed out.
pub proof fn nub_steps_fit_together(
    stage: NubStage,
    version: Seq<char>,
    kept: Seq<char>,
    yes: bool,
    text: Seq<char>,
    host: HostView,
    arch: Seq<char>,
    mirror: MirrorView,
    asked: NubRequest,
    next: NubRequest,
)
    requires
        nub_stages_left(stage) > 0,
        is_nub_request(asked, stage, version, kept, host, arch, mirror),
        is_nub_request(
            next,
            next_nub_stage(stage, yes, json_string(text, "version"@) is Some),
            next_nub_version(stage, version, yes, text),
            next_nub_text(stage, kept, yes, text),
            host,
            arch,
            mirror,
        ),
    ensures
        yes ==> (asked matches NubRequest::Download(_, f) ==> (
        next matches NubRequest::Extract(_, _, _, tgz) && tgz@ == f@)),
        asked is LocateDir && yes ==> (next matches NubRequest::CopyFiles(from, to) && from@ == text
            && to@ == host.nub_bin()),
        next matches NubRequest::LocateDir(dir, name) ==> dir@ == host.nub_package() && name@
            == "bin"@,
        next matches NubRequest::Done(dir, _) ==> dir@ == host.nub_bin(),
        asked is Download && !yes ==> (next matches NubRequest::Failed(e) && e@ == text),
        asked is GetText && !yes ==> (next matches NubRequest::Failed(e) && e@ == text),
        asked is Extract && !yes ==> (next matches NubRequest::Failed(e) && e@ == text),
        asked is CopyFiles && !yes ==> (next matches NubRequest::Failed(e) && e@ == text),
        asked is Write && !yes ==> (next matches NubRequest::Failed(e) && e@ == text),
        asked is Write && yes ==> next is Remove,
        asked is Remove ==> next is Download || next is Done,
        next is Failed ==> !yes || asked is GetText,
        next is Done ==> asked is Remove,
        next is Write ==> (asked is LocateDir && !yes) || (asked is CopyFiles && yes),
{
}

/// The release that the registry names is the one that is installed: the first
/// download is its main package, the second that of the platform, and the
/// marker holds its version.
pub proof fn the_named_release_is_installed(
    text: Seq<char>,
    v: Seq<char>,
    kept: Seq<char>,
    host: HostView,
    arch: Seq<char>,
    mirror: MirrorView,
    main: NubRequest,
    platform: NubRequest,
    mark: NubRequest,
)
    requires
        json_string(text, "version"@) == Some(v),
        ({
            let version = next_nub_version(NubStage::Latest, seq![], true, text);
            &&& is_nub_request(main, NubStage::MainDownload, version, kept, host, arch, mirror)
            &&& is_nub_request(
                platform,
                NubStage::PlatformDownload,
                version,
                kept,
                host,
                arch,
                mirror,
            )
            &&& is_nub_request(mark, NubStage::Mark, version, kept, host, arch, mirror)
        }),
    ensures
        next_nub_stage(NubStage::Latest, true, true) == NubStage::ClearStage,
        next_nub_version(NubStage::Latest, seq![], true, text) == v,
        main matches NubRequest::Download(url, _) && url@ == registry(mirror)
            + "/@nubjs/nub/-/nub-"@ + v + ".tgz"@,
        platform matches NubRequest::Download(url, _) && url@ == tarball(
            registry(mirror),
            platform_package_text(host.os, arch),
            v,
        ),
        mark matches NubRequest::Write(f, content) && content@ == v && f@ == host.nub_marker(),
{
    let base = registry(mirror);
    reveal_strlit("@nubjs/nub");
    reveal_strlit("/@nubjs/nub/-/nub-");
    reveal_strlit("/-/");
    reveal_strlit(".tgz");
    let scope = seq!['@', 'n', 'u', 'b', 'j', 's'];
    let name = seq!['n', 'u', 'b'];
    assert("@nubjs/nub"@ =~= scope + seq!['/'] + name);
    a_tarball_is_named_without_its_scope(base, scope, name, v);
    assert("/@nubjs/nub/-/nub-"@ =~= seq!['/'] + scope + seq!['/'] + name + "/-/"@ + name
        + seq!['-']);
    assert(base + seq!['/'] + scope + seq!['/'] + name + "/-/"@ + name + seq!['-'] =~= base
        + "/@nubjs/nub/-/nub-"@);
}

/// A version is kept once it is known.
pub proof fn a_known_version_is_kept(
    stage: NubStage,
    version: Seq<char>,
    yes: bool,
    text: Seq<char>,
)
    ensures
        stage != NubStage::Latest ==> next_nub_version(stage, version, yes, text) == version,
        !yes ==> next_nub_version(stage, version, yes, text) == version,
        next_nub_stage(stage, yes, json_string(text, "version"@) is Some) == NubStage::ClearStage
            ==> json_string(text, "version"@) == Some(
            next_nub_version(stage, version, yes, text),
        ),
{
}

/// Every step leads to the next one where it goes well, and the steps stand in
/// this order.
pub proof fn nub_steps_stand_in_order()
    ensures
        next_nub_stage(NubStage::ClearStage, true, true) == NubStage::MainDownload,
        next_nub_stage(NubStage::ClearStage, false, true) == NubStage::MainDownload,
        next_nub_stage(NubStage::MainDownload, true, true) == NubStage::MainExtract,
        next_nub_stage(NubStage::MainExtract, true, true) == NubStage::PlatformDownload,
        next_nub_stage(NubStage::PlatformDownload, true, true) == NubStage::PlatformExtract,
        next_nub_stage(NubStage::PlatformExtract, true, true) == NubStage::LocatePlatform,
        next_nub_stage(NubStage::LocatePlatform, true, true) == NubStage::CopyPlatform,
        next_nub_stage(NubStage::CopyPlatform, true, true) == NubStage::LocateMain,
        next_nub_stage(NubStage::LocateMain, true, true) == NubStage::CopyMain,
        next_nub_stage(NubStage::LocateMain, false, true) == NubStage::Mark,
        next_nub_stage(NubStage::CopyMain, true, true) == NubStage::Mark,
        next_nub_stage(NubStage::Mark, true, true) == NubStage::CleanUp,
        next_nub_stage(NubStage::CleanUp, true, true) == NubStage::Done,
        next_nub_stage(NubStage::CleanUp, false, true) == NubStage::Done,
{
}

/// A failure ends the installation, but for the removal of what may not be
/// there and the main package, which needs no binaries.
pub proof fn a_failed_step_ends_the_installation(stage: NubStage, named: bool)
    ensures
        nub_stages_left(stage) > 0 ==> (next_nub_stage(stage, false, named) == NubStage::Failed
            <==> stage != NubStage::ClearStage && stage != NubStage::CleanUp && stage
            != NubStage::LocateMain),
        next_nub_stage(NubStage::Latest, true, false) == NubStage::Failed,
        next_nub_stage(stage, true, true) == NubStage::Failed ==> stage == NubStage::Failed,
{
}

/// The package of a platform is named after the system and the machine.
pub proof fn nub_packages_are_named_after_the_platform(arch: Seq<char>)
    ensures
        platform_package_text(Os::Windows, "x86_64"@) == "@nubjs/nub-win32-x64"@,
        arch != "x86_64"@ ==> platform_package_text(Os::Windows, arch) == "@nubjs/nub-win32-arm64"@,
        platform_package_text(Os::Macos, "aarch64"@) == "@nubjs/nub-darwin-arm64"@,
        arch != "aarch64"@ ==> platform_package_text(Os::Macos, arch) == "@nubjs/nub-darwin-x64"@,
        platform_package_text(Os::Linux, "aarch64"@) == "@nubjs/nub-linux-arm64"@,
        arch != "aarch64"@ ==> platform_package_text(Os::Linux, arch) == "@nubjs/nub-linux-x64"@,
{
}

/// Only a run that went well printed paths: its lines, without the white space
/// around them.
pub proof fn only_successful_runs_print_paths(run: CommandResult, paths: Seq<Seq<char>>)
    requires
        paths.len() > 0,
        run.stdout@ == joined(paths.push(seq![]), seq!['\n']),
        forall|i: int|
            0 <= i < paths.len() ==> {
                &&& !(#[trigger] paths[i]).contains('\n')
                &&& !paths[i].contains('\r')
                &&& paths[i].len() > 0
                &&& !is_white(paths[i][0])
                &&& !is_white(paths[i].last())
            },
    ensures
        run.status == Some(0i32) ==> printed_paths_of(Some(run)) == paths,
        run.status != Some(0i32) ==> printed_paths_of(Some(run)).len() == 0,
        printed_paths_of(None).len() == 0,
{
    lines_come_back(paths);
    if run.status == Some(0i32) {
        let rows = printed_paths_of(Some(run));
        assert forall|i: int| 0 <= i < paths.len() implies #[trigger] rows[i] == paths[i] by {
            let none = Seq::<char>::empty();
            white_space_around_a_text_is_trimmed(none, paths[i], none);
            assert(lines_of(run.stdout@)[i] == paths[i]);
        }
        assert(rows =~= paths);
    }
}

/// nub gets the mirrors for node and for packages, and its arguments as they
/// are.
pub proof fn nub_gets_the_mirrors(nub: Seq<char>, args: Seq<Seq<char>>, mirror: MirrorView)
    ensures
        nub_command(nub, args, mirror).program == nub,
        nub_command(nub, args, mirror).args == args,
        nub_command(nub, args, mirror).envs == mirror.nub_env(),
        nub_command(nub, args, mirror).cwd is None,
{
}

/// On Unix nub lives inside the cache directory.
pub proof fn nub_lives_inside_the_cache(host: HostView)
    requires
        host.os != Os::Windows,
        host.cache_dir().len() > 0,
        host.cache_dir().last() != '/',
    ensures
        host.nub_root() == host.cache_dir() + "/dshl/nub"@,
        host.nub_in(host.nub_bin()) == host.nub_root() + "/bin/nub"@,
        host.nub_marker() == host.nub_root() + "/nub.version"@,
        host.nub_stage() == host.nub_root() + "/.stage"@,
        host.nub_tarball() == host.nub_stage() + "/pkg.tgz"@,
        host.nub_package() == host.nub_stage() + "/extracted/package"@,
{
    let os = host.os;
    let cache = host.cache_dir();
    reveal_strlit("");
    reveal_strlit("dshl");
    reveal_strlit("nub");
    reveal_strlit("bin");
    reveal_strlit("nub.version");
    reveal_strlit(".stage");
    reveal_strlit("pkg.tgz");
    reveal_strlit("extracted");
    reveal_strlit("package");
    reveal_strlit("/dshl/nub");
    reveal_strlit("/bin/nub");
    reveal_strlit("/nub.version");
    reveal_strlit("/.stage");
    reveal_strlit("/pkg.tgz");
    reveal_strlit("/extracted/package");
    assert("nub"@ + ext_text(os) =~= "nub"@);
    unix_paths_are_joined_by_one_slash(os, cache, "dshl"@);
    let own = path_in(os, cache, "dshl"@);
    assert(own.last() == 'l');
    unix_paths_are_joined_by_one_slash(os, own, "nub"@);
    let root = host.nub_root();
    assert(root =~= cache + "/dshl/nub"@);
    unix_paths_are_joined_by_one_slash(os, root, "bin"@);
    assert(host.nub_bin().last() == 'n');
    unix_paths_are_joined_by_one_slash(os, host.nub_bin(), "nub"@);
    assert(host.nub_in(host.nub_bin()) =~= root + "/bin/nub"@);
    unix_paths_are_joined_by_one_slash(os, root, "nub.version"@);
    assert(host.nub_marker() =~= root + "/nub.version"@);
    unix_paths_are_joined_by_one_slash(os, root, ".stage"@);
    let stage = host.nub_stage();
    assert(stage =~= root + "/.stage"@);
    unix_paths_are_joined_by_one_slash(os, stage, "pkg.tgz"@);
    assert(host.nub_tarball() =~= stage + "/pkg.tgz"@);
    unix_paths_are_joined_by_one_slash(os, stage, "extracted"@);
    assert(host.nub_extracted().last() == 'd');
    unix_paths_are_joined_by_one_slash(os, host.nub_extracted(), "package"@);
    assert(host.nub_package() =~= stage + "/extracted/package"@);
}

/// Nub is left alone where it is not the package manager, failed before or is
/// the user's own; an earlier installation is used only with its marker, and
/// otherwise nub is installed.
pub proof fn a_whole_installation_of_nub_is_used(
    r: NubPlan,
    host: HostView,
    pm: Pm,
    failed_before: bool,
    exe_is_file: bool,
    marked: bool,
    global_found: bool,
)
    requires
        is_nub_plan(r, host, pm, failed_before, exe_is_file, marked, global_found),
    ensures
        r is Nothing <==> pm != Pm::Nub || failed_before || global_found,
        r is Cached <==> pm == Pm::Nub && !failed_before && !global_found && exe_is_file && marked,
        r is Install <==> pm == Pm::Nub && !failed_before && !global_found && !(exe_is_file
            && marked),
        r matches NubPlan::Cached(dir, _) ==> dir@ == host.nub_bin(),
        nub_is_left_alone(pm, failed_before) <==> pm != Pm::Nub || failed_before,
{
}

/// The marker of an installation holds its version, with white space around it
/// or without; a blank one marks nothing.
pub proof fn a_marker_holds_its_version(before: Seq<char>, version: Seq<char>, after: Seq<char>)
    requires
        all_white(before),
        all_white(after),
        version.len() > 0 ==> !is_white(version[0]) && !is_white(version.last()),
    ensures
        marked_version(Some(before + version + after)) == (if version.len() > 0 {
            Some(version)
        } else {
            None
        }),
        marked_version(None) is None,
{
    white_space_around_a_text_is_trimmed(before, version, after);
}

/// The node that nub provides is in the directory of the first printed path
/// that is a file.
pub proof fn nub_provides_the_first_file(
    os: Os,
    run: CommandResult,
    is_file: Seq<bool>,
    i: int,
)
    requires
        is_file.len() == printed_paths_of(Some(run)).len(),
        0 <= i < is_file.len(),
    ensures
        is_file[i] && (forall|j: int| 0 <= j < i ==> !#[trigger] is_file[j]) ==> provided_dir(
            os,
            Some(run),
            is_file,
        ) == dir_of(os, printed_paths_of(Some(run))[i]),
        (forall|j: int| 0 <= j < is_file.len() ==> !#[trigger] is_file[j]) ==> provided_dir(
            os,
            Some(run),
            is_file,
        ) is None,
        run.status != Some(0i32) ==> provided_dir(os, Some(run), is_file) is None,
        provided_dir(os, None, is_file) is None,
{
    the_first_runnable_path_is_found(printed_paths_of(Some(run)), is_file, i);
}

/// The release is asked of the registry, and an archive is unpacked from where
/// it was downloaded to into a directory of its own.
pub proof fn nub_is_asked_of_the_registry(
    r: NubRequest,
    stage: NubStage,
    version: Seq<char>,
    text: Seq<char>,
    host: HostView,
    arch: Seq<char>,
    mirror: MirrorView,
)
    requires
        is_nub_request(r, stage, version, text, host, arch, mirror),
        !host.nub_tarball().contains('"'),
        !host.nub_extracted().contains('"'),
    ensures
        stage == NubStage::Latest ==> (r matches NubRequest::GetText(u) && u@ == registry(mirror)
            + "/@nubjs%2Fnub/latest"@),
        stage == NubStage::MainExtract || stage == NubStage::PlatformExtract ==> (
        r matches NubRequest::Extract(d, c, label, f) && label@ == "extract"@ && split_on(
            c@.args.last(),
            '"',
        )[1] == f@ && split_on(c@.args.last(), '"')[3] == d@),
        stage == NubStage::ClearStage || stage == NubStage::CleanUp ==> (
        r matches NubRequest::Remove(d) && d@ == host.nub_stage()),
{
    let tgz = host.nub_tarball();
    let dir = host.nub_extracted();
    downloads_name_their_files(tgz, tgz, tgz, dir);
    a_snippet_is_one_argument(host.os, extract_script(tgz, dir));
}

} // verus!
