//! The fourth flow: make sure `dsh` is available and build its launch command.
//!
//! dsh is a node script: it is always launched from an installed copy, either
//! the user's global `dsh` (in `hybrid`/`global` mode) or dshl's private cache
//! install.

use vstd::prelude::*;
use vstd::string::*;
use crate::config::{is_latest, latest, package_of, Dsh, DshMode, MirrorMode, Pm};
use crate::install::runtime::{
    can_be_listed, extended_path, prepend_path, resolved_directories_come_first, Runtime, RuntimeView,
};
use crate::message::{note, note1, note2, notes, Message, MessageView};
use crate::mirror::{MirrorConfig, MirrorView};
use crate::platform::path::unix_paths_are_joined_by_one_slash;
use crate::platform::paths::{ext_text, path_in, path_in2, path_in3, with_ext, Host, HostView};
use crate::platform::{cache_dir, join, Os};
use crate::probe::Tool;
use crate::process::command::{plain, with_env, Cmd, CmdView};
use crate::process::CommandResult;
use crate::text::{
    all_white, dec, decimal, decimal_comes_back, extend, is_digit, is_white, opt_view, same, split_on,
    trim, trimmed, views, white_space_around_a_text_is_trimmed,
};
use crate::version::{
    full_less, full_text, is_ident_char, is_version, read_full, version_comes_back, FullVersion,
    FullVersionView,
};

pub use crate::flow::args::split_args;

verus! {

pub open spec fn pm_text(pm: Pm) -> Seq<char> {
    match pm {
        Pm::Npm => "npm"@,
        Pm::Bun => "bun"@,
        Pm::Pnpm => "pnpm"@,
        Pm::Nub => "nub"@,
    }
}

/// The executable of a package manager.
pub fn pm_name(pm: Pm) -> (r: &'static str)
    ensures
        r@ == pm_text(pm),
{
    match pm {
        Pm::Npm => "npm",
        Pm::Bun => "bun",
        Pm::Pnpm => "pnpm",
        Pm::Nub => "nub",
    }
}

// ---- versions ------------------------------------------------------------

/// Whether an installed version, as printed, satisfies a wanted one. What
/// cannot be read as a version is no reason to refuse what is installed.
pub open spec fn version_ok(raw: Seq<char>, wanted: Seq<char>) -> bool {
    is_latest(wanted) || match read_full(raw) {
        None => false,
        Some(installed) => match read_full(wanted) {
            None => true,
            Some(w) => installed == w,
        },
    }
}

/// Does the installed dsh satisfy the configured version requirement?
///
/// Compared as full semantic versions (pre-release included), so
/// `0.1.0-rc.6` is distinct from `0.1.0-rc.5` and from `0.1.0`.
pub fn dsh_version_ok(tool: &Tool, wanted: &str) -> (r: bool)
    ensures
        r == version_ok(tool.raw@, wanted@),
{
    if latest(wanted) {
        return true;
    }
    match FullVersion::parse(tool.raw.as_str()) {
        None => false,
        Some(installed) => match FullVersion::parse(wanted) {
            None => true,
            Some(w) => installed.same(&w),
        },
    }
}

/// Whether the cache has to be refreshed to reach a target.
pub open spec fn needs_install(cached: Option<FullVersionView>, target: Seq<char>) -> bool {
    match cached {
        None => true,
        Some(v) => !is_latest(target) && match read_full(target) {
            None => false,
            Some(wanted) => v != wanted,
        },
    }
}

pub open spec fn version_view(v: Option<FullVersion>) -> Option<FullVersionView> {
    match v {
        Some(v) => Some(v@),
        None => None,
    }
}

/// Should the cache install be refreshed to reach `target`?
///
/// * target `latest`: any usable cache entry passes; re-installing on every
///   start would hit the network each launch.
/// * pinned target: refresh unless the cached version equals it exactly.
pub fn cache_needs_install(cached: Option<&FullVersion>, target: &str) -> (r: bool)
    ensures
        r == needs_install(
            match cached {
                Some(v) => Some(v@),
                None => None,
            },
            target@,
        ),
{
    match cached {
        None => true,
        Some(v) => if latest(target) {
            false
        } else {
            match FullVersion::parse(target) {
                // Can't parse the request; keep what we have rather than churn.
                None => false,
                Some(wanted) => !v.same(&wanted),
            }
        },
    }
}

/// The version to aim at: a pinned one, or the latest release where it was
/// looked for and found.
pub open spec fn target_of(dsh: Dsh, latest: Option<FullVersionView>) -> Seq<char> {
    if !is_latest(dsh.version@) {
        dsh.version@
    } else {
        match latest {
            Some(v) => if dsh.auto_update {
                full_text(v)
            } else {
                "latest"@
            },
            None => "latest"@,
        }
    }
}

/// Whether the latest release is to be looked for.
pub fn wants_query(dsh: &Dsh) -> (r: bool)
    ensures
        r == (is_latest(dsh.version@) && dsh.auto_update),
{
    dsh.wants_latest() && dsh.auto_update
}

/// The version to aim at, given the latest release, if it is known.
pub fn resolve_target(dsh: &Dsh, latest: &Option<FullVersion>) -> (r: String)
    ensures
        r@ == target_of(*dsh, version_view(*latest)),
{
    if !dsh.wants_latest() {
        return dsh.version.clone();
    }
    match latest {
        Some(v) => if dsh.auto_update {
            v.to_text()
        } else {
            "latest".to_owned()
        },
        None => "latest".to_owned(),
    }
}

/// The package spec of a target version.
pub fn install_spec(target: &str) -> (r: String)
    ensures
        r@ == package_of(target@),
{
    if latest(target) {
        "@deepseek-ai/dsh".to_owned()
    } else {
        "@deepseek-ai/dsh@".to_owned().concat(target)
    }
}

// ---- the latest release --------------------------------------------------

/// How long the query for the latest release may take, in seconds: a slow or
/// offline registry never stalls the start.
pub const QUERY_TIMEOUT: u64 = 5;

pub open spec fn query_tool_text(pm: Pm) -> Seq<char> {
    match pm {
        Pm::Npm | Pm::Bun => "npm"@,
        Pm::Nub => "nub"@,
        Pm::Pnpm => "pnpm"@,
    }
}

/// The tool that queries the registry. bun has no reliable `view` outside a
/// project directory, so npm is used there: it ships with node and reads the
/// same user npmrc as bun.
pub fn query_tool(pm: Pm) -> (r: &'static str)
    ensures
        r@ == query_tool_text(pm),
{
    match pm {
        Pm::Npm | Pm::Bun => "npm",
        Pm::Nub => "nub",
        Pm::Pnpm => "pnpm",
    }
}

pub open spec fn query_of(
    program: Seq<char>,
    host: HostView,
    mirror: MirrorView,
    runtime: RuntimeView,
) -> CmdView {
    CmdView {
        envs: seq![("PATH"@, extended_path(host.os, runtime.path_prefix(), host.path))]
            + mirror.npm_env(),
        ..plain(program, seq!["view"@, "@deepseek-ai/dsh"@, "version"@])
    }
}

/// The command that queries the latest published version; `program` is what
/// the [`query_tool`] is started as.
pub fn query_command(program: &str, host: &Host, mirror: &MirrorConfig, runtime: &Runtime) -> (r:
    Cmd)
    ensures
        r@ == query_of(program@, host@, mirror@, runtime@),
{
    let mut c = Cmd::new(program);
    c.arg("view");
    c.arg("@deepseek-ai/dsh");
    c.arg("version");
    c.env("PATH", runtime.augmented_path(host).as_str());
    with_env(&mut c, &mirror.npm_env());
    assert(c@ =~= query_of(program@, host@, mirror@, runtime@));
    c
}

/// The version that a query printed, where it went well.
pub open spec fn printed_release(run: Option<CommandResult>) -> Option<FullVersionView> {
    match run {
        Some(res) => if res.status == Some(0i32) {
            read_full(trimmed(res.stdout@))
        } else {
            None
        },
        None => None,
    }
}

/// The latest published version, given what came of the query. Nothing on any
/// failure.
pub fn query_latest_version(run: &Option<CommandResult>) -> (r: Option<FullVersion>)
    ensures
        version_view(r) == printed_release(*run),
{
    match run {
        Some(res) => if res.success() {
            FullVersion::parse(trim(res.stdout.as_str()).as_str())
        } else {
            None
        },
        None => None,
    }
}

// ---- the global dsh ------------------------------------------------------

/// The user's global `dsh`: the one on the ambient `PATH`, or else the one in
/// the runtime prefix.
pub fn probe_global(ambient: Tool, in_prefix: Tool) -> (r: Tool)
    ensures
        r == (if ambient.found {
            ambient
        } else {
            in_prefix
        }),
{
    if ambient.found {
        ambient
    } else {
        in_prefix
    }
}

pub open spec fn src_key(global: bool) -> Seq<char> {
    if global {
        "flow.prepare.src_global"@
    } else {
        "flow.prepare.src_cache"@
    }
}

/// The key of the label for *which* dsh a decision log line talks about (the
/// user's global one vs. dshl's cache install): without it, hybrid-mode
/// timelines read as two contradictory statements about one dsh.
pub fn src_label(global: bool) -> (r: &'static str)
    ensures
        r@ == src_key(global),
{
    if global {
        "flow.prepare.src_global"
    } else {
        "flow.prepare.src_cache"
    }
}

pub open spec fn installed_note(global: bool, installed: Seq<char>) -> MessageView {
    note2("flow.prepare.installed"@, "source"@, src_key(global), "installed"@, installed)
}

pub open spec fn not_installed_note(global: bool) -> MessageView {
    note1("flow.prepare.not_installed"@, "source"@, src_key(global))
}

pub open spec fn mismatch_note(global: bool, wanted: Seq<char>, current: Seq<char>) -> MessageView {
    MessageView {
        key: "flow.prepare.version_mismatch"@,
        args: seq![("source"@, src_key(global)), ("wanted"@, wanted), ("current"@, current)],
    }
}

/// Whether the installed version, as printed, is the target or a later one.
pub open spec fn up_to_date(raw: Seq<char>, target: Seq<char>) -> bool {
    match (read_full(raw), read_full(target)) {
        (Some(installed), Some(newest)) => !full_less(installed, newest),
        _ => false,
    }
}

/// In hybrid mode, whether the global dsh is used.
///
/// A pinned version takes it only when it matches. Without one it is kept
/// where updates are off or the latest release is unknown, and otherwise used
/// only if it is up to date, so that a stale one is not run forever.
pub open spec fn uses_global(dsh: Dsh, target: Seq<char>, found: bool, raw: Seq<char>) -> bool {
    found && if !is_latest(dsh.version@) {
        version_ok(raw, dsh.version@)
    } else {
        !dsh.auto_update || target == "latest"@ || up_to_date(raw, target)
    }
}

/// What is said about the decision.
pub open spec fn hybrid_note(
    dsh: Dsh,
    target: Seq<char>,
    found: bool,
    raw: Seq<char>,
) -> MessageView {
    if !found {
        not_installed_note(true)
    } else if !is_latest(dsh.version@) {
        if version_ok(raw, dsh.version@) {
            installed_note(true, trimmed(raw))
        } else {
            mismatch_note(true, dsh.version@, trimmed(raw))
        }
    } else if !dsh.auto_update || target == "latest"@ {
        installed_note(true, trimmed(raw))
    } else if up_to_date(raw, target) {
        note2(
            "flow.prepare.up_to_date"@,
            "source"@,
            src_key(true),
            "installed"@,
            full_text(read_full(raw)->0),
        )
    } else {
        MessageView {
            key: "flow.prepare.updating"@,
            args: seq![
                ("source"@, src_key(true)),
                ("current"@, trimmed(raw)),
                ("latest"@, target),
            ],
        }
    }
}

/// Hybrid mode: use the global dsh when it satisfies `version`, else fall
/// back to a cache install. Also says why.
pub fn hybrid_use_global(dsh: &Dsh, target: &str, tool: &Tool) -> (r: (bool, Message))
    ensures
        r.0 == uses_global(*dsh, target@, tool.found, tool.raw@),
        r.1@ == hybrid_note(*dsh, target@, tool.found, tool.raw@),
{
    if !tool.found {
        return (
            false,
            Message::with1("flow.prepare.not_installed", "source", src_label(true)),
        );
    }
    let src = src_label(true);
    let raw = trim(tool.raw.as_str());
    if !dsh.wants_latest() {
        if dsh_version_ok(tool, dsh.version.as_str()) {
            return (
                true,
                Message::with2("flow.prepare.installed", "source", src, "installed", raw.as_str()),
            );
        }
        let m = Message::with2(
            "flow.prepare.version_mismatch",
            "source",
            src,
            "wanted",
            dsh.version.as_str(),
        ).with("current", raw.as_str());
        assert(m@ =~= mismatch_note(true, dsh.version@, raw@));
        return (false, m);
    }
    if !dsh.auto_update || same(target, "latest") {
        return (
            true,
            Message::with2("flow.prepare.installed", "source", src, "installed", raw.as_str()),
        );
    }
    match (FullVersion::parse(tool.raw.as_str()), FullVersion::parse(target)) {
        (Some(installed), Some(newest)) => {
            if !installed.less(&newest) {
                return (
                    true,
                    Message::with2(
                        "flow.prepare.up_to_date",
                        "source",
                        src,
                        "installed",
                        installed.to_text().as_str(),
                    ),
                );
            }
        },
        _ => {},
    }
    let m = Message::with2("flow.prepare.updating", "source", src, "current", raw.as_str()).with(
        "latest",
        target,
    );
    assert(m@ =~= hybrid_note(*dsh, target@, tool.found, tool.raw@));
    (false, m)
}

// ---- the cache install ---------------------------------------------------

impl HostView {
    pub open spec fn dsh_dir(self) -> Seq<char> {
        path_in(self.os, self.cache_dir(), "dshl"@)
    }

    pub open spec fn dsh_bin_dir(self) -> Seq<char> {
        path_in2(self.os, self.dsh_dir(), "node_modules"@, ".bin"@)
    }

    pub open spec fn dsh_pkg_dir(self) -> Seq<char> {
        path_in3(self.os, self.dsh_dir(), "node_modules"@, "@deepseek-ai"@, "dsh"@)
    }
}

/// dshl's cache install of dsh: `<cache>/dshl`. dsh is a node module, so the
/// install drops it straight into `<cache>/dshl/node_modules`: no extra
/// per-version directory and no touch of the user's global environment or
/// PATH. There is deliberately no version isolation: one dsh kernel per
/// machine is enough.
pub fn dsh_dir(host: &Host) -> (r: String)
    ensures
        r@ == host@.dsh_dir(),
{
    join(host.os, cache_dir(host).as_str(), "dshl")
}

/// The `.bin` dir of the cache install (holds `dsh`, `dsh.cmd`, ...).
pub fn dsh_bin_dir(host: &Host) -> (r: String)
    ensures
        r@ == host@.dsh_bin_dir(),
{
    join(host.os, join(host.os, dsh_dir(host).as_str(), "node_modules").as_str(), ".bin")
}

/// The `@deepseek-ai/dsh` package directory inside the cache install.
pub fn dsh_pkg_dir(host: &Host) -> (r: String)
    ensures
        r@ == host@.dsh_pkg_dir(),
{
    let modules = join(host.os, dsh_dir(host).as_str(), "node_modules");
    join(host.os, join(host.os, modules.as_str(), "@deepseek-ai").as_str(), "dsh")
}

// ---- manifests -----------------------------------------------------------

/// A member of a JSON object.
#[derive(Debug)]
pub enum Member {
    /// A string.
    Text(String),
    /// An object: its members in the order of the parser, with their value
    /// where it is a string.
    Table(Vec<(String, Option<String>)>),
    /// Anything else.
    Other,
}

/// A member as plain texts.
pub enum MemberView {
    Text(Seq<char>),
    Table(Seq<(Seq<char>, Option<Seq<char>>)>),
    Other,
}

/// The contents of the members of an object.
pub open spec fn table_views(list: Seq<(String, Option<String>)>) -> Seq<
    (Seq<char>, Option<Seq<char>>),
> {
    list.map_values(|p: (String, Option<String>)| (p.0@, opt_view(p.1)))
}

impl View for Member {
    type V = MemberView;

    open spec fn view(&self) -> MemberView {
        match self {
            Member::Text(s) => MemberView::Text(s@),
            Member::Table(t) => MemberView::Table(table_views(t@)),
            Member::Other => MemberView::Other,
        }
    }
}

pub open spec fn member_view(m: Option<Member>) -> Option<MemberView> {
    match m {
        Some(m) => Some(m@),
        None => None,
    }
}

/// The member `key` of the object that a JSON text stands for: nothing where
/// the text is no JSON, no object or has no such member.
pub uninterp spec fn json_member_of(text: Seq<char>, key: Seq<char>) -> Option<MemberView>;

/// `serde_json::from_str`, and `get` on the value that it gives.
///
/// The result is a function of the two texts, named by [`json_member_of`].
/// What a JSON text stands for, and the order in which the members of an
/// object come, is left to serde_json.
#[verifier::external_body]
fn json_member(text: &str, key: &str) -> (r: Option<Member>)
    ensures
        member_view(r) == json_member_of(text@, key@),
{
    let json: serde_json::Value = serde_json::from_str(text).ok()?;
    Some(match json.get(key)? {
        serde_json::Value::String(s) => Member::Text(s.clone()),
        serde_json::Value::Object(map) => Member::Table(
            map.iter().map(|(k, v)| (k.clone(), v.as_str().map(str::to_string))).collect(),
        ),
        _ => Member::Other,
    })
}

/// The string member `key` of an object, the first of that name.
pub open spec fn table_text(
    table: Seq<(Seq<char>, Option<Seq<char>>)>,
    key: Seq<char>,
    from: int,
) -> Option<Seq<char>>
    decreases table.len() - from,
{
    if from < 0 || from >= table.len() {
        None
    } else if table[from].0 == key {
        table[from].1
    } else {
        table_text(table, key, from + 1)
    }
}

/// The first string among the members of an object.
pub open spec fn first_text(
    table: Seq<(Seq<char>, Option<Seq<char>>)>,
    from: int,
) -> Option<Seq<char>>
    decreases table.len() - from,
{
    if from < 0 || from >= table.len() {
        None
    } else if table[from].1 is Some {
        table[from].1
    } else {
        first_text(table, from + 1)
    }
}

/// The file that the `bin` member of a manifest names: itself, or its member
/// `dsh`, or else its first member that is a string.
pub open spec fn bin_text(member: MemberView) -> Option<Seq<char>> {
    match member {
        MemberView::Text(s) => Some(s),
        MemberView::Table(t) => match table_text(t, "dsh"@, 0) {
            Some(s) => Some(s),
            None => first_text(t, 0),
        },
        MemberView::Other => None,
    }
}

fn copy_text(s: &Option<String>) -> (r: Option<String>)
    ensures
        opt_view(r) == opt_view(*s),
{
    match s {
        Some(s) => Some(s.clone()),
        None => None,
    }
}

/// The file that the `bin` member of a manifest names.
pub fn choose_bin(member: &Member) -> (r: Option<String>)
    ensures
        opt_view(r) == bin_text(member@),
{
    match member {
        Member::Text(s) => Some(s.clone()),
        Member::Other => None,
        Member::Table(t) => {
            let ghost all = table_views(t@);
            let mut i: usize = 0;
            while i < t.len() && !same(t[i].0.as_str(), "dsh")
                invariant
                    0 <= i <= t@.len(),
                    all == table_views(t@),
                    table_text(all, "dsh"@, 0) == table_text(all, "dsh"@, i as int),
                decreases t@.len() - i,
            {
                assert(all[i as int].0 == t@[i as int].0@);
                i += 1;
            }
            if i < t.len() {
                assert(all[i as int] == (t@[i as int].0@, opt_view(t@[i as int].1)));
                let named = copy_text(&t[i].1);
                if named.is_some() {
                    return named;
                }
            }
            assert(table_text(all, "dsh"@, 0) is None);
            let mut j: usize = 0;
            while j < t.len() && t[j].1.is_none()
                invariant
                    0 <= j <= t@.len(),
                    all == table_views(t@),
                    first_text(all, 0) == first_text(all, j as int),
                decreases t@.len() - j,
            {
                assert(all[j as int].1 == opt_view(t@[j as int].1));
                j += 1;
            }
            if j < t.len() {
                assert(all[j as int].1 == opt_view(t@[j as int].1));
                copy_text(&t[j].1)
            } else {
                None
            }
        },
    }
}

/// The file that a manifest names as its executable.
pub open spec fn manifest_bin(manifest: Seq<char>) -> Option<Seq<char>> {
    match json_member_of(manifest, "bin"@) {
        Some(m) => bin_text(m),
        None => None,
    }
}

/// The `bin` entry of an npm package in the directory `pkg`, out of the text
/// of its `package.json`. This is the file `node` runs (e.g. `lib/bin.js`).
///
/// There is deliberately no fallback: a missing or malformed manifest must be
/// an install failure, not a guess.
pub fn package_entry(os: Os, pkg: &str, manifest: &Option<String>) -> (r: Option<String>)
    ensures
        opt_view(r) == (match manifest {
            Some(text) => match manifest_bin(text@) {
                Some(file) => Some(path_in(os, pkg@, file)),
                None => None,
            },
            None => None,
        }),
{
    match manifest {
        None => None,
        Some(text) => match json_member(text.as_str(), "bin") {
            None => None,
            Some(member) => match choose_bin(&member) {
                Some(file) => Some(join(os, pkg, file.as_str())),
                None => None,
            },
        },
    }
}

/// The version that a `version` member stands for.
pub fn member_version(member: &Option<Member>) -> (r: Option<FullVersion>)
    ensures
        version_view(r) == (match member_view(*member) {
            Some(MemberView::Text(s)) => read_full(s),
            _ => None,
        }),
{
    match member {
        Some(Member::Text(s)) => FullVersion::parse(s.as_str()),
        _ => None,
    }
}

/// The version of the dsh package in the cache, out of the text of its
/// `package.json`. `None` when the cache holds no parseable dsh.
pub fn cached_dsh_version(manifest: &Option<String>) -> (r: Option<FullVersion>)
    ensures
        version_view(r) == (match manifest {
            Some(text) => match json_member_of(text@, "version"@) {
                Some(MemberView::Text(s)) => read_full(s),
                _ => None,
            },
            None => None,
        }),
{
    match manifest {
        None => None,
        Some(text) => {
            let member = json_member(text.as_str(), "version");
            member_version(&member)
        },
    }
}

// ---- installing ----------------------------------------------------------

/// The manifest that pins an install to the cache directory. Without one, bun
/// and pnpm walk up looking for the nearest project root, and dsh lands in
/// whatever `package.json` is above.
pub const CACHE_MANIFEST: &'static str =
    "{\n  \"name\": \"dshl-cache\",\n  \"private\": true,\n  \"dependencies\": {}\n}\n";

impl HostView {
    /// The manifest of the cache directory.
    pub open spec fn cache_manifest(self) -> Seq<char> {
        path_in(self.os, self.dsh_dir(), "package.json"@)
    }
}

/// The manifest of the cache directory.
pub fn cache_manifest(host: &Host) -> (r: String)
    ensures
        r@ == host@.cache_manifest(),
{
    join(host.os, dsh_dir(host).as_str(), "package.json")
}

/// What is written before an install, given whether the [`cache_manifest`] is
/// a file: the path and the content of a missing manifest. One that is there
/// stays as it is.
pub fn missing_manifest(host: &Host, is_file: bool) -> (r: Option<(String, &'static str)>)
    ensures
        match r {
            Some((path, content)) => !is_file && path@ == host@.cache_manifest() && content@
                == CACHE_MANIFEST@,
            None => is_file,
        },
{
    if is_file {
        None
    } else {
        Some((cache_manifest(host), CACHE_MANIFEST))
    }
}

/// The error when the manifest cannot be written.
pub fn manifest_failed(host: &Host, err: &str) -> (r: Message)
    ensures
        r@ == note2(
            "flow.prepare.cache_manifest_failed"@,
            "path"@,
            host@.cache_manifest(),
            "err"@,
            err@,
        ),
{
    Message::with2(
        "flow.prepare.cache_manifest_failed",
        "path",
        cache_manifest(host).as_str(),
        "err",
        err,
    )
}

/// What is said when dsh is installed.
pub fn installing_note(host: &Host, pm: Pm, spec_text: &str) -> (r: Message)
    ensures
        r@ == (MessageView {
            key: "flow.prepare.installing"@,
            args: seq![
                ("spec"@, spec_text@),
                ("pm"@, pm_text(pm)),
                ("dir"@, host@.dsh_dir()),
            ],
        }),
{
    let r = Message::with2("flow.prepare.installing", "spec", spec_text, "pm", pm_name(pm)).with(
        "dir",
        dsh_dir(host).as_str(),
    );
    assert(r@.args =~= seq![
        ("spec"@, spec_text@),
        ("pm"@, pm_text(pm)),
        ("dir"@, host@.dsh_dir()),
    ]);
    r
}

/// The arguments with which a package manager installs into a directory. nub
/// has no flag for the directory.
pub open spec fn install_args(pm: Pm, dir: Seq<char>, package: Seq<char>) -> Seq<Seq<char>> {
    match pm {
        Pm::Npm => seq!["install"@, "--prefix"@, dir, "--no-save"@, package],
        Pm::Bun => seq!["add"@, "--cwd"@, dir, package],
        Pm::Pnpm => seq!["add"@, "--dir"@, dir, package],
        Pm::Nub => seq!["add"@, package],
    }
}

/// The installation of a package into the cache directory, never globally.
pub open spec fn install_of(
    pm: Pm,
    program: Seq<char>,
    package: Seq<char>,
    host: HostView,
    mirror: MirrorView,
    runtime: RuntimeView,
) -> CmdView {
    CmdView {
        program,
        args: install_args(pm, host.dsh_dir(), package),
        envs: seq![("PATH"@, extended_path(host.os, runtime.path_prefix(), host.path))]
            + mirror.npm_env(),
        cwd: if pm == Pm::Nub {
            Some(host.dsh_dir())
        } else {
            None
        },
    }
}

/// The command that installs a package of dsh into the cache dir (never `-g`,
/// which would pollute the user's global `node_modules` / PATH); `program` is
/// what the package manager is started as.
pub fn install_dsh(
    pm: Pm,
    program: &str,
    package: &str,
    host: &Host,
    mirror: &MirrorConfig,
    runtime: &Runtime,
) -> (r: Cmd)
    ensures
        r@ == install_of(pm, program@, package@, host@, mirror@, runtime@),
{
    let dir = dsh_dir(host);
    let d = dir.as_str();
    let mut c = Cmd::new(program);
    match pm {
        Pm::Npm => {
            c.arg("install");
            c.arg("--prefix");
            c.arg(d);
            c.arg("--no-save");
            c.arg(package);
        },
        Pm::Bun => {
            c.arg("add");
            c.arg("--cwd");
            c.arg(d);
            c.arg(package);
        },
        Pm::Pnpm => {
            c.arg("add");
            c.arg("--dir");
            c.arg(d);
            c.arg(package);
        },
        Pm::Nub => {
            c.arg("add");
            c.arg(package);
            c.current_dir(d);
        },
    }
    c.env("PATH", runtime.augmented_path(host).as_str());
    with_env(&mut c, &mirror.npm_env());
    assert(c@ =~= install_of(pm, program@, package@, host@, mirror@, runtime@));
    c
}

// ---- launching -----------------------------------------------------------

/// What the global dsh is started as.
pub open spec fn global_path(
    os: Os,
    ambient: Option<Seq<char>>,
    in_prefix: Option<Seq<char>>,
) -> Seq<char> {
    match ambient {
        Some(p) => p,
        None => match in_prefix {
            Some(p) => p,
            None => "dsh"@ + ext_text(os),
        },
    }
}

/// What the global dsh is started as: the one on the ambient `PATH`, the one in
/// the runtime prefix, or its bare name.
pub fn global_program(os: Os, ambient: Option<String>, in_prefix: Option<String>) -> (r: String)
    ensures
        r@ == global_path(os, opt_view(ambient), opt_view(in_prefix)),
{
    match ambient {
        Some(p) => p,
        None => match in_prefix {
            Some(p) => p,
            None => with_ext(os, "dsh"),
        },
    }
}

/// The command that runs the global dsh, with the resolved toolchain in front
/// of its `PATH`.
pub open spec fn global_launch(
    program: Seq<char>,
    flags: Seq<Seq<char>>,
    host: HostView,
    mirror: MirrorView,
    runtime: RuntimeView,
) -> CmdView {
    CmdView {
        envs: seq![("PATH"@, extended_path(host.os, runtime.path_prefix(), host.path))]
            + mirror.npm_env(),
        ..plain(program, flags)
    }
}

/// The command that runs dsh from the cache: node on its entry, with the
/// cache's executables and the resolved toolchain in front of its `PATH`.
pub open spec fn cache_launch(
    node: Seq<char>,
    entry: Seq<char>,
    flags: Seq<Seq<char>>,
    host: HostView,
    mirror: MirrorView,
    runtime: RuntimeView,
) -> CmdView {
    CmdView {
        envs: seq![
            (
                "PATH"@,
                extended_path(
                    host.os,
                    seq![host.dsh_bin_dir()] + runtime.path_prefix(),
                    host.path,
                ),
            ),
        ] + mirror.npm_env(),
        ..plain(node, seq![entry] + flags)
    }
}

/// The command that runs the global dsh.
pub fn global_command(
    program: &str,
    flags: &Vec<String>,
    host: &Host,
    mirror: &MirrorConfig,
    runtime: &Runtime,
) -> (r: Cmd)
    ensures
        r@ == global_launch(program@, views(flags@), host@, mirror@, runtime@),
{
    let mut c = Cmd::new(program);
    c.args(flags);
    c.env("PATH", runtime.augmented_path(host).as_str());
    with_env(&mut c, &mirror.npm_env());
    assert(c@ =~= global_launch(program@, views(flags@), host@, mirror@, runtime@));
    c
}

/// The command that runs dsh from the cache.
pub fn cache_command(
    node: &str,
    entry: &str,
    flags: &Vec<String>,
    host: &Host,
    mirror: &MirrorConfig,
    runtime: &Runtime,
) -> (r: Cmd)
    ensures
        r@ == cache_launch(node@, entry@, views(flags@), host@, mirror@, runtime@),
{
    let mut dirs: Vec<String> = Vec::new();
    dirs.push(dsh_bin_dir(host));
    assert(views(dirs@) =~= seq![host@.dsh_bin_dir()]);
    extend(&mut dirs, &runtime.path_prefix());
    let mut c = Cmd::new(node);
    c.arg(entry);
    c.args(flags);
    c.env("PATH", prepend_path(host, &dirs).as_str());
    with_env(&mut c, &mirror.npm_env());
    assert(c@ =~= cache_launch(node@, entry@, views(flags@), host@, mirror@, runtime@));
    c
}

// ---- the whole flow ------------------------------------------------------

/// The dsh that keeps another one from starting, given the one that is running
/// anywhere on the system: with `single-instance` on, any that runs. Two
/// processes that append to the same session log corrupt it.
pub fn conflicting_dsh(dsh: &Dsh, running: Option<u32>) -> (r: Option<u32>)
    ensures
        r == (if dsh.single_instance {
            running
        } else {
            None
        }),
{
    if dsh.single_instance {
        running
    } else {
        None
    }
}

/// The error when another dsh keeps this one from starting.
pub fn already_running(pid: u32) -> (r: Message)
    ensures
        r@ == note1("flow.prepare.already_running"@, "pid"@, dec(pid as nat)),
{
    Message::with1("flow.prepare.already_running", "pid", decimal(pid as u64).as_str())
}

/// Where the preparation stands.
#[derive(Debug, Clone, Copy, PartialEq, Eq, Structural)]
pub enum Stage {
    /// Query the latest release, and report it with [`Preparation::latest`].
    Query,
    /// Look for the global dsh, and report it with [`Preparation::global`].
    ProbeGlobal,
    /// Read the version in the cache, and report it with
    /// [`Preparation::cached`].
    CacheProbe,
    /// Install dsh into the cache, and report how it went with
    /// [`Preparation::installed`].
    Install,
    /// Install dsh into the cache once more, with the mirrors of
    /// [`MirrorConfig::second_try`], and report how it went with
    /// [`Preparation::installed`].
    InstallAgain,
    /// Look for the entry of the cached package, and report it with
    /// [`Preparation::entry`].
    Entry,
    /// Launch the global dsh.
    LaunchGlobal,
    /// Launch dsh from the cache.
    LaunchCache,
    /// dsh is not available.
    Failed,
}

/// The preparation of dsh. The source is selected by [`Dsh::mode`]:
/// * `global`: the user's global `dsh` is required; an error if it is missing.
/// * `hybrid` (default): the user's global `dsh` (ambient PATH, then the
///   runtime prefix) is used when it satisfies `version`; otherwise dsh is
///   installed into dshl's private cache.
/// * `private`: dsh is always installed into dshl's cache, never touching the
///   user's global environment.
#[derive(Debug)]
pub struct Preparation {
    pub stage: Stage,
    /// The version to aim at.
    pub target: String,
    /// The entry of the cached package.
    pub entry: String,
    pub error: Option<Message>,
}

/// The stage once the target is known.
pub open spec fn source_stage(mode: DshMode) -> Stage {
    if mode == DshMode::Private {
        Stage::CacheProbe
    } else {
        Stage::ProbeGlobal
    }
}

/// The first stage: a pinned version, or updates that are off, ask nothing of
/// the registry.
pub open spec fn first_stage(dsh: Dsh) -> Stage {
    if is_latest(dsh.version@) && dsh.auto_update {
        Stage::Query
    } else {
        source_stage(dsh.mode)
    }
}

/// The stage once the global dsh has been looked for.
pub open spec fn after_global(dsh: Dsh, target: Seq<char>, found: bool, raw: Seq<char>) -> Stage {
    if dsh.mode == DshMode::Global {
        if found {
            Stage::LaunchGlobal
        } else {
            Stage::Failed
        }
    } else if uses_global(dsh, target, found, raw) {
        Stage::LaunchGlobal
    } else {
        Stage::CacheProbe
    }
}

/// What is said once the global dsh has been looked for.
pub open spec fn global_notes(
    dsh: Dsh,
    target: Seq<char>,
    found: bool,
    raw: Seq<char>,
) -> Seq<MessageView> {
    if dsh.mode == DshMode::Global {
        if found {
            seq![installed_note(true, trimmed(raw))]
        } else {
            seq![]
        }
    } else {
        seq![hybrid_note(dsh, target, found, raw)]
    }
}

/// The stage once the cache has been looked at.
pub open spec fn after_cached(cached: Option<FullVersionView>, target: Seq<char>) -> Stage {
    if needs_install(cached, target) {
        Stage::Install
    } else {
        Stage::Entry
    }
}

/// The stage once dsh was installed, or could not be: a failed mirror is passed
/// over where the mirrors allow a second try.
pub open spec fn after_install(stage: Stage, went_well: bool, mirror: MirrorView) -> Stage {
    if went_well {
        Stage::Entry
    } else if stage == Stage::Install && mirror.second_try() is Some {
        Stage::InstallAgain
    } else {
        Stage::Failed
    }
}

/// What is said once the cache has been looked at.
pub open spec fn cached_note(cached: Option<FullVersionView>, target: Seq<char>) -> MessageView {
    match cached {
        None => not_installed_note(false),
        Some(v) => if needs_install(cached, target) {
            mismatch_note(false, target, full_text(v))
        } else {
            installed_note(false, full_text(v))
        },
    }
}

pub open spec fn error_view(e: Option<Message>) -> Option<MessageView> {
    match e {
        Some(m) => Some(m@),
        None => None,
    }
}

impl Preparation {
    /// A preparation that has not begun.
    pub fn start(dsh: &Dsh) -> (r: Preparation)
        ensures
            r.stage == first_stage(*dsh),
            r.target@ == target_of(*dsh, None),
            r.entry@ == Seq::<char>::empty(),
            r.error is None,
    {
        let stage = if wants_query(dsh) {
            Stage::Query
        } else if dsh.mode == DshMode::Private {
            Stage::CacheProbe
        } else {
            Stage::ProbeGlobal
        };
        Preparation {
            stage,
            target: resolve_target(dsh, &None),
            entry: String::new(),
            error: None,
        }
    }

    /// Takes in the latest release, if it could be learned.
    pub fn latest(&mut self, dsh: &Dsh, version: &Option<FullVersion>)
        requires
            old(self).stage == Stage::Query,
        ensures
            final(self).stage == source_stage(dsh.mode),
            final(self).target@ == target_of(*dsh, version_view(*version)),
            final(self).entry == old(self).entry,
            final(self).error == old(self).error,
    {
        self.target = resolve_target(dsh, version);
        self.stage = if dsh.mode == DshMode::Private {
            Stage::CacheProbe
        } else {
            Stage::ProbeGlobal
        };
    }

    /// Takes in the global dsh, and says what is to be said.
    pub fn global(&mut self, dsh: &Dsh, tool: &Tool) -> (r: Vec<Message>)
        requires
            old(self).stage == Stage::ProbeGlobal,
        ensures
            final(self).stage == after_global(*dsh, old(self).target@, tool.found, tool.raw@),
            final(self).target == old(self).target,
            final(self).entry == old(self).entry,
            error_view(final(self).error) == (if final(self).stage == Stage::Failed {
                Some(note("flow.prepare.global_requires_dsh"@))
            } else {
                error_view(old(self).error)
            }),
            notes(r@) == global_notes(*dsh, old(self).target@, tool.found, tool.raw@),
    {
        let mut said: Vec<Message> = Vec::new();
        if dsh.mode == DshMode::Global {
            if tool.found {
                let raw = trim(tool.raw.as_str());
                said.push(
                    Message::with2(
                        "flow.prepare.installed",
                        "source",
                        src_label(true),
                        "installed",
                        raw.as_str(),
                    ),
                );
                self.stage = Stage::LaunchGlobal;
            } else {
                self.error = Some(Message::new("flow.prepare.global_requires_dsh"));
                self.stage = Stage::Failed;
            }
        } else {
            let (use_it, why) = hybrid_use_global(dsh, self.target.as_str(), tool);
            said.push(why);
            self.stage = if use_it {
                Stage::LaunchGlobal
            } else {
                Stage::CacheProbe
            };
        }
        assert(notes(said@) =~= global_notes(*dsh, old(self).target@, tool.found, tool.raw@));
        said
    }

    /// Takes in the version in the cache, and says what is to be said.
    pub fn cached(&mut self, version: &Option<FullVersion>) -> (r: Message)
        requires
            old(self).stage == Stage::CacheProbe,
        ensures
            final(self).stage == after_cached(version_view(*version), old(self).target@),
            final(self).target == old(self).target,
            final(self).entry == old(self).entry,
            final(self).error == old(self).error,
            r@ == cached_note(version_view(*version), old(self).target@),
    {
        let refresh = cache_needs_install(version.as_ref(), self.target.as_str());
        self.stage = if refresh {
            Stage::Install
        } else {
            Stage::Entry
        };
        let src = src_label(false);
        match version {
            None => Message::with1("flow.prepare.not_installed", "source", src),
            Some(v) => if refresh {
                let m = Message::with2(
                    "flow.prepare.version_mismatch",
                    "source",
                    src,
                    "wanted",
                    self.target.as_str(),
                ).with("current", v.to_text().as_str());
                assert(m@ =~= mismatch_note(false, old(self).target@, full_text(v@)));
                m
            } else {
                Message::with2(
                    "flow.prepare.installed",
                    "source",
                    src,
                    "installed",
                    v.to_text().as_str(),
                )
            },
        }
    }

    /// Takes in how the installation went, where `mirror` is the one of the
    /// configuration.
    pub fn installed(&mut self, mirror: &MirrorConfig, outcome: Result<(), Message>)
        requires
            old(self).stage == Stage::Install || old(self).stage == Stage::InstallAgain,
        ensures
            final(self).target == old(self).target,
            final(self).entry == old(self).entry,
            final(self).stage == after_install(old(self).stage, outcome is Ok, mirror@),
            final(self).error == (match outcome {
                Err(e) if final(self).stage == Stage::Failed => Some(e),
                _ => old(self).error,
            }),
    {
        match outcome {
            Ok(_) => {
                self.stage = Stage::Entry;
            },
            Err(e) => {
                if self.stage == Stage::Install && mirror.second_try().is_some() {
                    self.stage = Stage::InstallAgain;
                } else {
                    self.error = Some(e);
                    self.stage = Stage::Failed;
                }
            },
        }
    }

    /// Takes in the entry of the cached package, if it is there. After an
    /// installation it must be: a guess would only fail later.
    pub fn entry(&mut self, host: &Host, entry: Option<String>)
        requires
            old(self).stage == Stage::Entry,
        ensures
            final(self).target == old(self).target,
            match entry {
                Some(path) => {
                    &&& final(self).stage == Stage::LaunchCache
                    &&& final(self).entry == path
                    &&& final(self).error == old(self).error
                },
                None => {
                    &&& final(self).stage == Stage::Failed
                    &&& final(self).entry == old(self).entry
                    &&& error_view(final(self).error) == Some(
                        note1("flow.prepare.entry_missing"@, "dir"@, host@.dsh_pkg_dir()),
                    )
                },
            },
    {
        match entry {
            Some(path) => {
                self.entry = path;
                self.stage = Stage::LaunchCache;
            },
            None => {
                let dir = dsh_pkg_dir(host);
                self.error = Some(
                    Message::with1("flow.prepare.entry_missing", "dir", dir.as_str()),
                );
                self.stage = Stage::Failed;
            },
        }
    }
}

impl Preparation {
    /// The command that launches the dsh that was chosen: the global one as
    /// `program`, or node on the entry in the cache.
    pub fn command(
        &self,
        node: &str,
        program: &str,
        flags: &Vec<String>,
        host: &Host,
        mirror: &MirrorConfig,
        runtime: &Runtime,
    ) -> (r: Cmd)
        requires
            self.stage == Stage::LaunchGlobal || self.stage == Stage::LaunchCache,
        ensures
            r@ == (if self.stage == Stage::LaunchGlobal {
                global_launch(program@, views(flags@), host@, mirror@, runtime@)
            } else {
                cache_launch(node@, self.entry@, views(flags@), host@, mirror@, runtime@)
            }),
    {
        if self.stage == Stage::LaunchGlobal {
            global_command(program, flags, host, mirror, runtime)
        } else {
            cache_command(node, self.entry.as_str(), flags, host, mirror, runtime)
        }
    }
}

// ---- laws ----------------------------------------------------------------

/// A pinned version always wins: no release changes the target, and the
/// registry is not asked.
pub proof fn a_pinned_version_always_wins(dsh: Dsh, latest: Option<FullVersionView>)
    requires
        !is_latest(dsh.version@),
    ensures
        target_of(dsh, latest) == dsh.version@,
        first_stage(dsh) != Stage::Query,
{
}

/// With updates off nothing is queried, and no release becomes the target.
pub proof fn without_updates_nothing_is_queried(dsh: Dsh, latest: Option<FullVersionView>)
    requires
        !dsh.auto_update,
        is_latest(dsh.version@),
    ensures
        first_stage(dsh) != Stage::Query,
        target_of(dsh, latest) == "latest"@,
{
}

/// With updates off an installed dsh stays as it is: whatever its version, it
/// is neither replaced in the cache nor passed over in favour of it.
pub proof fn without_updates_an_installed_dsh_stays(
    dsh: Dsh,
    latest: Option<FullVersionView>,
    cached: FullVersionView,
    raw: Seq<char>,
)
    requires
        !dsh.auto_update,
        is_latest(dsh.version@),
    ensures
        after_cached(Some(cached), target_of(dsh, latest)) == Stage::Entry,
        after_global(dsh, target_of(dsh, latest), true, raw) == Stage::LaunchGlobal,
{
}

/// How many reports a stage is away from the end at most.
pub open spec fn reports_left(stage: Stage) -> nat {
    match stage {
        Stage::Query => 6,
        Stage::ProbeGlobal => 5,
        Stage::CacheProbe => 4,
        Stage::Install => 3,
        Stage::InstallAgain => 2,
        Stage::Entry => 1,
        Stage::LaunchGlobal | Stage::LaunchCache | Stage::Failed => 0,
    }
}

/// Every report brings the preparation closer to its end, whatever was found.
pub proof fn preparation_ends(
    dsh: Dsh,
    target: Seq<char>,
    found: bool,
    raw: Seq<char>,
    cached: Option<FullVersionView>,
    went_well: bool,
    mirror: MirrorView,
)
    ensures
        reports_left(source_stage(dsh.mode)) < reports_left(Stage::Query),
        reports_left(after_global(dsh, target, found, raw)) < reports_left(Stage::ProbeGlobal),
        reports_left(after_cached(cached, target)) < reports_left(Stage::CacheProbe),
        reports_left(after_install(Stage::Install, went_well, mirror)) < reports_left(
            Stage::Install,
        ),
        reports_left(after_install(Stage::InstallAgain, went_well, mirror)) < reports_left(
            Stage::InstallAgain,
        ),
        reports_left(Stage::LaunchCache) < reports_left(Stage::Entry),
        reports_left(Stage::Failed) < reports_left(Stage::Entry),
{
}

/// A failed mirror is no reason to give up in mode `on`: dsh is installed from
/// the original source then. Forced mirrors stay the only source, and a source
/// that failed is not tried twice.
pub proof fn a_failed_mirror_gives_way_to_the_original(mirror: MirrorView)
    ensures
        mirror.mode == MirrorMode::On && mirror.summary().len() > 0 ==> after_install(
            Stage::Install,
            false,
            mirror,
        ) == Stage::InstallAgain,
        mirror.summary().len() == 0 ==> after_install(Stage::Install, false, mirror)
            == Stage::Failed,
        mirror.mode == MirrorMode::Force ==> after_install(Stage::Install, false, mirror)
            == Stage::Failed,
        after_install(Stage::InstallAgain, false, mirror) == Stage::Failed,
        after_install(Stage::Install, true, mirror) == Stage::Entry,
        after_install(Stage::InstallAgain, true, mirror) == Stage::Entry,
{
}

/// In private mode the global dsh is not even looked for.
pub proof fn private_mode_ignores_the_global_dsh(dsh: Dsh)
    requires
        dsh.mode == DshMode::Private,
    ensures
        first_stage(dsh) == Stage::Query || first_stage(dsh) == Stage::CacheProbe,
        source_stage(dsh.mode) == Stage::CacheProbe,
{
}

/// In global mode nothing is ever installed: either the global dsh runs, or
/// there is an error.
pub proof fn global_mode_never_installs(dsh: Dsh, target: Seq<char>, found: bool, raw: Seq<char>)
    requires
        dsh.mode == DshMode::Global,
    ensures
        after_global(dsh, target, found, raw) == (if found {
            Stage::LaunchGlobal
        } else {
            Stage::Failed
        }),
{
}

/// In hybrid mode a missing dsh is no error: the cache steps in.
pub proof fn hybrid_mode_falls_back_to_the_cache(dsh: Dsh, target: Seq<char>, raw: Seq<char>)
    requires
        dsh.mode == DshMode::Hybrid,
    ensures
        after_global(dsh, target, false, raw) == Stage::CacheProbe,
{
}

/// What has been installed is not installed again: a cache that holds the
/// target satisfies it at the next start.
pub proof fn an_installed_target_stays(v: FullVersionView)
    requires
        is_version(v),
    ensures
        !needs_install(Some(v), full_text(v)),
        version_ok(full_text(v), full_text(v)),
        up_to_date(full_text(v), full_text(v)),
{
    version_comes_back(v);
    crate::version::versions_are_totally_ordered(v, v);
}

/// A cache of another version is refreshed when a version is pinned.
pub proof fn another_version_is_replaced(cached: FullVersionView, wanted: FullVersionView)
    requires
        is_version(wanted),
        cached != wanted,
    ensures
        needs_install(Some(cached), full_text(wanted)),
{
    version_comes_back(wanted);
    lemma_a_version_is_not_latest(wanted);
}

proof fn lemma_a_version_is_not_latest(v: FullVersionView)
    ensures
        !is_latest(full_text(v)),
{
    let major = dec(v.core.major as nat);
    decimal_comes_back(v.core.major as nat);
    assert(is_digit(major[0]));
    assert(full_text(v)[0] == major[0]);
    reveal_strlit("latest");
    assert("latest"@[0] == 'l');
}

/// A stale global dsh is not run forever: with updates on, one that is older
/// than the latest release gives way to the cache.
pub proof fn a_stale_global_dsh_gives_way(
    dsh: Dsh,
    installed: FullVersionView,
    newest: FullVersionView,
)
    requires
        is_latest(dsh.version@),
        dsh.auto_update,
        is_version(installed),
        is_version(newest),
        full_less(installed, newest),
    ensures
        !uses_global(dsh, full_text(newest), true, full_text(installed)),
{
    version_comes_back(installed);
    version_comes_back(newest);
    lemma_a_version_is_not_latest(newest);
}

/// An empty cache is always filled.
pub proof fn an_empty_cache_is_filled(target: Seq<char>)
    ensures
        needs_install(None, target),
        after_cached(None, target) == Stage::Install,
{
}

/// A global dsh that is not older than the latest release is used: with
/// updates on, being used and being up to date are the same.
pub proof fn an_up_to_date_global_dsh_is_used(
    dsh: Dsh,
    installed: FullVersionView,
    newest: FullVersionView,
)
    requires
        is_latest(dsh.version@),
        dsh.auto_update,
        is_version(installed),
        is_version(newest),
    ensures
        !full_less(installed, newest) ==> uses_global(
            dsh,
            full_text(newest),
            true,
            full_text(installed),
        ),
        !full_less(installed, newest) && dsh.mode == DshMode::Hybrid ==> after_global(
            dsh,
            target_of(dsh, Some(newest)),
            true,
            full_text(installed),
        ) == Stage::LaunchGlobal,
        full_less(installed, newest) && dsh.mode == DshMode::Hybrid ==> after_global(
            dsh,
            target_of(dsh, Some(newest)),
            true,
            full_text(installed),
        ) == Stage::CacheProbe,
{
    version_comes_back(installed);
    version_comes_back(newest);
    lemma_a_version_is_not_latest(newest);
}

/// With updates on, a global dsh whose numbers are at least those of the latest
/// release is used, and one that any release exceeds is not.
pub proof fn a_larger_global_dsh_is_used(
    dsh: Dsh,
    installed: FullVersionView,
    newest: FullVersionView,
)
    requires
        is_latest(dsh.version@),
        dsh.auto_update,
        dsh.mode == DshMode::Hybrid,
        is_version(installed),
        is_version(newest),
        installed.pre.len() == 0 && newest.pre.len() == 0,
        installed.core.major == newest.core.major,
        installed.core.minor == newest.core.minor,
    ensures
        after_global(dsh, full_text(newest), true, full_text(installed)) == Stage::LaunchGlobal
            <==> installed.core.patch >= newest.core.patch,
{
    crate::version::versions_grow_with_their_numbers(installed, newest);
    crate::version::versions_grow_with_their_numbers(newest, installed);
    version_comes_back(installed);
    version_comes_back(newest);
    lemma_a_version_is_not_latest(newest);
}

/// A pinned version is met by exactly that version, wherever it stands in what
/// dsh prints, and by nothing where dsh prints none.
pub proof fn a_pinned_version_is_met_by_itself_alone(
    dsh: Dsh,
    target: Seq<char>,
    before: Seq<char>,
    installed: FullVersionView,
    after: Seq<char>,
    wanted: FullVersionView,
    silent: Seq<char>,
)
    requires
        dsh.version@ == full_text(wanted),
        is_version(wanted),
        is_version(installed),
        forall|j: int| 0 <= j < before.len() ==> !is_digit(#[trigger] before[j]),
        after.len() > 0 ==> !is_ident_char(after[0]) && after[0] != '.',
        read_full(silent) is None,
    ensures
        uses_global(dsh, target, true, before + (full_text(installed) + after)) <==> installed
            == wanted,
        version_ok(before + (full_text(installed) + after), dsh.version@) <==> installed == wanted,
        !uses_global(dsh, target, true, silent),
{
    crate::version::versions_are_found_in_output(before, installed, after);
    version_comes_back(wanted);
    lemma_a_version_is_not_latest(wanted);
}

/// A global dsh is kept where nothing speaks against it: updates are off, the
/// latest release is not known, or what is pinned is no version. One that is
/// not there is never used.
pub proof fn a_global_dsh_is_kept_in_doubt(dsh: Dsh, target: Seq<char>, raw: Seq<char>)
    ensures
        is_latest(dsh.version@) && dsh.mode == DshMode::Hybrid ==> after_global(
            dsh,
            target_of(dsh, None),
            true,
            raw,
        ) == Stage::LaunchGlobal,
        is_latest(dsh.version@) && !dsh.auto_update ==> uses_global(dsh, target, true, raw),
        !is_latest(dsh.version@) && read_full(dsh.version@) is None && read_full(raw) is Some
            ==> uses_global(dsh, target, true, raw),
        !uses_global(dsh, target, false, raw),
{
}

proof fn lemma_decision_keys()
    ensures
        "flow.prepare.installed"@.len() == 22,
        "flow.prepare.not_installed"@.len() == 26,
        "flow.prepare.version_mismatch"@.len() == 29,
        "flow.prepare.up_to_date"@.len() == 23,
        "flow.prepare.updating"@.len() == 21,
{
    reveal_strlit("flow.prepare.installed");
    reveal_strlit("flow.prepare.not_installed");
    reveal_strlit("flow.prepare.version_mismatch");
    reveal_strlit("flow.prepare.up_to_date");
    reveal_strlit("flow.prepare.updating");
}

/// What is said matches what is done: the global dsh is called installed or up
/// to date exactly where it is used, and missing exactly where it was not
/// found; and it is always called the global one.
pub proof fn what_is_said_of_the_global_dsh_is_done(
    dsh: Dsh,
    target: Seq<char>,
    found: bool,
    raw: Seq<char>,
)
    ensures
        ({
            let said = hybrid_note(dsh, target, found, raw);
            &&& uses_global(dsh, target, found, raw) <==> said.key == "flow.prepare.installed"@
                || said.key == "flow.prepare.up_to_date"@
            &&& !found <==> said.key == "flow.prepare.not_installed"@
            &&& said.key == "flow.prepare.version_mismatch"@ ==> !is_latest(dsh.version@)
                && said.args.contains(("wanted"@, dsh.version@)) && said.args.contains(
                ("current"@, trimmed(raw)),
            )
            &&& said.key == "flow.prepare.updating"@ ==> is_latest(dsh.version@)
                && said.args.contains(("latest"@, target)) && said.args.contains(
                ("current"@, trimmed(raw)),
            )
            &&& said.key == "flow.prepare.installed"@ ==> said.args.contains(
                ("installed"@, trimmed(raw)),
            )
            &&& said.args.contains(("source"@, "flow.prepare.src_global"@))
        }),
{
    lemma_decision_keys();
    let said = hybrid_note(dsh, target, found, raw);
    assert(said.args[0] == ("source"@, "flow.prepare.src_global"@));
    if said.args.len() > 1 {
        assert(said.args.contains(said.args[1]));
    }
    if said.args.len() > 2 {
        assert(said.args.contains(said.args[2]));
    }
}

/// What is said of the cache matches what is done: it is called installed
/// exactly where nothing is installed, and it is always called the cache.
pub proof fn what_is_said_of_the_cache_is_done(
    cached: Option<FullVersionView>,
    target: Seq<char>,
)
    ensures
        ({
            let said = cached_note(cached, target);
            &&& after_cached(cached, target) == Stage::Entry <==> said.key
                == "flow.prepare.installed"@
            &&& after_cached(cached, target) == Stage::Install <==> said.key
                == "flow.prepare.not_installed"@ || said.key == "flow.prepare.version_mismatch"@
            &&& cached is None <==> said.key == "flow.prepare.not_installed"@
            &&& said.key == "flow.prepare.version_mismatch"@ ==> said.args.contains(
                ("wanted"@, target),
            ) && said.args.contains(("current"@, full_text(cached->0)))
            &&& said.key == "flow.prepare.installed"@ ==> said.args.contains(
                ("installed"@, full_text(cached->0)),
            )
            &&& said.args.contains(("source"@, "flow.prepare.src_cache"@))
        }),
{
    lemma_decision_keys();
    let said = cached_note(cached, target);
    assert(said.args[0] == ("source"@, "flow.prepare.src_cache"@));
    if said.args.len() > 1 {
        assert(said.args.contains(said.args[1]));
    }
    if said.args.len() > 2 {
        assert(said.args.contains(said.args[2]));
    }
}

/// A release that became known is what is aimed at: a cache that holds it is
/// launched, and one that holds anything else is refreshed to it.
pub proof fn a_known_release_is_aimed_at(
    dsh: Dsh,
    newest: FullVersionView,
    cached: FullVersionView,
)
    requires
        is_latest(dsh.version@),
        dsh.auto_update,
        is_version(newest),
    ensures
        first_stage(dsh) == Stage::Query,
        read_full(target_of(dsh, Some(newest))) == Some(newest),
        after_cached(Some(cached), target_of(dsh, Some(newest))) == Stage::Entry <==> cached
            == newest,
        after_cached(Some(cached), target_of(dsh, None)) == Stage::Entry,
        read_full(package_of(target_of(dsh, Some(newest)))) == Some(newest),
{
    version_comes_back(newest);
    lemma_a_version_is_not_latest(newest);
    the_package_names_its_version(newest);
}

/// A pinned version is aimed at, asked of the registry by its number, and met
/// by a cache of exactly that version.
pub proof fn a_pinned_version_is_aimed_at(
    dsh: Dsh,
    latest: Option<FullVersionView>,
    wanted: FullVersionView,
    cached: FullVersionView,
)
    requires
        dsh.version@ == full_text(wanted),
        is_version(wanted),
    ensures
        after_cached(Some(cached), target_of(dsh, latest)) == Stage::Entry <==> cached == wanted,
        read_full(package_of(target_of(dsh, latest))) == Some(wanted),
        first_stage(dsh) == (if dsh.mode == DshMode::Private {
            Stage::CacheProbe
        } else {
            Stage::ProbeGlobal
        }),
{
    version_comes_back(wanted);
    lemma_a_version_is_not_latest(wanted);
    the_package_names_its_version(wanted);
}

/// The package that is installed for a version starts with the name of dsh and
/// names that version; for the latest one it is the name alone.
pub proof fn the_package_names_its_version(v: FullVersionView)
    requires
        is_version(v),
    ensures
        package_of(full_text(v)) == "@deepseek-ai/dsh@"@ + full_text(v),
        read_full(package_of(full_text(v))) == Some(v),
        package_of("latest"@) == "@deepseek-ai/dsh"@,
        package_of(seq![]) == "@deepseek-ai/dsh"@,
{
    lemma_a_version_is_not_latest(v);
    let name = "@deepseek-ai/dsh@"@;
    reveal_strlit("@deepseek-ai/dsh@");
    assert(forall|j: int| 0 <= j < name.len() ==> !is_digit(#[trigger] name[j]));
    crate::version::versions_are_found_in_output(name, v, seq![]);
    assert(full_text(v) + Seq::<char>::empty() =~= full_text(v));
}

/// Whether a command works in a directory: as its working directory, or named
/// behind a flag for it.
pub open spec fn aims_at(cmd: CmdView, dir: Seq<char>) -> bool {
    ||| cmd.cwd == Some(dir)
    ||| exists|i: int|
        0 <= i < cmd.args.len() - 1 && #[trigger] is_dir_flag(cmd.args[i]) && cmd.args[i + 1] == dir
}

/// The flags of the package managers for a directory.
pub open spec fn is_dir_flag(arg: Seq<char>) -> bool {
    arg == "--prefix"@ || arg == "--cwd"@ || arg == "--dir"@
}

/// Every package manager installs the package that it is given into the
/// directory of the cache, with the registry of the mirrors, and never
/// globally.
pub proof fn dsh_is_installed_into_the_cache(
    pm: Pm,
    program: Seq<char>,
    package: Seq<char>,
    host: HostView,
    mirror: MirrorView,
    runtime: RuntimeView,
)
    ensures
        ({
            let cmd = install_of(pm, program, package, host, mirror, runtime);
            &&& cmd.program == program
            &&& aims_at(cmd, host.dsh_dir())
            &&& pm == Pm::Nub ==> cmd.cwd == Some(host.dsh_dir())
            &&& pm == Pm::Npm ==> cmd.args[1] == "--prefix"@ && cmd.args[2] == host.dsh_dir()
            &&& pm == Pm::Bun ==> cmd.args[1] == "--cwd"@ && cmd.args[2] == host.dsh_dir()
            &&& pm == Pm::Pnpm ==> cmd.args[1] == "--dir"@ && cmd.args[2] == host.dsh_dir()
            &&& cmd.args.last() == package
            &&& cmd.args[0] == (if pm == Pm::Npm {
                "install"@
            } else {
                "add"@
            })
            &&& pm == Pm::Npm ==> cmd.args.contains("--no-save"@)
            &&& forall|i: int|
                0 <= i < cmd.args.len() - 1 && cmd.args[i] != host.dsh_dir() ==> {
                    &&& #[trigger] cmd.args[i] != "-g"@
                    &&& cmd.args[i] != "--global"@
                }
            &&& mirror.mode != MirrorMode::Off && mirror.npm is Some ==> cmd.envs.contains(
                ("npm_config_registry"@, mirror.npm->0),
            )
            &&& mirror.npm is None ==> cmd.envs.len() == 1
        }),
{
    let cmd = install_of(pm, program, package, host, mirror, runtime);
    reveal_strlit("-g");
    reveal_strlit("--global");
    reveal_strlit("--prefix");
    reveal_strlit("--cwd");
    reveal_strlit("--dir");
    reveal_strlit("install");
    reveal_strlit("add");
    reveal_strlit("--no-save");
    assert("--global"@[2] == 'g');
    assert("--prefix"@[2] == 'p');
    if pm != Pm::Nub {
        assert(is_dir_flag(cmd.args[1]));
    }
    if pm == Pm::Npm {
        assert(cmd.args[3] == "--no-save"@);
    }
    assert("-g"@.len() == 2 && "--global"@.len() == 8 && "--prefix"@.len() == 8);
    assert("--prefix"@ != "--global"@);
    assert("--cwd"@.len() == 5 && "--dir"@.len() == 5 && "install"@.len() == 7);
    assert("add"@.len() == 3 && "--no-save"@.len() == 9);
    assert forall|i: int|
        0 <= i < cmd.args.len() - 1 && cmd.args[i] != host.dsh_dir() implies #[trigger] cmd.args[i]
        != "-g"@ && cmd.args[i] != "--global"@ by {
        assert(i == 0 || i == 1 || i == 2 || i == 3);
    }
    lemma_registry_is_passed_on(mirror, cmd.envs[0]);
    assert(cmd.envs =~= seq![cmd.envs[0]] + mirror.npm_env());
}

proof fn lemma_registry_is_passed_on(mirror: MirrorView, path: (Seq<char>, Seq<char>))
    ensures
        mirror.mode != MirrorMode::Off && mirror.npm is Some ==> (seq![path]
            + mirror.npm_env()).contains(("npm_config_registry"@, mirror.npm->0)),
        mirror.npm is None ==> (seq![path] + mirror.npm_env()).len() == 1,
{
    crate::mirror::the_registry_is_what_package_managers_get(mirror);
    if mirror.mode != MirrorMode::Off && mirror.npm is Some {
        let entry = ("npm_config_registry"@, mirror.npm->0);
        let i = choose|i: int| 0 <= i < mirror.npm_env().len() && mirror.npm_env()[i] == entry;
        assert((seq![path] + mirror.npm_env())[i + 1] == entry);
    }
}

/// Whether all directories can stand in the `PATH` of Unix.
pub open spec fn all_listed(dirs: Seq<Seq<char>>) -> bool {
    forall|i: int| 0 <= i < dirs.len() ==> !(#[trigger] dirs[i]).contains(':')
}

/// Both ways to launch dsh pass its flags on, give it the registry of the
/// mirrors, and put the resolved toolchain in front of its `PATH`; out of the
/// cache, the executables of the cache come first, and node runs the entry.
pub proof fn dsh_is_launched_with_the_toolchain(
    node: Seq<char>,
    entry: Seq<char>,
    program: Seq<char>,
    flags: Seq<Seq<char>>,
    host: HostView,
    mirror: MirrorView,
    runtime: RuntimeView,
)
    ensures
        ({
            let global = global_launch(program, flags, host, mirror, runtime);
            let cache = cache_launch(node, entry, flags, host, mirror, runtime);
            &&& global.program == program
            &&& global.args == flags
            &&& global.cwd is None
            &&& cache.program == node
            &&& cache.args.len() == flags.len() + 1
            &&& cache.args[0] == entry
            &&& cache.args.skip(1) == flags
            &&& cache.cwd is None
            &&& global.envs[0].0 == "PATH"@
            &&& cache.envs[0].0 == "PATH"@
            &&& mirror.mode != MirrorMode::Off && mirror.npm is Some ==> global.envs.contains(
                ("npm_config_registry"@, mirror.npm->0),
            ) && cache.envs.contains(("npm_config_registry"@, mirror.npm->0))
            &&& mirror.npm is None ==> global.envs.len() == 1 && cache.envs.len() == 1
            &&& host.os != Os::Windows && all_listed(host.path) && all_listed(
                runtime.path_prefix(),
            ) && !host.dsh_bin_dir().contains(':') ==> {
                &&& split_on(cache.envs[0].1, ':') == seq![host.dsh_bin_dir()]
                    + runtime.path_prefix() + host.path
                &&& runtime.path_prefix().len() + host.path.len() > 0 ==> split_on(
                    global.envs[0].1,
                    ':',
                ) == runtime.path_prefix() + host.path
            }
        }),
{
    let global = global_launch(program, flags, host, mirror, runtime);
    let cache = cache_launch(node, entry, flags, host, mirror, runtime);
    lemma_registry_is_passed_on(mirror, global.envs[0]);
    lemma_registry_is_passed_on(mirror, cache.envs[0]);
    assert(cache.args.skip(1) =~= flags);
    if host.os != Os::Windows && all_listed(host.path) && all_listed(runtime.path_prefix())
        && !host.dsh_bin_dir().contains(':') {
        let dirs = seq![host.dsh_bin_dir()] + runtime.path_prefix();
        assert forall|i: int| 0 <= i < dirs.len() implies can_be_listed(
            host.os,
            #[trigger] dirs[i],
        ) by {
            if i > 0 {
                assert(dirs[i] == runtime.path_prefix()[i - 1]);
            }
        }
        resolved_directories_come_first(host.os, dirs, host.path);
        if runtime.path_prefix().len() + host.path.len() > 0 {
            resolved_directories_come_first(host.os, runtime.path_prefix(), host.path);
        }
    }
}

/// The latest release is asked of the registry by name, with npm standing in
/// for bun and every other package manager asking for itself.
pub proof fn the_registry_is_asked_for_dsh(
    pm: Pm,
    program: Seq<char>,
    host: HostView,
    mirror: MirrorView,
    runtime: RuntimeView,
)
    ensures
        ({
            let cmd = query_of(program, host, mirror, runtime);
            &&& cmd.program == program
            &&& cmd.args == seq!["view"@, "@deepseek-ai/dsh"@, "version"@]
            &&& cmd.args[1] == package_of("latest"@)
            &&& cmd.envs == global_launch(program, seq![], host, mirror, runtime).envs
            &&& mirror.mode != MirrorMode::Off && mirror.npm is Some ==> cmd.envs.contains(
                ("npm_config_registry"@, mirror.npm->0),
            )
        }),
        pm != Pm::Bun ==> query_tool_text(pm) == pm_text(pm),
        query_tool_text(Pm::Bun) == "npm"@,
        pm_text(Pm::Npm) == "npm"@,
        pm_text(Pm::Bun) == "bun"@,
        pm_text(Pm::Pnpm) == "pnpm"@,
        pm_text(Pm::Nub) == "nub"@,
{
    lemma_registry_is_passed_on(mirror, query_of(program, host, mirror, runtime).envs[0]);
}

/// The executable that a manifest names: a text is it; of several, the one
/// called `dsh` wins wherever it stands, and without it the first text does.
pub proof fn the_executable_called_dsh_wins(
    before: Seq<(Seq<char>, Option<Seq<char>>)>,
    value: Seq<char>,
    after: Seq<(Seq<char>, Option<Seq<char>>)>,
    name: Seq<char>,
)
    requires
        forall|i: int| 0 <= i < before.len() ==> (#[trigger] before[i]).0 != "dsh"@,
    ensures
        bin_text(MemberView::Text(value)) == Some(value),
        bin_text(MemberView::Other) is None,
        bin_text(MemberView::Table(before + seq![("dsh"@, Some(value))] + after)) == Some(value),
        (forall|i: int| 0 <= i < before.len() ==> (#[trigger] before[i]).1 is None) && (forall|
            i: int,
        |
            0 <= i < after.len() ==> (#[trigger] after[i]).0 != "dsh"@) && name != "dsh"@
            ==> bin_text(MemberView::Table(before + seq![(name, Some(value))] + after)) == Some(
            value,
        ),
        (forall|i: int| 0 <= i < before.len() ==> (#[trigger] before[i]).1 is None) ==> bin_text(
            MemberView::Table(before),
        ) is None,
{
    let named = before + seq![("dsh"@, Some(value))] + after;
    lemma_table_text(named, "dsh"@, 0, before.len() as int);
    if forall|i: int| 0 <= i < before.len() ==> (#[trigger] before[i]).1 is None {
        lemma_table_text(before, "dsh"@, 0, before.len() as int);
        lemma_first_text(before, 0, before.len() as int);
        if (forall|i: int| 0 <= i < after.len() ==> (#[trigger] after[i]).0 != "dsh"@) && name
            != "dsh"@ {
            let other = before + seq![(name, Some(value))] + after;
            assert forall|i: int| 0 <= i < other.len() implies (#[trigger] other[i]).0 != "dsh"@ by {
                if i > before.len() {
                    assert(other[i] == after[i - before.len() - 1]);
                }
            }
            lemma_table_text(other, "dsh"@, 0, other.len() as int);
            lemma_first_text(other, 0, before.len() as int);
        }
    }
}

proof fn lemma_table_text(
    table: Seq<(Seq<char>, Option<Seq<char>>)>,
    key: Seq<char>,
    from: int,
    to: int,
)
    requires
        0 <= from <= to <= table.len(),
        forall|i: int| from <= i < to ==> (#[trigger] table[i]).0 != key,
    ensures
        table_text(table, key, from) == table_text(table, key, to),
    decreases to - from,
{
    if from < to {
        lemma_table_text(table, key, from + 1, to);
    }
}

proof fn lemma_first_text(table: Seq<(Seq<char>, Option<Seq<char>>)>, from: int, to: int)
    requires
        0 <= from <= to <= table.len(),
        forall|i: int| from <= i < to ==> (#[trigger] table[i]).1 is None,
    ensures
        first_text(table, from) == first_text(table, to),
    decreases to - from,
{
    if from < to {
        lemma_first_text(table, from + 1, to);
    }
}

/// The cache install lies inside the cache directory, and its package and its
/// executables lie inside it, where node looks for modules.
pub proof fn the_install_lies_inside_the_cache(host: HostView)
    requires
        host.os != Os::Windows,
        host.cache_dir().len() > 0,
        host.cache_dir().last() != '/',
    ensures
        host.dsh_dir() == host.cache_dir() + "/dshl"@,
        host.dsh_bin_dir() == host.dsh_dir() + "/node_modules/.bin"@,
        host.dsh_pkg_dir() == host.dsh_dir() + "/node_modules/@deepseek-ai/dsh"@,
        host.cache_manifest() == host.dsh_dir() + "/package.json"@,
{
    let os = host.os;
    let dir = host.dsh_dir();
    reveal_strlit("dshl");
    reveal_strlit("/dshl");
    reveal_strlit("node_modules");
    reveal_strlit(".bin");
    reveal_strlit("/node_modules/.bin");
    reveal_strlit("@deepseek-ai");
    reveal_strlit("dsh");
    reveal_strlit("/node_modules/@deepseek-ai/dsh");
    reveal_strlit("package.json");
    reveal_strlit("/package.json");
    unix_paths_are_joined_by_one_slash(os, host.cache_dir(), "dshl"@);
    assert(dir =~= host.cache_dir() + "/dshl"@);
    unix_paths_are_joined_by_one_slash(os, dir, "node_modules"@);
    let modules = path_in(os, dir, "node_modules"@);
    assert(modules.last() == 's');
    unix_paths_are_joined_by_one_slash(os, modules, ".bin"@);
    assert(host.dsh_bin_dir() =~= dir + "/node_modules/.bin"@);
    unix_paths_are_joined_by_one_slash(os, modules, "@deepseek-ai"@);
    let scope = path_in(os, modules, "@deepseek-ai"@);
    assert(scope.last() == 'i');
    unix_paths_are_joined_by_one_slash(os, scope, "dsh"@);
    assert(host.dsh_pkg_dir() =~= dir + "/node_modules/@deepseek-ai/dsh"@);
    unix_paths_are_joined_by_one_slash(os, dir, "package.json"@);
    assert(host.cache_manifest() =~= dir + "/package.json"@);
}

/// The latest release is what a query that went well prints, and nothing is
/// learned from one that failed.
pub proof fn the_printed_release_is_learned(
    run: CommandResult,
    before: Seq<char>,
    v: FullVersionView,
    after: Seq<char>,
)
    requires
        is_version(v),
        all_white(before),
        all_white(after),
        run.stdout@ == before + full_text(v) + after,
    ensures
        run.status == Some(0i32) ==> printed_release(Some(run)) == Some(v),
        run.status != Some(0i32) ==> printed_release(Some(run)) is None,
        printed_release(None) is None,
{
    let text = full_text(v);
    lemma_version_ends(v);
    white_space_around_a_text_is_trimmed(before, text, after);
    version_comes_back(v);
}

proof fn lemma_version_ends(v: FullVersionView)
    requires
        is_version(v),
    ensures
        full_text(v).len() > 0,
        !is_white(full_text(v)[0]),
        !is_white(full_text(v).last()),
{
    let major = dec(v.core.major as nat);
    let patch = dec(v.core.patch as nat);
    decimal_comes_back(v.core.major as nat);
    decimal_comes_back(v.core.patch as nat);
    assert(is_digit(major[0]));
    assert(full_text(v)[0] == major[0]);
    assert(is_digit(patch[patch.len() - 1]));
    if v.pre.len() == 0 {
        assert(full_text(v).last() == patch.last());
    } else {
        let list = v.pre;
        crate::text::lemma_joined_ends(list, seq!['.']);
        let last = list.last();
        assert(crate::version::is_ident(list[list.len() - 1]));
        assert(full_text(v).last() == last.last());
        assert(is_ident_char(last[last.len() - 1]));
    }
}

/// The global dsh is the one on the ambient `PATH` before the one in the
/// prefix, and it is started by its name where neither has a path.
pub proof fn the_ambient_dsh_comes_first(os: Os, a: Seq<char>, b: Option<Seq<char>>)
    ensures
        global_path(os, Some(a), b) == a,
        global_path(os, None, Some(a)) == a,
        os != Os::Windows ==> global_path(os, None, None) == "dsh"@,
        global_path(Os::Windows, None, None) == "dsh.exe"@,
{
    reveal_strlit("dsh");
    reveal_strlit("");
    reveal_strlit(".exe");
    reveal_strlit("dsh.exe");
    assert("dsh"@ + ""@ =~= "dsh"@);
    assert("dsh"@ + ".exe"@ =~= "dsh.exe"@);
}

} // verus!
