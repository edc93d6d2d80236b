//! The `dshl.toml` configuration: its model, where it is looked for, and what
//! stands in for it.

use vstd::prelude::*;
use vstd::string::*;
use crate::platform::paths::{path_in, Host, HostView};
use crate::platform::{config_dir, join, Os};
use crate::text::{opt_view, same, views};

verus! {

/// Domestic-mirror policy.
#[derive(Debug, Clone, Copy, PartialEq, Eq, Structural)]
pub enum MirrorMode {
    /// Never use mirrors.
    Off,
    /// Use a mirror when its address is non-empty (default), falling back to
    /// the original source on failure.
    On,
    /// Strictly use the configured mirrors (no fallback to the original).
    Force,
}

impl Default for MirrorMode {
    fn default() -> (r: MirrorMode)
        ensures
            r == MirrorMode::On,
    {
        MirrorMode::On
    }
}

/// Where dsh comes from.
#[derive(Debug, Clone, Copy, PartialEq, Eq, Structural)]
pub enum DshMode {
    /// Strictly the user's global `dsh`; error out if it is not installed.
    /// No cache install is ever made.
    Global,
    /// Prefer the user's global `dsh`, falling back to dshl's cache install
    /// when none is present (or it does not satisfy the pinned `version`).
    Hybrid,
    /// Always dshl's private cache install; never touch the user's global
    /// environment or PATH.
    Private,
}

impl Default for DshMode {
    fn default() -> (r: DshMode)
        ensures
            r == DshMode::Hybrid,
    {
        DshMode::Hybrid
    }
}

/// JavaScript package manager used for installing dsh.
#[derive(Debug, Clone, Copy, PartialEq, Eq, Structural)]
pub enum Pm {
    Npm,
    Bun,
    Pnpm,
    /// Default: one binary replaces bun (deps install), npx (bin runner) and
    /// fnm/nvm (Node provisioning), and installs from npm.
    Nub,
}

impl Default for Pm {
    fn default() -> (r: Pm)
        ensures
            r == Pm::Nub,
    {
        Pm::Nub
    }
}

/// Domestic mirror addresses. An empty string means "do not use this mirror".
#[derive(Debug, Clone, PartialEq, Eq)]
pub struct Mirrors {
    /// npm registry (also used by bun's package installs).
    pub npm: String,
    /// cargo sparse registry index (e.g. `sparse+https://rsproxy.cn/index/`).
    pub cargo: String,
    /// Base URL used by fnm/nvm to download Node releases.
    pub nodejs_release: String,
    /// Base URL used to download the bun runtime binary.
    pub bun_download: String,
    /// GitHub proxy prefix (e.g. `https://ghproxy.com/`).
    pub github: String,
}

impl Mirrors {
    /// Whether no mirror has an address.
    pub open spec fn is_default(self) -> bool {
        self.npm@.len() == 0 && self.cargo@.len() == 0 && self.nodejs_release@.len() == 0
            && self.bun_download@.len() == 0 && self.github@.len() == 0
    }
}

impl Default for Mirrors {
    fn default() -> (r: Mirrors)
        ensures
            r.is_default(),
    {
        Mirrors {
            npm: String::new(),
            cargo: String::new(),
            nodejs_release: String::new(),
            bun_download: String::new(),
            github: String::new(),
        }
    }
}

/// `[dsh]` section: every part of the dsh launch is configurable.
#[derive(Debug, Clone, PartialEq, Eq)]
pub struct Dsh {
    /// Flags forwarded to `dsh` (default boots the web profile on an
    /// ephemeral port).
    pub flags: String,
    /// Package manager used to install `@deepseek-ai/dsh`.
    pub pm: Pm,
    /// Version suffix for `@deepseek-ai/dsh`. `latest` (default) means no
    /// suffix; anything else becomes `@deepseek-ai/dsh@<version>`.
    pub version: String,
    /// Where dsh comes from.
    pub mode: DshMode,
    /// Keep `@deepseek-ai/dsh` up-to-date automatically.
    pub auto_update: bool,
    /// Only allow one dsh instance system-wide.
    pub single_instance: bool,
}

/// Versions that pin nothing.
pub open spec fn is_latest(version: Seq<char>) -> bool {
    version == "latest"@ || version.len() == 0
}

/// Whether `version` pins nothing.
pub fn latest(version: &str) -> (r: bool)
    ensures
        r == is_latest(version@),
{
    same(version, "latest") || version.is_empty()
}

/// The npm package of dsh, at a version or at its latest one.
pub open spec fn package_of(version: Seq<char>) -> Seq<char> {
    if is_latest(version) {
        "@deepseek-ai/dsh"@
    } else {
        "@deepseek-ai/dsh@"@ + version
    }
}

impl Dsh {
    pub open spec fn is_default(self) -> bool {
        &&& self.flags@ == "--profile web --host 127.0.0.1 --port 0"@
        &&& self.pm == Pm::Nub
        &&& self.version@ == "latest"@
        &&& self.mode == DshMode::Hybrid
        &&& self.auto_update
        &&& !self.single_instance
    }

    /// True when no specific version is pinned (`latest`).
    pub fn wants_latest(&self) -> (r: bool)
        ensures
            r == is_latest(self.version@),
    {
        latest(self.version.as_str())
    }

    /// The package spec: `@deepseek-ai/dsh` or `@deepseek-ai/dsh@1.2.3`.
    pub fn package_spec(&self) -> (r: String)
        ensures
            r@ == package_of(self.version@),
    {
        if self.wants_latest() {
            "@deepseek-ai/dsh".to_owned()
        } else {
            "@deepseek-ai/dsh@".to_owned().concat(self.version.as_str())
        }
    }

    /// True when the chosen pm needs bun installed.
    pub fn needs_bun(&self) -> (r: bool)
        ensures
            r == (self.pm == Pm::Bun),
    {
        self.pm == Pm::Bun
    }

    /// True when the chosen pm needs pnpm installed.
    pub fn needs_pnpm(&self) -> (r: bool)
        ensures
            r == (self.pm == Pm::Pnpm),
    {
        self.pm == Pm::Pnpm
    }

    /// True when the configured package manager is nub: its binary is ensured
    /// with the runtime and used for the dsh deps install.
    pub fn needs_nub(&self) -> (r: bool)
        ensures
            r == (self.pm == Pm::Nub),
    {
        self.pm == Pm::Nub
    }
}

impl Default for Dsh {
    fn default() -> (r: Dsh)
        ensures
            r.is_default(),
    {
        Dsh {
            flags: "--profile web --host 127.0.0.1 --port 0".to_owned(),
            pm: Pm::Nub,
            version: "latest".to_owned(),
            mode: DshMode::Hybrid,
            auto_update: true,
            single_instance: false,
        }
    }
}

/// Which window backend is *preferred*. Every value falls back to the other
/// backend when the preferred one is unavailable.
#[derive(Debug, Clone, Copy, PartialEq, Eq, Structural)]
pub enum UiMode {
    /// Prefer the embedded WebView, then fall back to an external browser.
    Webview,
    /// Prefer an external web browser, then fall back to the WebView.
    Browser,
}

impl Default for UiMode {
    fn default() -> (r: UiMode)
        ensures
            r == UiMode::Webview,
    {
        UiMode::Webview
    }
}

/// `[ui]` section.
#[derive(Debug, Clone, Copy, PartialEq, Eq, Structural)]
pub struct Ui {
    /// `webview` / `browser`: a preference, not a hard choice.
    pub mode: UiMode,
    /// When `true`, closing the launcher window hides it to the system tray
    /// instead of exiting, so dsh keeps running in the background.
    pub close_to_tray: bool,
    /// Only allow one dshl instance on this machine (a launcher-level mutex,
    /// distinct from `[dsh] single-instance` which guards dsh itself).
    pub single_instance: bool,
}

impl Default for Ui {
    fn default() -> (r: Ui)
        ensures
            r == (Ui { mode: UiMode::Webview, close_to_tray: false, single_instance: false }),
    {
        Ui { mode: UiMode::Webview, close_to_tray: false, single_instance: false }
    }
}

/// Root configuration.
#[derive(Debug, Clone, PartialEq, Eq)]
pub struct Config {
    /// `off` / `on` / `force` (default `on`).
    pub auto_mirror: MirrorMode,
    pub mirrors: Mirrors,
    pub dsh: Dsh,
    pub ui: Ui,
}

impl Config {
    pub open spec fn is_default(self) -> bool {
        &&& self.auto_mirror == MirrorMode::On
        &&& self.mirrors.is_default()
        &&& self.dsh.is_default()
        &&& self.ui == (Ui {
            mode: UiMode::Webview,
            close_to_tray: false,
            single_instance: false,
        })
    }
}

impl Default for Config {
    fn default() -> (r: Config)
        ensures
            r.is_default(),
    {
        Config {
            auto_mirror: MirrorMode::On,
            mirrors: Mirrors::default(),
            dsh: Dsh::default(),
            ui: Ui::default(),
        }
    }
}

/// Result of locating and parsing the configuration.
#[derive(Debug, Clone)]
pub struct Loaded {
    pub config: Config,
    /// Path of the file the config was read from or written to.
    pub path: Option<String>,
    /// When a config file existed but could not be used, this carries the
    /// human-readable error (the built-in defaults are used in that case).
    pub parse_error: Option<String>,
}

// ---- discovery -----------------------------------------------------------

pub open spec fn default_path(host: HostView) -> Seq<char> {
    path_in(host.os, host.config_dir(), "dshl.toml"@)
}

/// The path where a missing config would be written.
pub fn default_config_path(host: &Host) -> (r: String)
    ensures
        r@ == default_path(host@),
{
    join(host.os, config_dir(host).as_str(), "dshl.toml")
}

/// The paths that are looked at without a `--config` argument: the working
/// directory, the directory of the executable, the config directory, and on
/// Linux the system-wide one.
pub open spec fn search_path(host: HostView, exe_dir: Option<Seq<char>>) -> Seq<Seq<char>> {
    seq!["dshl.toml"@] + (match exe_dir {
        Some(dir) => seq![path_in(host.os, dir, "dshl.toml"@)],
        None => seq![],
    }) + seq![default_path(host)] + (if host.os == Os::Linux {
        seq!["/etc/dshl/dshl.toml"@]
    } else {
        seq![]
    })
}

/// The paths at which the configuration is looked for, in priority order. An
/// explicit path is the only one.
pub open spec fn candidates_of(
    host: HostView,
    cli_path: Option<Seq<char>>,
    exe_dir: Option<Seq<char>>,
) -> Seq<Seq<char>> {
    match cli_path {
        Some(p) => seq![p],
        None => search_path(host, exe_dir),
    }
}

/// The paths at which the configuration is looked for, in priority order.
pub fn candidates(host: &Host, cli_path: &Option<String>, exe_dir: &Option<String>) -> (r: Vec<
    String,
>)
    ensures
        views(r@) == candidates_of(host@, opt_view(*cli_path), opt_view(*exe_dir)),
{
    let mut v: Vec<String> = Vec::new();
    match cli_path {
        Some(p) => {
            v.push(p.clone());
            assert(views(v@) =~= seq![p@]);
        },
        None => {
            v.push("dshl.toml".to_owned());
            if let Some(exe) = exe_dir {
                v.push(join(host.os, exe.as_str(), "dshl.toml"));
            }
            v.push(default_config_path(host));
            if host.os == Os::Linux {
                v.push("/etc/dshl/dshl.toml".to_owned());
            }
            assert(views(v@) =~= search_path(host@, opt_view(*exe_dir)));
        },
    }
    v
}

/// What to do to get the configuration.
#[derive(Debug)]
pub enum Source {
    /// Read and parse this file.
    Read(String),
    /// The explicitly named file does not exist.
    Missing(String),
    /// There is no file anywhere: write the default template here.
    Generate(String),
}

/// Whether the configuration comes from where it should.
pub open spec fn is_source(
    r: Source,
    host: HostView,
    cli_path: Option<Seq<char>>,
    exe_dir: Option<Seq<char>>,
    is_file: Seq<bool>,
) -> bool {
    match crate::platform::paths::first_chosen(candidates_of(host, cli_path, exe_dir), is_file) {
        Some(path) => r matches Source::Read(p) && p@ == path,
        None => match cli_path {
            Some(path) => r matches Source::Missing(p) && p@ == path,
            None => r matches Source::Generate(p) && p@ == default_path(host),
        },
    }
}

/// Where the configuration comes from, given which of the [`candidates`] are
/// files: the first that is one. Without any, an explicit path is an error,
/// and otherwise the default path gets a template.
pub fn source(
    host: &Host,
    cli_path: &Option<String>,
    exe_dir: &Option<String>,
    is_file: &Vec<bool>,
) -> (r: Source)
    ensures
        is_source(r, host@, opt_view(*cli_path), opt_view(*exe_dir), is_file@),
{
    let list = candidates(host, cli_path, exe_dir);
    match crate::platform::paths::choose_first(&list, is_file) {
        Some(path) => Source::Read(path),
        None => match cli_path {
            Some(p) => Source::Missing(p.clone()),
            None => Source::Generate(default_config_path(host)),
        },
    }
}

/// What came of following a [`Source`].
#[derive(Debug)]
pub enum Outcome {
    /// The file was read and parsed; or a template was written, and this is
    /// what it stands for.
    Done(Config),
    /// The file was read but is no valid configuration: the parser's message.
    Malformed(String),
    /// Reading or writing failed: the system's message.
    Failed(String),
}

pub open spec fn failure_text(source: Source, outcome: Outcome) -> Option<Seq<char>> {
    match source {
        Source::Missing(path) => Some("config file not found: "@ + path@),
        Source::Read(_) => match outcome {
            Outcome::Done(_) => None,
            Outcome::Malformed(e) => Some(e@),
            Outcome::Failed(e) => Some("read failed: "@ + e@),
        },
        Source::Generate(_) => match outcome {
            Outcome::Done(_) => None,
            Outcome::Malformed(e) => Some(e@),
            Outcome::Failed(e) => Some("failed to write default config: "@ + e@),
        },
    }
}

pub open spec fn source_path(source: Source) -> Seq<char> {
    match source {
        Source::Read(p) => p@,
        Source::Missing(p) => p@,
        Source::Generate(p) => p@,
    }
}

/// The configuration that a [`Source`] and its outcome give.
///
/// Whatever fails, there is a configuration: the built-in defaults, with the
/// reason beside them.
pub fn load(source: Source, outcome: Outcome) -> (r: Loaded)
    ensures
        opt_view(r.path) == Some(source_path(source)),
        opt_view(r.parse_error) == failure_text(source, outcome),
        r.parse_error is Some ==> r.config.is_default(),
        r.parse_error is None && source is Read ==> r.config == outcome->Done_0,
        r.parse_error is None && source is Generate ==> r.config.is_default(),
{
    match source {
        Source::Missing(path) => {
            let error = "config file not found: ".to_owned().concat(path.as_str());
            Loaded { config: Config::default(), path: Some(path), parse_error: Some(error) }
        },
        Source::Read(path) => match outcome {
            Outcome::Done(config) => Loaded { config, path: Some(path), parse_error: None },
            Outcome::Malformed(e) => Loaded {
                config: Config::default(),
                path: Some(path),
                parse_error: Some(e),
            },
            Outcome::Failed(e) => Loaded {
                config: Config::default(),
                path: Some(path),
                parse_error: Some("read failed: ".to_owned().concat(e.as_str())),
            },
        },
        Source::Generate(path) => {
            let parse_error = match outcome {
                Outcome::Done(_) => None,
                Outcome::Malformed(e) => Some(e),
                Outcome::Failed(e) => Some(
                    "failed to write default config: ".to_owned().concat(e.as_str()),
                ),
            };
            Loaded { config: Config::default(), path: Some(path), parse_error }
        },
    }
}

// ---- laws ----------------------------------------------------------------

/// Versions pin nothing exactly where they are empty or `latest`; every other
/// one is part of the package, so that different versions are different
/// packages.
pub proof fn versions_are_part_of_the_package(a: Seq<char>, b: Seq<char>)
    ensures
        is_latest(a) <==> a == "latest"@ || a == Seq::<char>::empty(),
        is_latest(a) ==> package_of(a) == "@deepseek-ai/dsh"@,
        !is_latest(a) && !is_latest(b) ==> (package_of(a) == package_of(b) <==> a == b),
        !is_latest(a) ==> package_of(a) != package_of("latest"@),
        !is_latest(a) ==> package_of(a).len() == "@deepseek-ai/dsh@"@.len() + a.len(),
{
    reveal_strlit("@deepseek-ai/dsh");
    reveal_strlit("@deepseek-ai/dsh@");
    if a.len() == 0 {
        assert(a =~= seq![]);
    }
    let name = "@deepseek-ai/dsh@"@;
    assert((name + a).skip(name.len() as int) =~= a);
    assert((name + b).skip(name.len() as int) =~= b);
}

/// A named configuration is the only one that is looked for; otherwise the
/// working directory comes first, then the executable's, then the user's, and
/// on Linux the system's comes last.
pub proof fn a_named_configuration_is_the_only_one(
    host: HostView,
    named: Seq<char>,
    exe_dir: Option<Seq<char>>,
)
    ensures
        candidates_of(host, Some(named), exe_dir) == seq![named],
        ({
            let all = candidates_of(host, None, exe_dir);
            &&& all[0] == "dshl.toml"@
            &&& exe_dir is Some ==> all[1] == path_in(host.os, exe_dir->0, "dshl.toml"@)
            &&& all.contains(path_in(host.os, host.config_dir(), "dshl.toml"@))
            &&& host.os == Os::Linux ==> all.last() == "/etc/dshl/dshl.toml"@
            &&& host.os != Os::Linux ==> all.last() == default_path(host)
            &&& all.len() == 2 + (if exe_dir is Some {
                1int
            } else {
                0
            }) + (if host.os == Os::Linux {
                1int
            } else {
                0
            })
        }),
        default_path(host) == path_in(host.os, host.config_dir(), "dshl.toml"@),
{
    let all = candidates_of(host, None, exe_dir);
    let at: int = if exe_dir is Some {
        2
    } else {
        1
    };
    assert(all[at] == default_path(host));
}

/// A failure is reported exactly where the configuration could not be read or
/// written; the reason names the missing file, or holds what the parser or the
/// system said.
pub proof fn failures_are_reported_with_their_reason(source: Source, outcome: Outcome)
    ensures
        failure_text(source, outcome) is None <==> !(source is Missing) && outcome is Done,
        source matches Source::Missing(p) ==> failure_text(source, outcome) == Some(
            "config file not found: "@ + p@,
        ),
        !(source is Missing) ==> (outcome matches Outcome::Malformed(e) ==> failure_text(
            source,
            outcome,
        ) == Some(e@)),
        source is Read ==> (outcome matches Outcome::Failed(e) ==> failure_text(source, outcome)
            == Some("read failed: "@ + e@)),
        source is Generate ==> (outcome matches Outcome::Failed(e) ==> failure_text(source, outcome)
            == Some("failed to write default config: "@ + e@)),
{
}

/// The defaults pin no version, keep dsh up to date, take a global dsh that
/// will do, and use mirrors without naming one.
pub proof fn the_defaults(c: Config)
    requires
        c.is_default(),
    ensures
        is_latest(c.dsh.version@),
        c.dsh.auto_update,
        !c.dsh.single_instance,
        c.dsh.mode == DshMode::Hybrid,
        c.dsh.pm == Pm::Nub,
        c.dsh.flags@ == "--profile web --host 127.0.0.1 --port 0"@,
        c.auto_mirror == MirrorMode::On,
        c.mirrors.npm@.len() == 0,
        c.mirrors.cargo@.len() == 0,
        c.mirrors.nodejs_release@.len() == 0,
        c.mirrors.bun_download@.len() == 0,
        c.mirrors.github@.len() == 0,
        c.ui.mode == UiMode::Webview,
        !c.ui.close_to_tray,
        !c.ui.single_instance,
{
}

/// The first file that is there is read; where none is, a named one is missing
/// and the default one is written.
pub proof fn the_first_file_is_read(
    r: Source,
    host: HostView,
    cli_path: Option<Seq<char>>,
    exe_dir: Option<Seq<char>>,
    is_file: Seq<bool>,
    i: int,
)
    requires
        is_source(r, host, cli_path, exe_dir, is_file),
        is_file.len() == candidates_of(host, cli_path, exe_dir).len(),
        0 <= i < is_file.len(),
    ensures
        is_file[i] && (forall|j: int| 0 <= j < i ==> !#[trigger] is_file[j]) ==> (
        r matches Source::Read(p) && p@ == candidates_of(host, cli_path, exe_dir)[i]),
        (forall|j: int| 0 <= j < is_file.len() ==> !#[trigger] is_file[j]) ==> {
            &&& cli_path is Some ==> (r matches Source::Missing(p) && p@ == cli_path->0)
            &&& cli_path is None ==> (r matches Source::Generate(p) && p@ == path_in(
                host.os,
                host.config_dir(),
                "dshl.toml"@,
            ))
        },
        is_file[i] ==> r is Read,
{
    crate::platform::paths::the_first_runnable_path_is_found(
        candidates_of(host, cli_path, exe_dir),
        is_file,
        i,
    );
}

} // verus!
