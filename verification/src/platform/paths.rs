//! Home, cache and config directories, and the lookup of executables.

use vstd::prelude::*;
use vstd::string::*;
use super::detect::Os;
use super::path::unix_paths_are_joined_by_one_slash;
pub use super::path::{dir_of, has_drive, join, parent, path_in};
use crate::text::{opt_view, views};

verus! {

/// What the launcher knows about its host: the OS it was built for and the
/// environment variables that it looks at.
#[derive(Debug)]
pub struct Host {
    pub os: Os,
    /// `USERPROFILE`
    pub userprofile: Option<String>,
    /// `HOME`
    pub home: Option<String>,
    /// `DSHL_CACHE`
    pub dshl_cache: Option<String>,
    /// `APPDATA`
    pub appdata: Option<String>,
    /// `LOCALAPPDATA`
    pub localappdata: Option<String>,
    /// `XDG_CONFIG_HOME`
    pub xdg_config_home: Option<String>,
    /// The directories of `PATH`.
    pub path: Vec<String>,
}

/// A host as plain texts.
pub struct HostView {
    pub os: Os,
    pub userprofile: Option<Seq<char>>,
    pub home: Option<Seq<char>>,
    pub dshl_cache: Option<Seq<char>>,
    pub appdata: Option<Seq<char>>,
    pub localappdata: Option<Seq<char>>,
    pub xdg_config_home: Option<Seq<char>>,
    pub path: Seq<Seq<char>>,
}

impl View for Host {
    type V = HostView;

    open spec fn view(&self) -> HostView {
        HostView {
            os: self.os,
            userprofile: opt_view(self.userprofile),
            home: opt_view(self.home),
            dshl_cache: opt_view(self.dshl_cache),
            appdata: opt_view(self.appdata),
            localappdata: opt_view(self.localappdata),
            xdg_config_home: opt_view(self.xdg_config_home),
            path: views(self.path@),
        }
    }
}

// ---- paths below a directory ---------------------------------------------

/// Two names below a directory, one inside the other.
pub open spec fn path_in2(os: Os, base: Seq<char>, a: Seq<char>, b: Seq<char>) -> Seq<char> {
    path_in(os, path_in(os, base, a), b)
}

fn join2(os: Os, base: &str, a: &str, b: &str) -> (r: String)
    ensures
        r@ == path_in2(os, base@, a@, b@),
{
    join(os, join(os, base, a).as_str(), b)
}

/// Three names below a directory, each inside the one before.
pub open spec fn path_in3(
    os: Os,
    base: Seq<char>,
    a: Seq<char>,
    b: Seq<char>,
    c: Seq<char>,
) -> Seq<char> {
    path_in(os, path_in2(os, base, a, b), c)
}

fn join3(os: Os, base: &str, a: &str, b: &str, c: &str) -> (r: String)
    ensures
        r@ == path_in3(os, base@, a@, b@, c@),
{
    join(os, join2(os, base, a, b).as_str(), c)
}

// ---- directories ---------------------------------------------------------

/// The text, or the empty one where there is none.
pub open spec fn or_empty(s: Option<Seq<char>>) -> Seq<char> {
    match s {
        Some(s) => s,
        None => seq![],
    }
}

fn text_or_empty(s: &Option<String>) -> (r: String)
    ensures
        r@ == or_empty(opt_view(*s)),
{
    match s {
        Some(s) => s.clone(),
        None => String::new(),
    }
}

impl HostView {
    /// The home directory: the first of its two variables that is set and not
    /// empty.
    pub open spec fn home_dir(self) -> Option<Seq<char>> {
        if self.userprofile matches Some(p) && p.len() > 0 {
            self.userprofile
        } else if self.home matches Some(p) && p.len() > 0 {
            self.home
        } else {
            None
        }
    }

    pub open spec fn cache_dir(self) -> Seq<char> {
        if self.dshl_cache matches Some(p) && p.len() > 0 {
            self.dshl_cache->0
        } else {
            path_in(
                self.os,
                match self.home_dir() {
                    Some(h) => h,
                    None => "."@,
                },
                ".cache"@,
            )
        }
    }

    pub open spec fn bin_dir(self) -> Seq<char> {
        path_in(self.os, self.cache_dir(), "bin"@)
    }

    pub open spec fn config_dir(self) -> Seq<char> {
        let home = or_empty(self.home_dir());
        match self.os {
            Os::Windows => path_in(
                self.os,
                match self.appdata {
                    Some(d) => d,
                    None => home,
                },
                "dshl"@,
            ),
            Os::Macos => path_in3(self.os, home, "Library"@, "Application Support"@, "dshl"@),
            Os::Linux => path_in(
                self.os,
                match self.xdg_config_home {
                    Some(d) => d,
                    None => path_in(self.os, home, ".config"@),
                },
                "dshl"@,
            ),
        }
    }

    pub open spec fn known_tool_dirs(self) -> Seq<Seq<char>> {
        let os = self.os;
        let home = or_empty(self.home_dir());
        let common = seq![
            path_in2(os, home, ".bun"@, "bin"@),
            path_in(os, home, ".fnm"@),
            path_in2(os, home, ".local"@, "bin"@),
            self.bin_dir(),
            path_in3(os, home, ".nvm"@, "versions"@, "node"@),
        ];
        common + if os == Os::Windows {
            seq![
                path_in(os, or_empty(self.appdata), "npm"@),
                path_in(os, or_empty(self.appdata), "fnm"@),
                path_in(os, or_empty(self.localappdata), "pnpm"@),
                path_in2(os, or_empty(self.localappdata), "pnpm"@, "bin"@),
            ]
        } else {
            seq![
                "/usr/local/bin"@,
                "/opt/homebrew/bin"@,
                path_in3(os, home, ".local"@, "share"@, "pnpm"@),
            ]
        }
    }

    /// The directories searched for executables, in priority order.
    pub open spec fn search_dirs(self) -> Seq<Seq<char>> {
        self.path + self.known_tool_dirs()
    }

    pub open spec fn default_pnpm_bin_dir(self) -> Option<Seq<char>> {
        if self.os == Os::Windows {
            match self.localappdata {
                Some(d) => Some(path_in2(self.os, d, "pnpm"@, "bin"@)),
                None => None,
            }
        } else {
            match self.home_dir() {
                Some(h) => Some(path_in3(self.os, h, ".local"@, "share"@, "pnpm"@)),
                None => None,
            }
        }
    }
}

fn non_empty(s: &Option<String>) -> (r: Option<String>)
    ensures
        opt_view(r) == (if opt_view(*s) matches Some(p) && p.len() > 0 {
            opt_view(*s)
        } else {
            None
        }),
{
    match s {
        Some(p) => if p.as_str().is_empty() {
            None
        } else {
            Some(p.clone())
        },
        None => None,
    }
}

/// Home directory.
pub fn home_dir(host: &Host) -> (r: Option<String>)
    ensures
        opt_view(r) == host@.home_dir(),
{
    let r = non_empty(&host.userprofile);
    if r.is_some() {
        r
    } else {
        non_empty(&host.home)
    }
}

/// The launcher cache directory: `~/.cache`, unless `DSHL_CACHE` names another.
pub fn cache_dir(host: &Host) -> (r: String)
    ensures
        r@ == host@.cache_dir(),
{
    match non_empty(&host.dshl_cache) {
        Some(dir) => dir,
        None => {
            let home = match home_dir(host) {
                Some(h) => h,
                None => ".".to_owned(),
            };
            join(host.os, home.as_str(), ".cache")
        },
    }
}

/// `~/.cache/bin`, used for the fnm auto-install fallback.
pub fn bin_dir(host: &Host) -> (r: String)
    ensures
        r@ == host@.bin_dir(),
{
    join(host.os, cache_dir(host).as_str(), "bin")
}

/// The directory that holds `dshl.toml` by convention (config home).
pub fn config_dir(host: &Host) -> (r: String)
    ensures
        r@ == host@.config_dir(),
{
    let home = text_or_empty(&home_dir(host));
    match host.os {
        Os::Windows => {
            let base = match &host.appdata {
                Some(d) => d.clone(),
                None => home,
            };
            join(host.os, base.as_str(), "dshl")
        },
        Os::Macos => join3(host.os, home.as_str(), "Library", "Application Support", "dshl"),
        Os::Linux => {
            let base = match &host.xdg_config_home {
                Some(d) => d.clone(),
                None => join(host.os, home.as_str(), ".config"),
            };
            join(host.os, base.as_str(), "dshl")
        },
    }
}

/// Well-known install locations for the tools dshl manages.
pub fn known_tool_dirs(host: &Host) -> (r: Vec<String>)
    ensures
        views(r@) == host@.known_tool_dirs(),
{
    let os = host.os;
    let home = text_or_empty(&home_dir(host));
    let h = home.as_str();
    let mut dirs: Vec<String> = Vec::new();
    dirs.push(join2(os, h, ".bun", "bin"));
    dirs.push(join(os, h, ".fnm"));
    dirs.push(join2(os, h, ".local", "bin"));
    dirs.push(bin_dir(host));
    dirs.push(join3(os, h, ".nvm", "versions", "node"));
    if os == Os::Windows {
        let appdata = text_or_empty(&host.appdata);
        let local = text_or_empty(&host.localappdata);
        dirs.push(join(os, appdata.as_str(), "npm"));
        dirs.push(join(os, appdata.as_str(), "fnm"));
        // pnpm 10 puts its global bin in `pnpm`, pnpm 11 in `pnpm\bin`.
        dirs.push(join(os, local.as_str(), "pnpm"));
        dirs.push(join2(os, local.as_str(), "pnpm", "bin"));
    } else {
        dirs.push("/usr/local/bin".to_owned());
        dirs.push("/opt/homebrew/bin".to_owned());
        dirs.push(join3(os, h, ".local", "share", "pnpm"));
    }
    assert(views(dirs@) =~= host@.known_tool_dirs());
    dirs
}

/// pnpm's default global bin directory (pnpm 10/11 layout), used as a
/// fallback when `pnpm bin -g` cannot be queried.
pub fn default_pnpm_bin_dir(host: &Host) -> (r: Option<String>)
    ensures
        opt_view(r) == host@.default_pnpm_bin_dir(),
{
    if host.os == Os::Windows {
        match &host.localappdata {
            Some(d) => Some(join2(host.os, d.as_str(), "pnpm", "bin")),
            None => None,
        }
    } else {
        match home_dir(host) {
            Some(h) => Some(join3(host.os, h.as_str(), ".local", "share", "pnpm")),
            None => None,
        }
    }
}

// ---- executables ---------------------------------------------------------

pub open spec fn ext_text(os: Os) -> Seq<char> {
    if os == Os::Windows {
        ".exe"@
    } else {
        ""@
    }
}

/// Executable extension for binaries on this platform.
pub fn executable_ext(os: Os) -> (r: &'static str)
    ensures
        r@ == ext_text(os),
{
    if os == Os::Windows {
        ".exe"
    } else {
        ""
    }
}

/// Append the executable extension to `name` if the platform needs one.
pub fn with_ext(os: Os, name: &str) -> (r: String)
    ensures
        r@ == name@ + ext_text(os),
{
    let mut r = name.to_owned();
    r.append(executable_ext(os));
    r
}

/// The file names under which a tool may be installed, in priority order.
pub open spec fn file_names(os: Os, name: Seq<char>) -> Seq<Seq<char>> {
    if os == Os::Windows {
        seq![name + ".exe"@, name + ".cmd"@, name + ".bat"@, name]
    } else {
        seq![name]
    }
}

fn tool_file_names(os: Os, name: &str) -> (r: Vec<String>)
    ensures
        views(r@) == file_names(os, name@),
{
    let mut list: Vec<String> = Vec::new();
    if os == Os::Windows {
        list.push(with_ext(os, name));
        list.push(name.to_owned().concat(".cmd"));
        list.push(name.to_owned().concat(".bat"));
    }
    list.push(name.to_owned());
    assert(views(list@) =~= file_names(os, name@));
    list
}

/// All paths that the files `names` could have in the directories `dirs`:
/// directory by directory.
pub open spec fn paths_in(os: Os, dirs: Seq<Seq<char>>, names: Seq<Seq<char>>) -> Seq<Seq<char>>
    decreases dirs.len(),
{
    if dirs.len() == 0 {
        seq![]
    } else {
        paths_in(os, dirs.drop_last(), names) + names.map_values(
            |n: Seq<char>| path_in(os, dirs.last(), n),
        )
    }
}

impl HostView {
    /// The paths at which `name` is looked for, in priority order.
    pub open spec fn which_paths(self, name: Seq<char>, extra: Seq<Seq<char>>) -> Seq<Seq<char>> {
        paths_in(self.os, extra + self.search_dirs(), file_names(self.os, name))
    }
}

fn push_paths(os: Os, dir: &str, names: &Vec<String>, out: &mut Vec<String>)
    ensures
        views(final(out)@) == views(old(out)@) + views(names@).map_values(
            |n: Seq<char>| path_in(os, dir@, n),
        ),
{
    let ghost all = views(names@).map_values(|n: Seq<char>| path_in(os, dir@, n));
    let mut i: usize = 0;
    assert(views(out@) =~= views(old(out)@) + all.take(0));
    while i < names.len()
        invariant
            0 <= i <= names@.len(),
            all == views(names@).map_values(|n: Seq<char>| path_in(os, dir@, n)),
            views(out@) == views(old(out)@) + all.take(i as int),
        decreases names@.len() - i,
    {
        let ghost before = out@;
        let path = join(os, dir, names[i].as_str());
        out.push(path);
        assert(views(out@) =~= views(before).push(path@));
        assert(all[i as int] == path@);
        i += 1;
        assert(views(out@) =~= views(old(out)@) + all.take(i as int));
    }
    assert(all.take(i as int) =~= all);
}

fn push_paths_in(os: Os, dirs: &Vec<String>, names: &Vec<String>, out: &mut Vec<String>)
    ensures
        views(final(out)@) == views(old(out)@) + paths_in(os, views(dirs@), views(names@)),
{
    let ghost all = views(dirs@);
    let mut i: usize = 0;
    assert(views(out@) =~= views(old(out)@) + paths_in(os, all.take(0), views(names@)));
    while i < dirs.len()
        invariant
            0 <= i <= dirs@.len(),
            all == views(dirs@),
            views(out@) == views(old(out)@) + paths_in(os, all.take(i as int), views(names@)),
        decreases dirs@.len() - i,
    {
        let ghost next = all.take(i + 1);
        assert(next.drop_last() =~= all.take(i as int));
        assert(next.last() == dirs@[i as int]@);
        push_paths(os, dirs[i].as_str(), names, out);
        assert(views(out@) =~= views(old(out)@) + paths_in(os, next, views(names@)));
        i += 1;
    }
    assert(all.take(i as int) =~= all);
}

proof fn lemma_paths_in_concat(
    os: Os,
    a: Seq<Seq<char>>,
    b: Seq<Seq<char>>,
    names: Seq<Seq<char>>,
)
    ensures
        paths_in(os, a + b, names) == paths_in(os, a, names) + paths_in(os, b, names),
    decreases b.len(),
{
    if b.len() == 0 {
        assert(a + b =~= a);
        assert(paths_in(os, a, names) + paths_in(os, b, names) =~= paths_in(os, a, names));
    } else {
        lemma_paths_in_concat(os, a, b.drop_last(), names);
        assert((a + b).drop_last() =~= a + b.drop_last());
        assert(paths_in(os, a + b, names) =~= paths_in(os, a, names) + paths_in(os, b, names));
    }
}

/// The paths at which an executable is looked for: in `extra_dirs` first, then
/// in `PATH` and the well-known tool locations.
pub fn which_paths(host: &Host, name: &str, extra_dirs: &Vec<String>) -> (r: Vec<String>)
    ensures
        views(r@) == host@.which_paths(name@, views(extra_dirs@)),
{
    let names = tool_file_names(host.os, name);
    let known = known_tool_dirs(host);
    let mut out: Vec<String> = Vec::new();
    push_paths_in(host.os, extra_dirs, &names, &mut out);
    push_paths_in(host.os, &host.path, &names, &mut out);
    push_paths_in(host.os, &known, &names, &mut out);
    proof {
        let os = host.os;
        let n = views(names@);
        let e = views(extra_dirs@);
        let p = views(host.path@);
        let k = views(known@);
        lemma_paths_in_concat(os, p, k, n);
        lemma_paths_in_concat(os, e, p + k, n);
        assert(views(out@) =~= paths_in(os, e + (p + k), n));
    }
    out
}

/// Whether a file can be run, from what the system says of it: on Unix a file
/// needs a permission bit for it, on Windows it only has to be one.
pub fn is_executable(os: Os, is_file: bool, mode: u32) -> (r: bool)
    ensures
        r == (is_file && (os == Os::Windows || mode & 0o111 != 0)),
{
    is_file && (os == Os::Windows || mode & 0o111 != 0)
}

/// The first text of a list that its flag chooses.
pub open spec fn first_chosen(list: Seq<Seq<char>>, flags: Seq<bool>) -> Option<Seq<char>>
    decreases list.len(),
{
    if list.len() == 0 || flags.len() == 0 {
        None
    } else if flags[0] {
        Some(list[0])
    } else {
        first_chosen(list.skip(1), flags.skip(1))
    }
}

/// The first text of a list that its flag chooses; one without a flag is not
/// chosen.
pub fn choose_first(list: &Vec<String>, flags: &Vec<bool>) -> (r: Option<String>)
    ensures
        opt_view(r) == first_chosen(views(list@), flags@),
{
    let ghost all = views(list@);
    let mut i: usize = 0;
    assert(all.skip(0) =~= all);
    assert(flags@.skip(0) =~= flags@);
    while i < list.len() && i < flags.len()
        invariant
            0 <= i <= list@.len(),
            i <= flags@.len(),
            all == views(list@),
            first_chosen(all, flags@) == first_chosen(all.skip(i as int), flags@.skip(i as int)),
        decreases list@.len() - i,
    {
        assert(all.skip(i as int)[0] == list@[i as int]@);
        assert(all.skip(i as int).skip(1) =~= all.skip(i + 1));
        assert(flags@.skip(i as int).skip(1) =~= flags@.skip(i + 1));
        if flags[i] {
            return Some(list[i].clone());
        }
        i += 1;
    }
    None
}

/// Locate an executable by name on `extra_dirs` first, then `PATH` plus the
/// well-known tool locations.
///
/// `extra_dirs` lets callers find tools that were installed by an earlier
/// flow step (fnm's node bin, pnpm's global bin, ...) even when those
/// directories are not on the ambient `PATH`. `runnable` tells of each path of
/// [`which_paths`] whether it is an executable file; a path without a flag is
/// none.
pub fn which_in(host: &Host, name: &str, extra_dirs: &Vec<String>, runnable: &Vec<bool>) -> (r:
    Option<String>)
    ensures
        opt_view(r) == first_chosen(
            host@.which_paths(name@, views(extra_dirs@)),
            runnable@,
        ),
{
    let paths = which_paths(host, name, extra_dirs);
    choose_first(&paths, runnable)
}

/// Locate an executable by name on `PATH` plus the well-known tool locations.
pub fn which(host: &Host, name: &str, runnable: &Vec<bool>) -> (r: Option<String>)
    ensures
        opt_view(r) == first_chosen(host@.which_paths(name@, seq![]), runnable@),
{
    let none: Vec<String> = Vec::new();
    assert(views(none@) =~= seq![]);
    which_in(host, name, &none, runnable)
}

/// What a tool is started as where it was found at `found`, or not at all.
pub open spec fn tool_path(os: Os, name: Seq<char>, found: Option<Seq<char>>) -> Seq<char> {
    match found {
        Some(path) => path,
        None => if os == Os::Windows {
            name + ".cmd"@
        } else {
            name
        },
    }
}

/// Resolve a CLI tool to a runnable path or name.
///
/// On Windows, Node tools (`npm`, `npx`, `pnpm`, `pnpx`) are `.cmd` shims, and
/// `CreateProcess` only finds `.exe` by itself, so they must be resolved to
/// their `.cmd` path. Returns the full path when found, else the name (with
/// `.cmd`).
pub fn tool(host: &Host, name: &str, runnable: &Vec<bool>) -> (r: String)
    ensures
        r@ == tool_path(
            host.os,
            name@,
            first_chosen(host@.which_paths(name@, seq![]), runnable@),
        ),
{
    match which(host, name, runnable) {
        Some(path) => path,
        None => if host.os == Os::Windows {
            name.to_owned().concat(".cmd")
        } else {
            name.to_owned()
        },
    }
}

// ---- laws ----------------------------------------------------------------

/// The home directory is the one of the user profile where that is set, and
/// otherwise the one of `HOME`; an empty variable counts as not set.
pub proof fn the_profile_comes_before_home(host: HostView)
    ensures
        host.userprofile matches Some(p) && p.len() > 0 ==> host.home_dir() == host.userprofile,
        (host.userprofile is None || host.userprofile->0.len() == 0) && host.home is Some
            && host.home->0.len() > 0 ==> host.home_dir() == host.home,
        (host.userprofile is None || host.userprofile->0.len() == 0) && (host.home is None
            || host.home->0.len() == 0) ==> host.home_dir() is None,
        host.home_dir() matches Some(d) ==> d.len() > 0,
{
}

/// A named cache directory is used as it is; otherwise the cache is in the home
/// directory, or in the working directory where there is none.
pub proof fn the_cache_is_where_it_is_named(host: HostView)
    requires
        host.os != Os::Windows,
    ensures
        host.dshl_cache matches Some(p) && p.len() > 0 ==> host.cache_dir() == host.dshl_cache->0,
        host.dshl_cache is None || host.dshl_cache->0.len() == 0 ==> {
            &&& host.home_dir() is None ==> host.cache_dir() == "./.cache"@
            &&& host.home_dir() is Some && host.home_dir()->0.last() != '/' ==> host.cache_dir()
                == host.home_dir()->0 + "/.cache"@
        },
        host.cache_dir().len() > 0 && host.cache_dir().last() != '/' ==> host.bin_dir()
            == host.cache_dir() + "/bin"@,
{
    reveal_strlit(".");
    reveal_strlit(".cache");
    reveal_strlit("./.cache");
    reveal_strlit("/.cache");
    reveal_strlit("bin");
    reveal_strlit("/bin");
    the_profile_comes_before_home(host);
    unix_paths_are_joined_by_one_slash(host.os, "."@, ".cache"@);
    assert("."@ + seq!['/'] + ".cache"@ =~= "./.cache"@);
    if host.home_dir() is Some {
        let home = host.home_dir()->0;
        unix_paths_are_joined_by_one_slash(host.os, home, ".cache"@);
        assert(home + seq!['/'] + ".cache"@ =~= home + "/.cache"@);
    }
    unix_paths_are_joined_by_one_slash(host.os, host.cache_dir(), "bin"@);
    assert(host.cache_dir() + seq!['/'] + "bin"@ =~= host.cache_dir() + "/bin"@);
}

/// The configuration lies where each system keeps it: below `APPDATA` on
/// Windows, in the library on macOS, and below `XDG_CONFIG_HOME` or `.config`
/// on Linux.
pub proof fn the_configuration_lies_where_the_system_keeps_it(host: HostView, dir: Seq<char>)
    requires
        dir.len() > 0,
        dir.last() != '/',
    ensures
        host.os == Os::Windows && host.appdata == Some(dir) ==> host.config_dir() == path_in(
            Os::Windows,
            dir,
            "dshl"@,
        ),
        host.os == Os::Macos && host.home_dir() == Some(dir) ==> host.config_dir() == dir
            + "/Library/Application Support/dshl"@,
        host.os == Os::Linux && host.xdg_config_home == Some(dir) ==> host.config_dir() == dir
            + "/dshl"@,
        host.os == Os::Linux && host.xdg_config_home is None && host.home_dir() == Some(dir)
            ==> host.config_dir() == dir + "/.config/dshl"@,
{
    let os = host.os;
    reveal_strlit("dshl");
    reveal_strlit("/dshl");
    reveal_strlit(".config");
    reveal_strlit("/.config/dshl");
    reveal_strlit("Library");
    reveal_strlit("Application Support");
    reveal_strlit("/Library/Application Support/dshl");
    if os != Os::Windows {
        unix_paths_are_joined_by_one_slash(os, dir, "dshl"@);
        unix_paths_are_joined_by_one_slash(os, dir, ".config"@);
        unix_paths_are_joined_by_one_slash(os, dir, "Library"@);
        let config = path_in(os, dir, ".config"@);
        let library = path_in(os, dir, "Library"@);
        assert(config.last() == 'g' && library.last() == 'y');
        unix_paths_are_joined_by_one_slash(os, config, "dshl"@);
        unix_paths_are_joined_by_one_slash(os, library, "Application Support"@);
        let support = path_in(os, library, "Application Support"@);
        assert(support.last() == 't');
        unix_paths_are_joined_by_one_slash(os, support, "dshl"@);
        assert(dir + seq!['/'] + "dshl"@ =~= dir + "/dshl"@);
        assert(config + seq!['/'] + "dshl"@ =~= dir + "/.config/dshl"@);
        assert(support + seq!['/'] + "dshl"@ =~= dir + "/Library/Application Support/dshl"@);
    }
}

/// What the other variables hold does not move a directory: hosts that agree on
/// the variables of a place agree on the place.
pub proof fn places_depend_on_their_variables_alone(a: HostView, b: HostView)
    requires
        a.os == b.os,
    ensures
        a.userprofile == b.userprofile && a.home == b.home ==> a.home_dir() == b.home_dir(),
        a.home_dir() == b.home_dir() && a.dshl_cache == b.dshl_cache ==> a.cache_dir()
            == b.cache_dir() && a.bin_dir() == b.bin_dir(),
        a.os == Os::Windows && a.appdata == b.appdata && a.appdata is Some ==> a.config_dir()
            == b.config_dir(),
        a.os == Os::Macos && a.home_dir() == b.home_dir() ==> a.config_dir() == b.config_dir(),
        a.os == Os::Linux && a.xdg_config_home == b.xdg_config_home && a.xdg_config_home is Some
            ==> a.config_dir() == b.config_dir(),
        a.os == Os::Windows && a.localappdata == b.localappdata ==> a.default_pnpm_bin_dir()
            == b.default_pnpm_bin_dir(),
        a.os != Os::Windows && a.home_dir() == b.home_dir() ==> a.default_pnpm_bin_dir()
            == b.default_pnpm_bin_dir(),
{
}

/// Tools are looked for in `PATH` first and then in the places where they are
/// known to be installed: the cache's executables, bun's, fnm's and nvm's, and
/// on Unix the usual ones.
pub proof fn tools_are_looked_for_in_path_first(host: HostView)
    ensures
        host.search_dirs().len() > host.path.len(),
        host.search_dirs().take(host.path.len() as int) == host.path,
        host.search_dirs().skip(host.path.len() as int) == host.known_tool_dirs(),
        host.known_tool_dirs().contains(host.bin_dir()),
        host.known_tool_dirs().contains(
            path_in2(host.os, or_empty(host.home_dir()), ".bun"@, "bin"@),
        ),
        host.known_tool_dirs().contains(path_in(host.os, or_empty(host.home_dir()), ".fnm"@)),
        host.known_tool_dirs().contains(
            path_in2(host.os, or_empty(host.home_dir()), ".local"@, "bin"@),
        ),
        host.known_tool_dirs().contains(
            path_in3(host.os, or_empty(host.home_dir()), ".nvm"@, "versions"@, "node"@),
        ),
        host.os != Os::Windows ==> {
            &&& host.known_tool_dirs().len() == 8
            &&& host.known_tool_dirs().contains("/usr/local/bin"@)
            &&& host.known_tool_dirs().contains("/opt/homebrew/bin"@)
        },
        host.os != Os::Windows && host.home_dir() is Some ==> host.known_tool_dirs().contains(
            host.default_pnpm_bin_dir()->0,
        ),
        host.os == Os::Windows ==> {
            &&& host.known_tool_dirs().len() == 9
            &&& host.known_tool_dirs().contains(path_in(host.os, or_empty(host.appdata), "npm"@))
            &&& host.known_tool_dirs().contains(path_in(host.os, or_empty(host.appdata), "fnm"@))
            &&& host.known_tool_dirs().contains(
                path_in(host.os, or_empty(host.localappdata), "pnpm"@),
            )
        },
        host.os == Os::Windows && host.localappdata is Some ==> host.known_tool_dirs().contains(
            host.default_pnpm_bin_dir()->0,
        ),
{
    let k = host.known_tool_dirs();
    assert(host.search_dirs().take(host.path.len() as int) =~= host.path);
    assert(host.search_dirs().skip(host.path.len() as int) =~= k);
    assert(k[0] == path_in2(host.os, or_empty(host.home_dir()), ".bun"@, "bin"@));
    assert(k[1] == path_in(host.os, or_empty(host.home_dir()), ".fnm"@));
    assert(k[2] == path_in2(host.os, or_empty(host.home_dir()), ".local"@, "bin"@));
    assert(k[3] == host.bin_dir());
    assert(k[4] == path_in3(host.os, or_empty(host.home_dir()), ".nvm"@, "versions"@, "node"@));
    if host.os == Os::Windows {
        assert(k[5] == path_in(host.os, or_empty(host.appdata), "npm"@));
        assert(k[6] == path_in(host.os, or_empty(host.appdata), "fnm"@));
        assert(k[7] == path_in(host.os, or_empty(host.localappdata), "pnpm"@));
        assert(k[8] == path_in2(host.os, or_empty(host.localappdata), "pnpm"@, "bin"@));
    } else {
        assert(k[5] == "/usr/local/bin"@);
        assert(k[6] == "/opt/homebrew/bin"@);
        assert(k[7] == path_in3(host.os, or_empty(host.home_dir()), ".local"@, "share"@, "pnpm"@));
    }
}

/// Directories are gone through one by one, each with all names before the
/// next: the file `j` of the directory `i` stands at its place, and nothing
/// else is looked for.
pub proof fn directories_are_gone_through_one_by_one(
    os: Os,
    dirs: Seq<Seq<char>>,
    names: Seq<Seq<char>>,
    i: int,
    j: int,
)
    requires
        0 <= i < dirs.len(),
        0 <= j < names.len(),
    ensures
        paths_in(os, dirs, names).len() == dirs.len() * names.len(),
        0 <= i * names.len() + j < paths_in(os, dirs, names).len(),
        paths_in(os, dirs, names)[i * names.len() + j] == path_in(os, dirs[i], names[j]),
    decreases dirs.len(),
{
    let n = names.len() as int;
    let k = dirs.len() as int;
    let before = paths_in(os, dirs.drop_last(), names);
    lemma_paths_in_len(os, dirs.drop_last(), names);
    assert((k - 1) * n + n == k * n) by (nonlinear_arith);
    if i == k - 1 {
        assert(0 <= (k - 1) * n) by (nonlinear_arith)
            requires
                k >= 1,
                n >= 0,
        ;
    } else {
        directories_are_gone_through_one_by_one(os, dirs.drop_last(), names, i, j);
    }
}

proof fn lemma_paths_in_len(os: Os, dirs: Seq<Seq<char>>, names: Seq<Seq<char>>)
    ensures
        paths_in(os, dirs, names).len() == dirs.len() * names.len(),
    decreases dirs.len(),
{
    let n = names.len() as int;
    let k = dirs.len() as int;
    if k > 0 {
        lemma_paths_in_len(os, dirs.drop_last(), names);
        assert((k - 1) * n + n == k * n) by (nonlinear_arith);
    } else {
        assert(0 * n == 0);
    }
}

/// On Unix the file that is looked for first is the one in the first of the
/// given directories, or in the first of `PATH` where none is given.
pub proof fn given_directories_are_searched_first(
    host: HostView,
    name: Seq<char>,
    extra: Seq<Seq<char>>,
)
    ensures
        extra.len() > 0 && host.os != Os::Windows ==> host.which_paths(name, extra)[0] == path_in(
            host.os,
            extra[0],
            name,
        ),
        extra.len() == 0 && host.path.len() > 0 && host.os != Os::Windows ==> host.which_paths(
            name,
            extra,
        )[0] == path_in(host.os, host.path[0], name),
        extra.len() > 0 && host.os == Os::Windows ==> {
            &&& host.which_paths(name, extra)[0] == path_in(host.os, extra[0], name + ".exe"@)
            &&& host.which_paths(name, extra)[1] == path_in(host.os, extra[0], name + ".cmd"@)
            &&& host.which_paths(name, extra)[2] == path_in(host.os, extra[0], name + ".bat"@)
            &&& host.which_paths(name, extra)[3] == path_in(host.os, extra[0], name)
        },
        host.which_paths(name, extra).len() == (extra.len() + host.search_dirs().len()) * (
        if host.os == Os::Windows {
            4int
        } else {
            1
        }),
{
    let dirs = extra + host.search_dirs();
    let names = file_names(host.os, name);
    tools_are_looked_for_in_path_first(host);
    lemma_paths_in_len(host.os, dirs, names);
    directories_are_gone_through_one_by_one(host.os, dirs, names, 0, 0);
    if host.os == Os::Windows {
        directories_are_gone_through_one_by_one(host.os, dirs, names, 0, 1);
        directories_are_gone_through_one_by_one(host.os, dirs, names, 0, 2);
        directories_are_gone_through_one_by_one(host.os, dirs, names, 0, 3);
    }
    if extra.len() > 0 {
        assert(dirs[0] == extra[0]);
    } else if host.path.len() > 0 {
        assert(dirs[0] == host.path[0]);
    }
}

/// The first path that can be run is the one that is found, and none is found
/// exactly where none can be run.
pub proof fn the_first_runnable_path_is_found(list: Seq<Seq<char>>, flags: Seq<bool>, i: int)
    requires
        list.len() == flags.len(),
        0 <= i < list.len(),
    ensures
        flags[i] && (forall|j: int| 0 <= j < i ==> !#[trigger] flags[j]) ==> first_chosen(
            list,
            flags,
        ) == Some(list[i]),
        (forall|j: int| 0 <= j < list.len() ==> !#[trigger] flags[j]) ==> first_chosen(
            list,
            flags,
        ) is None,
        flags[i] ==> first_chosen(list, flags) is Some,
    decreases list.len(),
{
    reveal_with_fuel(first_chosen, 2);
    if !flags[0] && list.len() > 1 {
        let rest = flags.skip(1);
        if i > 0 {
            assert(rest[i - 1] == flags[i]);
            assert(list.skip(1)[i - 1] == list[i]);
            assert(forall|j: int| 0 <= j < rest.len() ==> #[trigger] rest[j] == flags[j + 1]);
            the_first_runnable_path_is_found(list.skip(1), rest, i - 1);
        } else {
            assert(forall|j: int| 0 <= j < rest.len() ==> #[trigger] rest[j] == flags[j + 1]);
            the_first_runnable_path_is_found(list.skip(1), rest, 0);
        }
    }
}

/// A tool that was found is started by its path, and another one by its name,
/// which on Windows is that of a script.
pub proof fn a_found_tool_is_started_by_its_path(os: Os, name: Seq<char>, path: Seq<char>)
    ensures
        tool_path(os, name, Some(path)) == path,
        os != Os::Windows ==> tool_path(os, name, None) == name,
        tool_path(Os::Windows, name, None) == name + ".cmd"@,
        ext_text(Os::Windows) == ".exe"@,
        os != Os::Windows ==> ext_text(os) == Seq::<char>::empty(),
        file_names(os, name).last() == name,
        os == Os::Windows ==> file_names(os, name)[0] == name + ext_text(os),
{
    reveal_strlit("");
    assert(""@ =~= seq![]);
}

} // verus!
