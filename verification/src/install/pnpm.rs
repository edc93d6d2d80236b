//! pnpm: its installation, and where its global executables are.
//!
//! pnpm is installed through `npm i -g pnpm` when missing: node (and with it
//! npm) is always present at that point. The global bin directories (where
//! `pnpm add -g` links executables) are resolved so the caller can prepend
//! them to PATH; a freshly installed pnpm is not on the ambient PATH and
//! neither is the dsh it links.

use vstd::prelude::*;
use super::runtime::{extended_path, prepend_path, resolved_directories_come_first};
use crate::config::{Config, Pm};
use crate::message::{Line, LineView};
use crate::mirror::{MirrorConfig, MirrorView};
use crate::platform::path::{
    is_letter, lists, lists_each_once, lists_path, same_path, unix_paths_are_joined_by_one_slash,
};
use crate::platform::paths::{or_empty, path_in, path_in2, path_in3, Host, HostView};
use crate::platform::{home_dir, join, Os};
use crate::probe::Tool;
use crate::process::command::{plain, with_env, Cmd, CmdView};
use crate::text::{
    chars_of, find_char, find_in, is_white, lemma_find_char, lines, lines_of, opt_view, slice_of,
    split_on, the_first_line_ends_at_the_line_feed, trim, trim_end_of, trim_start_of, trimmed,
    trimmed_end_of, trimmed_start_of, views, white_space_around_a_text_is_trimmed,
};

verus! {

/// What to do about pnpm.
#[derive(Debug)]
pub enum PnpmPlan {
    /// The configuration does not need it.
    NotNeeded,
    /// It is there; what is said about it.
    Present(Line),
    /// It has to be installed; what is said about it.
    Install(Line),
}

/// What is said about pnpm.
pub open spec fn pnpm_line(pnpm: Tool) -> LineView {
    LineView::Text(
        if !pnpm.found {
            "未找到 pnpm，通过 npm 安装"@
        } else {
            match pnpm.version {
                Some(v) => "pnpm "@ + v.text() + " 满足要求"@,
                None => "已找到 pnpm ("@ + or_empty(opt_view(pnpm.path)) + ")"@,
            }
        },
    )
}

/// Whether this is what to do about pnpm.
pub open spec fn is_pnpm_plan(r: PnpmPlan, pm: Pm, pnpm: Tool) -> bool {
    if pm != Pm::Pnpm {
        r is NotNeeded
    } else if pnpm.found {
        r matches PnpmPlan::Present(m) && m@ == pnpm_line(pnpm)
    } else {
        r matches PnpmPlan::Install(m) && m@ == pnpm_line(pnpm)
    }
}

/// What to do about pnpm, given the one that was found. Any version will do.
pub fn ensure_pnpm(config: &Config, pnpm: &Tool) -> (r: PnpmPlan)
    ensures
        is_pnpm_plan(r, config.dsh.pm, *pnpm),
{
    if !config.dsh.needs_pnpm() {
        return PnpmPlan::NotNeeded;
    }
    if !pnpm.found {
        return PnpmPlan::Install(Line::Text("未找到 pnpm，通过 npm 安装".to_owned()));
    }
    match pnpm.version {
        Some(v) => PnpmPlan::Present(
            Line::Text("pnpm ".to_owned().concat(v.to_text().as_str()).concat(" 满足要求")),
        ),
        None => {
            let path = match &pnpm.path {
                Some(p) => p.clone(),
                None => String::new(),
            };
            assert(path@ =~= or_empty(opt_view(pnpm.path)));
            PnpmPlan::Present(
                Line::Text("已找到 pnpm (".to_owned().concat(path.as_str()).concat(")")),
            )
        },
    }
}

/// `npm install -g pnpm`, with node's directory in front of the `PATH`: the
/// npm of a freshly installed node lives there.
pub open spec fn pnpm_install(
    npm: Seq<char>,
    node_dir: Seq<char>,
    host: HostView,
    mirror: MirrorView,
) -> CmdView {
    CmdView {
        envs: seq![("PATH"@, extended_path(host.os, seq![node_dir], host.path))]
            + mirror.npm_env(),
        ..plain(npm, seq!["install"@, "-g"@, "pnpm"@])
    }
}

/// The command that installs pnpm.
pub fn pnpm_install_command(npm: &str, node_dir: &str, host: &Host, mirror: &MirrorConfig) -> (r:
    Cmd)
    ensures
        r@ == pnpm_install(npm@, node_dir@, host@, mirror@),
{
    let mut dirs: Vec<String> = Vec::new();
    dirs.push(node_dir.to_owned());
    assert(views(dirs@) =~= seq![node_dir@]);
    let mut c = Cmd::new(npm);
    c.arg("install");
    c.arg("-g");
    c.arg("pnpm");
    c.env("PATH", prepend_path(host, &dirs).as_str());
    with_env(&mut c, &mirror.npm_env());
    assert(c@ =~= pnpm_install(npm@, node_dir@, host@, mirror@));
    c
}

/// `pnpm bin -g`, with node's directory in front of the `PATH`.
pub fn pnpm_bin_command(pnpm: &str, node_dir: &str, host: &Host) -> (r: Cmd)
    ensures
        r@ == (CmdView {
            envs: seq![("PATH"@, extended_path(host.os, seq![node_dir@], host@.path))],
            ..plain(pnpm@, seq!["bin"@, "-g"@])
        }),
{
    let mut dirs: Vec<String> = Vec::new();
    dirs.push(node_dir.to_owned());
    assert(views(dirs@) =~= seq![node_dir@]);
    let mut c = Cmd::new(pnpm);
    c.arg("bin");
    c.arg("-g");
    c.env("PATH", prepend_path(host, &dirs).as_str());
    assert(c@ =~= (CmdView {
        envs: seq![("PATH"@, extended_path(host.os, seq![node_dir@], host@.path))],
        ..plain(pnpm@, seq!["bin"@, "-g"@])
    }));
    c
}

// ---- global bin directories ----------------------------------------------

/// A crude "this looks like an absolute path" check.
pub open spec fn is_dir_like(os: Os, s: Seq<char>) -> bool {
    if os == Os::Windows {
        crate::platform::paths::has_drive(os, s) || (s.len() > 0 && (s[0] == '\\' || s[0] == '/'))
    } else {
        s.len() > 0 && (s[0] == '/' || s[0] == '~')
    }
}

/// A crude "this looks like an absolute path" check used to pick the pnpm
/// bin dir out of command output.
pub fn looks_like_dir(os: Os, s: &str) -> (r: bool)
    ensures
        r == is_dir_like(os, s@),
{
    let v = chars_of(s);
    if v.len() == 0 {
        return false;
    }
    if os == Os::Windows {
        (v.len() >= 2 && (('a' <= v[0] && v[0] <= 'z') || ('A' <= v[0] && v[0] <= 'Z')) && v[1]
            == ':') || v[0] == '\\' || v[0] == '/'
    } else {
        v[0] == '/' || v[0] == '~'
    }
}

/// The first line of an output, without the white space and the quotes around
/// it.
pub open spec fn first_line(text: Seq<char>) -> Seq<char> {
    let rows = lines_of(text);
    let line = if rows.len() > 0 {
        rows[0]
    } else {
        seq![]
    };
    trimmed(trimmed_end_of(trimmed_start_of(trimmed(line), '"'), '"'))
}

/// The text between the first two quotes of an output.
pub open spec fn quoted_part(text: Seq<char>) -> Option<Seq<char>> {
    let start = find_char(text, '"', 0);
    if start >= text.len() {
        None
    } else {
        let end = find_char(text, '"', start + 1);
        if end >= text.len() {
            None
        } else {
            Some(trimmed(text.subrange(start + 1, end)))
        }
    }
}

/// The directory that an output names: its first line, or else what an error
/// message quotes.
pub open spec fn named_dir(os: Os, text: Seq<char>) -> Seq<Seq<char>> {
    if is_dir_like(os, first_line(text)) {
        seq![first_line(text)]
    } else {
        match quoted_part(text) {
            Some(q) => if is_dir_like(os, q) {
                seq![q]
            } else {
                seq![]
            },
            None => seq![],
        }
    }
}

/// The directories that pnpm uses by default: on Windows the layouts of pnpm 11
/// and pnpm 10.
pub open spec fn default_dirs(host: HostView) -> Seq<Seq<char>> {
    if host.os == Os::Windows && host.localappdata is Some {
        seq![
            path_in2(host.os, host.localappdata->0, "pnpm"@, "bin"@),
            path_in(host.os, host.localappdata->0, "pnpm"@),
        ]
    } else {
        seq![path_in3(host.os, or_empty(host.home_dir()), ".local"@, "share"@, "pnpm"@)]
    }
}

/// A list with one more directory, unless it is in it.
pub open spec fn with_new(os: Os, list: Seq<Seq<char>>, dir: Seq<char>) -> Seq<Seq<char>> {
    if lists_path(os, list, dir) {
        list
    } else {
        list.push(dir)
    }
}

/// A list with more directories, each unless it is in it.
pub open spec fn with_all_new(os: Os, list: Seq<Seq<char>>, more: Seq<Seq<char>>) -> Seq<
    Seq<char>,
>
    decreases more.len(),
{
    if more.len() == 0 {
        list
    } else {
        with_new(os, with_all_new(os, list, more.drop_last()), more.last())
    }
}

fn push_new(os: Os, list: &mut Vec<String>, dir: String)
    ensures
        views(final(list)@) == with_new(os, views(old(list)@), dir@),
{
    if !lists(os, list, dir.as_str()) {
        list.push(dir);
        assert(views(list@) =~= views(old(list)@).push(dir@));
    }
}

fn first_line_of(text: &str) -> (r: String)
    ensures
        r@ == first_line(text@),
{
    let rows = lines(text);
    let line = if rows.len() > 0 {
        assert(lines_of(text@)[0] == rows@[0]@);
        rows[0].clone()
    } else {
        String::new()
    };
    let inner = trim_end_of(trim_start_of(trim(line.as_str()).as_str(), '"').as_str(), '"');
    trim(inner.as_str())
}

fn quoted_part_of(text: &str) -> (r: Option<String>)
    ensures
        opt_view(r) == quoted_part(text@),
{
    let v = chars_of(text);
    let start: usize = find_in(&v, '"', 0);
    if start >= v.len() {
        return None;
    }
    let end: usize = find_in(&v, '"', start + 1);
    if end >= v.len() {
        return None;
    }
    Some(trim(slice_of(&v, start + 1, end).as_str()))
}

/// Resolve pnpm's global bin directories out of what `pnpm bin -g` printed
/// (stdout, then stderr).
///
/// `pnpm bin -g` is authoritative, but on machines where that directory is
/// not on PATH it exits non-zero and prints an error that still quotes the
/// configured path. Fallback chain: printed line, path quoted in the error,
/// platform default.
pub fn pnpm_bin_dirs(host: &Host, text: &str) -> (r: Vec<String>)
    ensures
        views(r@) == with_all_new(host.os, named_dir(host.os, text@), default_dirs(host@)),
{
    let mut dirs: Vec<String> = Vec::new();
    let first = first_line_of(text);
    if looks_like_dir(host.os, first.as_str()) {
        dirs.push(first);
    } else if let Some(quoted) = quoted_part_of(text) {
        if looks_like_dir(host.os, quoted.as_str()) {
            dirs.push(quoted);
        }
    }
    assert(views(dirs@) =~= named_dir(host.os, text@));
    let ghost named = views(dirs@);
    proof {
        reveal_with_fuel(with_all_new, 3);
    }
    if host.os == Os::Windows && host.localappdata.is_some() {
        if let Some(base) = &host.localappdata {
            let pnpm = join(host.os, base.as_str(), "pnpm");
            let bin = join(host.os, pnpm.as_str(), "bin");
            proof {
                let d = default_dirs(host@);
                assert(d.drop_last() =~= seq![bin@]);
                assert(d.drop_last().drop_last() =~= seq![]);
            }
            push_new(host.os, &mut dirs, bin);
            push_new(host.os, &mut dirs, pnpm);
        }
    } else {
        let home = match home_dir(host) {
            Some(h) => h,
            None => String::new(),
        };
        assert(home@ =~= or_empty(host@.home_dir()));
        let os = host.os;
        let local = join(os, home.as_str(), ".local");
        let dir = join(os, join(os, local.as_str(), "share").as_str(), "pnpm");
        assert(default_dirs(host@).drop_last() =~= seq![]);
        push_new(os, &mut dirs, dir);
    }
    dirs
}

proof fn lemma_with_all_new(os: Os, list: Seq<Seq<char>>, more: Seq<Seq<char>>)
    requires
        lists_each_once(os, list),
    ensures
        lists_each_once(os, with_all_new(os, list, more)),
        forall|i: int|
            0 <= i < more.len() ==> lists_path(
                os,
                with_all_new(os, list, more),
                #[trigger] more[i],
            ),
        with_all_new(os, list, more).len() >= list.len(),
        with_all_new(os, list, more).take(list.len() as int) == list,
    decreases more.len(),
{
    if more.len() == 0 {
        assert(list.take(list.len() as int) =~= list);
    } else {
        let last = more.last();
        let before = with_all_new(os, list, more.drop_last());
        let r = with_all_new(os, list, more);
        lemma_with_all_new(os, list, more.drop_last());
        assert(r.take(list.len() as int) =~= before.take(list.len() as int));
        if !lists_path(os, before, last) {
            assert(r == before.push(last));
            assert forall|i: int, j: int| 0 <= i < j < r.len() implies !same_path(
                os,
                #[trigger] r[i],
                #[trigger] r[j],
            ) by {
                assert(r[i] == before[i]);
                if j < before.len() {
                    assert(r[j] == before[j]);
                }
            }
            assert(same_path(os, r[before.len() as int], last));
        }
        assert forall|i: int| 0 <= i < more.len() implies lists_path(os, r, #[trigger] more[i]) by {
            if i < more.len() - 1 {
                assert(more.drop_last()[i] == more[i]);
                assert(lists_path(os, before, more.drop_last()[i]));
                let k = choose|k: int|
                    0 <= k < before.len() && same_path(os, #[trigger] before[k], more[i]);
                assert(r[k] == before[k]);
            }
        }
    }
}

/// Whatever pnpm printed, the directory that it names comes first, its default
/// directories are among the result, and no directory stands in it twice,
/// however it is written.
pub proof fn default_bin_directories_are_kept(host: HostView, text: Seq<char>)
    ensures
        ({
            let named = named_dir(host.os, text);
            let r = with_all_new(host.os, named, default_dirs(host));
            &&& r.len() >= named.len()
            &&& r.take(named.len() as int) == named
            &&& lists_each_once(host.os, r)
            &&& forall|i: int|
                0 <= i < default_dirs(host).len() ==> lists_path(
                    host.os,
                    r,
                    #[trigger] default_dirs(host)[i],
                )
        }),
{
    lemma_with_all_new(host.os, named_dir(host.os, text), default_dirs(host));
}

proof fn lemma_quotes_are_stripped(dir: Seq<char>)
    requires
        dir.len() > 0,
        !dir.contains('"'),
        !is_white(dir[0]),
        !is_white(dir.last()),
    ensures
        trimmed(trimmed_end_of(trimmed_start_of(trimmed(dir), '"'), '"')) == dir,
        trimmed(
            trimmed_end_of(trimmed_start_of(trimmed(seq!['"'] + dir + seq!['"']), '"'), '"'),
        ) == dir,
{
    let none = Seq::<char>::empty();
    let quoted = seq!['"'] + dir + seq!['"'];
    assert(!is_white('"'));
    white_space_around_a_text_is_trimmed(none, dir, none);
    white_space_around_a_text_is_trimmed(none, quoted, none);
    assert(dir[0] != '"' && dir.last() != '"') by {
        if dir[0] == '"' || dir[dir.len() - 1] == '"' {
            assert(dir.contains('"'));
        }
    }
    let tail = dir + seq!['"'];
    assert(quoted.skip(1) =~= tail);
    assert(tail[0] == dir[0]);
    reveal_with_fuel(trimmed_start_of, 2);
    reveal_with_fuel(trimmed_end_of, 2);
    assert(tail.drop_last() =~= dir);
}

/// The directory that pnpm prints on its first line is taken, in quotes or
/// without them, whatever follows.
pub proof fn a_printed_directory_is_taken(os: Os, dir: Seq<char>, rest: Seq<char>)
    requires
        dir.len() > 0,
        !dir.contains('"'),
        !dir.contains('\n'),
        !dir.contains('\r'),
        !is_white(dir.last()),
        if os == Os::Windows {
            dir.len() > 2 && is_letter(dir[0]) && dir[1] == ':'
        } else {
            dir[0] == '/'
        },
    ensures
        named_dir(os, dir) == seq![dir],
        named_dir(os, dir + seq!['\n'] + rest) == seq![dir],
        named_dir(os, seq!['"'] + dir + seq!['"'] + seq!['\n'] + rest) == seq![dir],
{
    let quoted = seq!['"'] + dir + seq!['"'];
    lemma_quotes_are_stripped(dir);
    the_first_line_ends_at_the_line_feed(dir, rest);
    assert(!quoted.contains('\n') && !quoted.contains('\r')) by {
        if quoted.contains('\n') {
            let k = choose|k: int| 0 <= k < quoted.len() && quoted[k] == '\n';
            assert(dir[k - 1] == '\n');
        }
        if quoted.contains('\r') {
            let k = choose|k: int| 0 <= k < quoted.len() && quoted[k] == '\r';
            assert(dir[k - 1] == '\r');
        }
    }
    the_first_line_ends_at_the_line_feed(quoted, rest);
}

/// Where the first line is no directory, the one that the message quotes is
/// taken, and none where nothing quoted is one.
pub proof fn a_quoted_directory_is_taken(
    os: Os,
    before: Seq<char>,
    dir: Seq<char>,
    after: Seq<char>,
)
    requires
        !before.contains('"'),
        !dir.contains('"'),
        dir.len() > 0,
        !is_white(dir[0]),
        !is_white(dir.last()),
        !is_dir_like(os, first_line(before + seq!['"'] + dir + seq!['"'] + after)),
    ensures
        named_dir(os, before + seq!['"'] + dir + seq!['"'] + after) == (if is_dir_like(os, dir) {
            seq![dir]
        } else {
            seq![]
        }),
{
    let text = before + seq!['"'] + dir + seq!['"'] + after;
    let n = before.len() as int;
    let m = n + 1 + dir.len();
    lemma_find_char(text, '"', 0);
    assert(text[n] == '"');
    let start = find_char(text, '"', 0);
    assert(start == n) by {
        if start < n {
            assert(before[start] == '"');
        }
    }
    lemma_find_char(text, '"', n + 1);
    assert(text[m] == '"');
    let end = find_char(text, '"', n + 1);
    assert(end == m) by {
        if end < m {
            assert(dir[end - n - 1] == '"');
        }
    }
    assert(text.subrange(n + 1, m) =~= dir);
    let none = Seq::<char>::empty();
    white_space_around_a_text_is_trimmed(none, dir, none);
    assert(none + dir + none =~= dir);
}

/// Absolute paths look like directories, relative ones and words do not.
pub proof fn absolute_paths_look_like_directories(s: Seq<char>)
    ensures
        is_dir_like(Os::Linux, s) <==> s.len() > 0 && (s[0] == '/' || s[0] == '~'),
        is_dir_like(Os::Macos, s) <==> s.len() > 0 && (s[0] == '/' || s[0] == '~'),
        is_dir_like(Os::Windows, s) <==> s.len() > 0 && (s[0] == '\\' || s[0] == '/' || (s.len() > 1
            && is_letter(s[0]) && s[1] == ':')),
{
}

/// The place where executables are looked for by default is the first of
/// pnpm's own.
pub proof fn the_default_place_is_listed_first(host: HostView)
    ensures
        host.default_pnpm_bin_dir() matches Some(d) ==> default_dirs(host)[0] == d,
        host.os != Os::Windows ==> default_dirs(host).len() == 1,
        host.os != Os::Windows && host.home_dir() is Some && host.home_dir()->0.last() != '/'
            ==> default_dirs(host)[0] == host.home_dir()->0 + "/.local/share/pnpm"@,
        host.os == Os::Windows && host.localappdata is Some ==> {
            &&& default_dirs(host).len() == 2
            &&& default_dirs(host)[0] == path_in(host.os, default_dirs(host)[1], "bin"@)
            &&& default_dirs(host)[1] == path_in(host.os, host.localappdata->0, "pnpm"@)
        },
{
    if host.os != Os::Windows && host.home_dir() is Some && host.home_dir()->0.last() != '/' {
        let home = host.home_dir()->0;
        reveal_strlit(".local");
        reveal_strlit("share");
        reveal_strlit("pnpm");
        reveal_strlit("/.local/share/pnpm");
        unix_paths_are_joined_by_one_slash(host.os, home, ".local"@);
        let local = path_in(host.os, home, ".local"@);
        assert(local.last() == 'l');
        unix_paths_are_joined_by_one_slash(host.os, local, "share"@);
        let share = path_in(host.os, local, "share"@);
        assert(share.last() == 'e');
        unix_paths_are_joined_by_one_slash(host.os, share, "pnpm"@);
        assert(default_dirs(host)[0] =~= home + "/.local/share/pnpm"@);
    }
}

/// pnpm is installed by the npm that is given, with node in front of its
/// `PATH` and the registry of the mirrors.
pub proof fn pnpm_is_installed_with_node_in_front(
    npm: Seq<char>,
    node_dir: Seq<char>,
    host: HostView,
    mirror: MirrorView,
)
    requires
        host.os != Os::Windows,
        !node_dir.contains(':'),
        forall|i: int| 0 <= i < host.path.len() ==> !(#[trigger] host.path[i]).contains(':'),
    ensures
        ({
            let c = pnpm_install(npm, node_dir, host, mirror);
            &&& c.program == npm
            &&& c.args == seq!["install"@, "-g"@, "pnpm"@]
            &&& c.envs.len() == 1 + mirror.npm_env().len()
            &&& c.envs[0].0 == "PATH"@
            &&& split_on(c.envs[0].1, ':') == seq![node_dir] + host.path
            &&& c.envs.skip(1) == mirror.npm_env()
        }),
{
    let c = pnpm_install(npm, node_dir, host, mirror);
    resolved_directories_come_first(host.os, seq![node_dir], host.path);
    assert(c.envs.skip(1) =~= mirror.npm_env());
}

/// What is said of pnpm names the version or the place of the one that is
/// there.
pub proof fn what_is_said_of_pnpm(pnpm: Tool)
    ensures
        pnpm.found && pnpm.version is Some ==> pnpm_line(pnpm) == LineView::Text(
            "pnpm "@ + pnpm.version->0.text() + " 满足要求"@,
        ),
        pnpm.found && pnpm.version is None && pnpm.path is Some ==> pnpm_line(pnpm)
            == LineView::Text("已找到 pnpm ("@ + pnpm.path->0@ + ")"@),
        !pnpm.found ==> pnpm_line(pnpm) == LineView::Text("未找到 pnpm，通过 npm 安装"@),
{
}

/// pnpm is left alone where it is not the package manager, used where it is
/// found in any version, and installed otherwise.
pub proof fn any_pnpm_will_do(r: PnpmPlan, pm: Pm, pnpm: Tool)
    requires
        is_pnpm_plan(r, pm, pnpm),
    ensures
        r is NotNeeded <==> pm != Pm::Pnpm,
        r is Present <==> pm == Pm::Pnpm && pnpm.found,
        r is Install <==> pm == Pm::Pnpm && !pnpm.found,
        r matches PnpmPlan::Present(m) ==> m@ == pnpm_line(pnpm),
        r matches PnpmPlan::Install(m) ==> m@ == pnpm_line(pnpm),
{
}

/// Nothing is quoted in a text with fewer than two quotes.
pub proof fn one_quote_quotes_nothing(before: Seq<char>, after: Seq<char>)
    requires
        !before.contains('"'),
        !after.contains('"'),
    ensures
        quoted_part(before) is None,
        quoted_part(before + seq!['"'] + after) is None,
{
    let text = before + seq!['"'] + after;
    let n = before.len() as int;
    lemma_find_char(before, '"', 0);
    lemma_find_char(text, '"', 0);
    assert(text[n] == '"');
    let start = find_char(text, '"', 0);
    if start < n {
        assert(before[start] == '"');
    }
    lemma_find_char(text, '"', n + 1);
    let end = find_char(text, '"', n + 1);
    if end < text.len() {
        assert(after[end - n - 1] == '"');
    }
}

} // verus!
