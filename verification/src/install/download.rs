//! Downloads: where things are fetched from, the commands that fetch and
//! unpack them, and the search for a file among what was unpacked.

use vstd::prelude::*;
use vstd::string::*;
use crate::config::MirrorMode;
use crate::mirror::{MirrorConfig, MirrorView};
use crate::platform::detect::{os_text, shell_args, shell_program};
use crate::platform::paths::{ext_text, path_in, with_ext, Host};
use crate::platform::{bin_dir, join, shell, shell_command, Os, Shell};
use crate::process::command::{plain, Cmd, CmdView};
use crate::text::{
    a_text_is_found_where_it_first_stands, all_white, chars_of, find, find_char, find_in, find_text,
    is_white, joined, joined_pieces_come_back, lemma_find_char, lemma_trimmed_start_behind, occurs_at,
    only_the_given_character_is_trimmed, opt_view, same, slice_of, split, split_on, trim_end_of,
    trim_start, trimmed_end_of, trimmed_start, views,
};

verus! {

// ---- addresses -----------------------------------------------------------

/// A base address and a name below it, with one slash between them.
pub open spec fn below(base: Seq<char>, name: Seq<char>) -> Seq<char> {
    trimmed_end_of(base, '/') + "/"@ + name
}

fn url_below(base: &str, name: &str) -> (r: String)
    ensures
        r@ == below(base@, name@),
{
    let mut r = trim_end_of(base, '/');
    r.append("/");
    r.append(name);
    r
}

/// A GitHub address, behind the proxy prefix if one is configured and mirrors
/// are on.
pub open spec fn proxied(mirror: MirrorView, original: Seq<char>) -> Seq<char> {
    match mirror.used(mirror.github) {
        Some(prefix) => below(prefix, original),
        None => original,
    }
}

/// Prepend the `github` proxy prefix to a github URL when one is configured.
///
/// A prefix such as `https://ghproxy.com/` is joined to the github URL with a
/// single `/` (trailing slashes are normalised away first), so both
/// `https://ghproxy.com` and `https://ghproxy.com/` produce
/// `https://ghproxy.com/https://github.com/...`.
pub fn proxied_github(mirror: &MirrorConfig, original: &str) -> (r: String)
    ensures
        r@ == proxied(mirror@, original@),
{
    if mirror.enabled() {
        if let Some(g) = &mirror.github {
            return url_below(g.as_str(), original);
        }
    }
    original.to_owned()
}

pub open spec fn registry(mirror: MirrorView) -> Seq<char> {
    match mirror.used(mirror.npm) {
        Some(reg) => trimmed_end_of(reg, '/'),
        None => "https://registry.npmjs.org"@,
    }
}

/// Registry base URL (configured mirror wins; falls back to npmjs.org).
pub fn registry_base(mirror: &MirrorConfig) -> (r: String)
    ensures
        r@ == registry(mirror@),
{
    if mirror.enabled() {
        if let Some(reg) = &mirror.npm {
            return trim_end_of(reg.as_str(), '/');
        }
    }
    "https://registry.npmjs.org".to_owned()
}

/// The part of a package name behind its scope.
pub fn short_name(name: &str) -> (r: String)
    ensures
        r@ == split_on(name@, '/').last(),
{
    let parts = split(name, '/');
    proof {
        assert(split_on(name@, '/').len() > 0) by {
            lemma_find_char(name@, '/', 0);
        }
    }
    let last: usize = parts.len() - 1;
    assert(split_on(name@, '/').last() == parts@[last as int]@);
    parts[last].clone()
}

pub open spec fn tarball(base: Seq<char>, name: Seq<char>, version: Seq<char>) -> Seq<char> {
    base + "/"@ + name + "/-/"@ + split_on(name, '/').last() + "-"@ + version + ".tgz"@
}

/// The address of an npm package's tarball. The name may be scoped.
pub fn tarball_url(mirror: &MirrorConfig, name: &str, version: &str) -> (r: String)
    ensures
        r@ == tarball(registry(mirror@), name@, version@),
{
    let mut r = registry_base(mirror);
    r.append("/");
    r.append(name);
    r.append("/-/");
    r.append(short_name(name).as_str());
    r.append("-");
    r.append(version);
    r.append(".tgz");
    r
}

/// The first string value of `key` in a small flat JSON document: what stands
/// between quotes behind the first `"key":`.
pub open spec fn json_string(json: Seq<char>, key: Seq<char>) -> Option<Seq<char>> {
    let needle = seq!['"'] + key + seq!['"', ':'];
    match find_text(json, needle, 0) {
        None => None,
        Some(at) => {
            let rest = trimmed_start(json.skip(at + needle.len()));
            if rest.len() == 0 || rest[0] != '"' {
                None
            } else {
                let end = find_char(rest, '"', 1);
                if end < rest.len() {
                    Some(rest.subrange(1, end))
                } else {
                    None
                }
            }
        },
    }
}

/// Pull the first `"key": "value"` string out of a small flat JSON document.
pub fn extract_json_string(json: &str, key: &str) -> (r: Option<String>)
    ensures
        opt_view(r) == json_string(json@, key@),
{
    let v = chars_of(json);
    let mut pattern = String::new();
    pattern.push('"');
    pattern.append(key);
    pattern.push('"');
    pattern.push(':');
    let needle = chars_of(pattern.as_str());
    assert(needle@ =~= seq!['"'] + key@ + seq!['"', ':']);
    match find(&v, &needle) {
        None => None,
        Some(at) => {
            assert(at + needle.len() <= v.len());
            let tail = slice_of(&v, at + needle.len(), v.len());
            assert(tail@ =~= json@.skip(at + needle@.len()));
            let rest = chars_of(trim_start(tail.as_str()).as_str());
            if rest.len() == 0 || rest[0] != '"' {
                return None;
            }
            let end: usize = find_in(&rest, '"', 1);
            if end < rest.len() {
                Some(slice_of(&rest, 1, end))
            } else {
                None
            }
        },
    }
}

pub open spec fn fnm_asset(os: Os) -> Seq<char> {
    match os {
        Os::Windows => "fnm-windows.zip"@,
        Os::Macos => "fnm-macos.zip"@,
        Os::Linux => "fnm-linux.zip"@,
    }
}

/// The address of the fnm release binary for an OS.
pub fn fnm_url(os: Os, mirror: &MirrorConfig) -> (r: String)
    ensures
        r@ == proxied(
            mirror@,
            "https://github.com/Schniz/fnm/releases/latest/download/"@ + fnm_asset(os),
        ),
{
    let asset = match os {
        Os::Windows => "fnm-windows.zip",
        Os::Macos => "fnm-macos.zip",
        Os::Linux => "fnm-linux.zip",
    };
    let original = "https://github.com/Schniz/fnm/releases/latest/download/".to_owned().concat(
        asset,
    );
    proxied_github(mirror, original.as_str())
}

/// Where the fnm binary belongs: `~/.cache/bin/fnm`.
pub fn fnm_target(host: &Host) -> (r: String)
    ensures
        r@ == path_in(host.os, host@.bin_dir(), "fnm"@ + ext_text(host.os)),
{
    join(host.os, bin_dir(host).as_str(), with_ext(host.os, "fnm").as_str())
}

// ---- commands ------------------------------------------------------------

/// A snippet that runs through the shell of an OS.
pub open spec fn snippet(os: Os, script: Seq<char>) -> CmdView {
    let shell = if os == Os::Windows {
        Shell::PowerShell
    } else {
        Shell::Bash
    };
    plain(shell_program(shell), shell_args(shell).push(script))
}

/// A command that runs a snippet through the shell of an OS.
pub fn run_snippet(os: Os, script: &str) -> (r: Cmd)
    ensures
        r@ == snippet(os, script@),
{
    let mut c = shell_command(shell(os));
    c.arg(script);
    c
}

pub open spec fn zip_script(os: Os, url: Seq<char>, tmp: Seq<char>, dest: Seq<char>) -> Seq<char> {
    if os == Os::Windows {
        "[Net.ServicePointManager]::SecurityProtocol = [Net.SecurityProtocolType]::Tls12; Invoke-WebRequest -Uri '"@
            + url + "' -OutFile '"@ + tmp + "'; Expand-Archive -Path '"@ + tmp
            + "' -DestinationPath '"@ + dest + "' -Force; Remove-Item '"@ + tmp
            + "' -ErrorAction SilentlyContinue"@
    } else {
        "curl -fsSL '"@ + url + "' -o '"@ + tmp + "' && unzip -q -o '"@ + tmp + "' -d '"@ + dest
            + "' && rm -f '"@ + tmp + "'"@
    }
}

/// The command that downloads a zip archive and unpacks it into a directory,
/// with the platform's built-in tools.
pub fn download_zip(os: Os, url: &str, dest_dir: &str) -> (r: Cmd)
    ensures
        r@ == snippet(
            os,
            zip_script(os, url@, path_in(os, dest_dir@, ".dshl-download.zip"@), dest_dir@),
        ),
{
    let tmp = join(os, dest_dir, ".dshl-download.zip");
    let t = tmp.as_str();
    if os == Os::Windows {
        let mut s =
            "[Net.ServicePointManager]::SecurityProtocol = [Net.SecurityProtocolType]::Tls12; Invoke-WebRequest -Uri '".to_owned();
        s.append(url);
        s.append("' -OutFile '");
        s.append(t);
        s.append("'; Expand-Archive -Path '");
        s.append(t);
        s.append("' -DestinationPath '");
        s.append(dest_dir);
        s.append("' -Force; Remove-Item '");
        s.append(t);
        s.append("' -ErrorAction SilentlyContinue");
        run_snippet(os, s.as_str())
    } else {
        let mut s = "curl -fsSL '".to_owned();
        s.append(url);
        s.append("' -o '");
        s.append(t);
        s.append("' && unzip -q -o '");
        s.append(t);
        s.append("' -d '");
        s.append(dest_dir);
        s.append("' && rm -f '");
        s.append(t);
        s.append("'");
        run_snippet(os, s.as_str())
    }
}

/// The script that downloads a file, continuing a partial one.
pub open spec fn download_script(dest: Seq<char>, url: Seq<char>) -> Seq<char> {
    "curl -fL -C - --retry 2 --retry-delay 2 -o \""@ + dest + "\" \""@ + url + "\""@
}

/// The script that unpacks a `.tgz` into a directory.
pub open spec fn extract_script(tgz: Seq<char>, dir: Seq<char>) -> Seq<char> {
    "tar -xzf \""@ + tgz + "\" -C \""@ + dir + "\""@
}

/// The command that downloads a file, continuing a partial one.
pub fn download_command(os: Os, url: &str, dest: &str) -> (r: Cmd)
    ensures
        r@ == snippet(os, download_script(dest@, url@)),
{
    let mut s = "curl -fL -C - --retry 2 --retry-delay 2 -o \"".to_owned();
    s.append(dest);
    s.append("\" \"");
    s.append(url);
    s.append("\"");
    run_snippet(os, s.as_str())
}

/// The command that unpacks a `.tgz` into a directory.
pub fn extract_command(os: Os, tgz: &str, dest_dir: &str) -> (r: Cmd)
    ensures
        r@ == snippet(os, extract_script(tgz@, dest_dir@)),
{
    let mut s = "tar -xzf \"".to_owned();
    s.append(tgz);
    s.append("\" -C \"");
    s.append(dest_dir);
    s.append("\"");
    run_snippet(os, s.as_str())
}

/// How often a download is tried.
pub const DOWNLOAD_TRIES: u32 = 3;

/// What to do after a try of a download.
#[derive(Debug, Clone, Copy, PartialEq, Eq, Structural)]
pub enum Retry {
    /// The file is there.
    Done,
    /// Remove the partial file and try again.
    Again,
    /// Remove the partial file and report the last error.
    GiveUp,
}

/// What to do after the try number `n`, counted from one.
pub open spec fn retry_after(n: u32, ok: bool) -> Retry {
    if ok {
        Retry::Done
    } else if n < DOWNLOAD_TRIES {
        Retry::Again
    } else {
        Retry::GiveUp
    }
}

/// What to do after the try number `n`, counted from one, went well or not. A
/// failed resume drops the partial file, so that the next try starts clean.
pub fn after_try(n: u32, ok: bool) -> (r: Retry)
    ensures
        r == retry_after(n, ok),
{
    if ok {
        Retry::Done
    } else if n < DOWNLOAD_TRIES {
        Retry::Again
    } else {
        Retry::GiveUp
    }
}

// ---- searching -----------------------------------------------------------

/// An entry of a directory.
#[derive(Debug)]
pub struct Entry {
    pub path: String,
    pub name: String,
    pub is_dir: bool,
}

/// An entry as plain texts.
pub struct EntryView {
    pub path: Seq<char>,
    pub name: Seq<char>,
    pub is_dir: bool,
}

impl View for Entry {
    type V = EntryView;

    open spec fn view(&self) -> EntryView {
        EntryView { path: self.path@, name: self.name@, is_dir: self.is_dir }
    }
}

/// The contents of a list of entries.
pub open spec fn entry_views(list: Seq<Entry>) -> Seq<EntryView> {
    list.map_values(|e: Entry| e@)
}

/// What is searched for below a directory.
#[derive(Debug)]
pub enum Wanted {
    /// A file of this name, with or without the executable extension.
    File(String),
    /// A directory of this name.
    Dir(String),
}

impl Wanted {
    /// Whether an entry is what is searched for.
    pub open spec fn hit(self, os: Os, e: EntryView) -> bool {
        match self {
            Wanted::File(name) => !e.is_dir && (e.name == name@ || e.name == name@ + ext_text(os)),
            Wanted::Dir(name) => e.is_dir && e.name == name@,
        }
    }

    fn is_hit(&self, os: Os, e: &Entry) -> (r: bool)
        ensures
            r == self.hit(os, e@),
    {
        match self {
            Wanted::File(name) => !e.is_dir && (same(e.name.as_str(), name.as_str()) || same(
                e.name.as_str(),
                with_ext(os, name.as_str()).as_str(),
            )),
            Wanted::Dir(name) => e.is_dir && same(e.name.as_str(), name.as_str()),
        }
    }
}

/// The first entry that is searched for.
pub open spec fn first_hit(os: Os, wanted: Wanted, entries: Seq<EntryView>) -> Option<Seq<char>>
    decreases entries.len(),
{
    if entries.len() == 0 {
        None
    } else if first_hit(os, wanted, entries.drop_last()) is Some {
        first_hit(os, wanted, entries.drop_last())
    } else if wanted.hit(os, entries.last()) {
        Some(entries.last().path)
    } else {
        None
    }
}

/// The directories among entries, in their order.
pub open spec fn directories(entries: Seq<EntryView>) -> Seq<Seq<char>>
    decreases entries.len(),
{
    if entries.len() == 0 {
        seq![]
    } else if entries.last().is_dir {
        directories(entries.drop_last()).push(entries.last().path)
    } else {
        directories(entries.drop_last())
    }
}

/// A search under way: the directories that are still to be read. The one that
/// was found last is read next.
#[derive(Debug)]
pub struct Search {
    pub os: Os,
    pub wanted: Wanted,
    pub stack: Vec<String>,
}

impl Search {
    /// A search below `dir`.
    pub fn new(os: Os, dir: &str, wanted: Wanted) -> (r: Search)
        ensures
            r.os == os,
            r.wanted == wanted,
            views(r.stack@) == seq![dir@],
    {
        let mut stack: Vec<String> = Vec::new();
        stack.push(dir.to_owned());
        assert(views(stack@) =~= seq![dir@]);
        Search { os, wanted, stack }
    }

    /// The next directory to read; without one the search is over.
    pub fn next_dir(&mut self) -> (r: Option<String>)
        ensures
            final(self).os == old(self).os,
            final(self).wanted == old(self).wanted,
            if old(self).stack@.len() > 0 {
                &&& opt_view(r) == Some(views(old(self).stack@).last())
                &&& views(final(self).stack@) == views(old(self).stack@).drop_last()
            } else {
                r is None && final(self).stack@ == old(self).stack@
            },
    {
        let r = self.stack.pop();
        assert(old(self).stack@.len() > 0 ==> views(self.stack@) =~= views(
            old(self).stack@,
        ).drop_last());
        r
    }

    /// Takes in the entries of the directory that was read: the first that is
    /// searched for ends the search, and otherwise the directories among them
    /// are to be read, too.
    pub fn visit(&mut self, entries: &Vec<Entry>) -> (r: Option<String>)
        ensures
            final(self).os == old(self).os,
            final(self).wanted == old(self).wanted,
            opt_view(r) == first_hit(old(self).os, old(self).wanted, entry_views(entries@)),
            r is None ==> views(final(self).stack@) == views(old(self).stack@) + directories(
                entry_views(entries@),
            ),
    {
        let ghost all = entry_views(entries@);
        let mut i: usize = 0;
        assert(views(self.stack@) =~= views(old(self).stack@) + directories(all.take(0)));
        while i < entries.len()
            invariant
                0 <= i <= entries@.len(),
                all == entry_views(entries@),
                self.os == old(self).os,
                self.wanted == old(self).wanted,
                first_hit(self.os, self.wanted, all.take(i as int)) is None,
                views(self.stack@) == views(old(self).stack@) + directories(all.take(i as int)),
            decreases entries@.len() - i,
        {
            let e = &entries[i];
            let ghost before = self.stack@;
            assert(all.take(i + 1).drop_last() =~= all.take(i as int));
            assert(all.take(i + 1).last() == e@);
            if self.wanted.is_hit(self.os, e) {
                proof {
                    lemma_first_hit_prefix(self.os, self.wanted, all, i + 1);
                }
                return Some(e.path.clone());
            }
            if e.is_dir {
                self.stack.push(e.path.clone());
                assert(views(self.stack@) =~= views(before).push(e@.path));
            }
            i += 1;
            assert(views(self.stack@) =~= views(old(self).stack@) + directories(
                all.take(i as int),
            ));
        }
        assert(all.take(i as int) =~= all);
        None
    }
}

proof fn lemma_first_hit_prefix(os: Os, wanted: Wanted, all: Seq<EntryView>, i: int)
    requires
        0 <= i <= all.len(),
        first_hit(os, wanted, all.take(i)) is Some,
    ensures
        first_hit(os, wanted, all) == first_hit(os, wanted, all.take(i)),
    decreases all.len() - i,
{
    if i < all.len() {
        assert(all.take(i + 1).drop_last() =~= all.take(i));
        lemma_first_hit_prefix(os, wanted, all, i + 1);
    } else {
        assert(all.take(i) =~= all);
    }
}

/// A prefix with and without slashes at its end gives the same address.
pub proof fn proxy_prefix_needs_no_slash(mirror: MirrorView, slashed: MirrorView, url: Seq<char>)
    requires
        mirror.mode == slashed.mode,
        mirror.github is Some,
        slashed.github == Some(mirror.github->0.push('/')),
    ensures
        proxied(mirror, url) == proxied(slashed, url),
{
    let g = mirror.github->0;
    assert(g.push('/').drop_last() =~= g);
}

/// With mirrors off everything comes from its original source.
pub proof fn off_downloads_from_the_original(mirror: MirrorView, url: Seq<char>)
    requires
        mirror.mode == MirrorMode::Off,
    ensures
        proxied(mirror, url) == url,
        registry(mirror) == "https://registry.npmjs.org"@,
{
}

/// A GitHub address is put behind the configured proxy with one slash between
/// them, however many the proxy ends in; without a proxy it stays as it is,
/// whatever the other mirrors are.
pub proof fn github_goes_through_its_proxy(mirror: MirrorView, n: nat, prefix: Seq<char>, url: Seq<char>)
    requires
        mirror.mode != MirrorMode::Off,
        prefix.len() > 0,
        prefix.last() != '/',
    ensures
        mirror.github == Some(prefix + Seq::new(n, |i: int| '/')) ==> proxied(mirror, url) == prefix
            + seq!['/'] + url,
        mirror.github is None ==> proxied(mirror, url) == url,
{
    only_the_given_character_is_trimmed(n, '/', prefix);
    reveal_strlit("/");
    assert("/"@ =~= seq!['/']);
}

/// Packages come from the configured registry, without the slashes that it
/// ends in, and otherwise from npmjs.org, whatever the other mirrors are.
pub proof fn packages_come_from_the_registry(mirror: MirrorView, n: nat, base: Seq<char>)
    requires
        mirror.mode != MirrorMode::Off,
        base.len() > 0,
        base.last() != '/',
    ensures
        mirror.npm == Some(base + Seq::new(n, |i: int| '/')) ==> registry(mirror) == base,
        mirror.npm is None ==> registry(mirror) == "https://registry.npmjs.org"@,
{
    only_the_given_character_is_trimmed(n, '/', base);
}

/// The tarball of a package stands below its full name, scope included, under
/// the name without the scope and the version.
pub proof fn a_tarball_is_named_without_its_scope(
    base: Seq<char>,
    scope: Seq<char>,
    name: Seq<char>,
    version: Seq<char>,
)
    requires
        !scope.contains('/'),
        !name.contains('/'),
    ensures
        tarball(base, scope + seq!['/'] + name, version) == base + seq!['/'] + scope + seq!['/']
            + name + "/-/"@ + name + seq!['-'] + version + ".tgz"@,
        tarball(base, name, version) == base + seq!['/'] + name + "/-/"@ + name + seq!['-']
            + version + ".tgz"@,
{
    let pieces = seq![scope, name];
    let full = scope + seq!['/'] + name;
    joined_pieces_come_back(pieces, '/');
    reveal_with_fuel(joined, 2);
    assert(joined(pieces, seq!['/']) =~= full);
    joined_pieces_come_back(seq![name], '/');
    reveal_strlit("/");
    reveal_strlit("-");
    assert("/"@ =~= seq!['/']);
    assert("-"@ =~= seq!['-']);
    assert(tarball(base, full, version) =~= base + seq!['/'] + scope + seq!['/'] + name + "/-/"@
        + name + seq!['-'] + version + ".tgz"@);
}

/// A member of a document comes back: what stands in quotes behind its name and
/// a colon, with or without white space before it.
pub proof fn a_named_string_is_found(
    json: Seq<char>,
    before: Seq<char>,
    key: Seq<char>,
    name: Seq<char>,
    blank: Seq<char>,
    value: Seq<char>,
    after: Seq<char>,
)
    requires
        name == seq!['"'] + key + seq!['"', ':'],
        json == before + (name + (blank + (seq!['"'] + value + seq!['"'] + after))),
        all_white(blank),
        !value.contains('"'),
        forall|i: int| 0 <= i < before.len() ==> !#[trigger] occurs_at(json, name, i),
    ensures
        json_string(json, key) == Some(value),
{
    let needle = name;
    let quoted = seq!['"'] + value + seq!['"'] + after;
    let n = before.len() as int;
    assert(json.subrange(n, n + needle.len()) =~= needle);
    assert(occurs_at(json, needle, n));
    a_text_is_found_where_it_first_stands(json, needle, 0);
    assert(find_text(json, needle, 0) == Some(n));
    assert(json.skip(n + needle.len()) =~= blank + quoted);
    lemma_trimmed_start_behind(blank, quoted);
    assert(quoted[0] == '"');
    assert(!is_white('"'));
    assert(trimmed_start(quoted) == quoted);
    lemma_find_char(quoted, '"', 1);
    let end = find_char(quoted, '"', 1);
    assert(quoted[value.len() as int + 1] == '"');
    if end < 1 + value.len() {
        assert(value[end - 1] == '"');
        assert(value.contains('"'));
    }
    assert(end == 1 + value.len());
    assert(quoted.subrange(1, end) =~= value);
}

/// A document that does not hold the name of a member has no such member, and
/// what is found stands in the document in quotes.
pub proof fn nothing_is_found_that_is_not_there(json: Seq<char>, key: Seq<char>, name: Seq<char>)
    requires
        name == seq!['"'] + key + seq!['"', ':'],
    ensures
        (forall|i: int| !#[trigger] occurs_at(json, name, i)) ==> json_string(json, key) is None,
        json_string(json, key) matches Some(value) ==> !value.contains('"'),
{
    let needle = name;
    a_text_is_found_where_it_first_stands(json, needle, 0);
    if json_string(json, key) is Some {
        let at = find_text(json, needle, 0)->0;
        let rest = trimmed_start(json.skip(at + needle.len()));
        lemma_find_char(rest, '"', 1);
        let end = find_char(rest, '"', 1);
        let value = rest.subrange(1, end);
        if value.contains('"') {
            let k = choose|k: int| 0 <= k < value.len() && value[k] == '"';
            assert(rest[k + 1] == '"');
        }
    }
}

/// Each system gets its own release of fnm.
pub proof fn each_system_has_its_own_fnm(a: Os, b: Os)
    ensures
        fnm_asset(a) == "fnm-"@ + os_text(a) + ".zip"@,
        fnm_asset(a) == fnm_asset(b) ==> a == b,
{
    reveal_strlit("fnm-");
    reveal_strlit(".zip");
    reveal_strlit("windows");
    reveal_strlit("macos");
    reveal_strlit("linux");
    reveal_strlit("fnm-windows.zip");
    reveal_strlit("fnm-macos.zip");
    reveal_strlit("fnm-linux.zip");
    assert("fnm-windows.zip"@ =~= "fnm-"@ + "windows"@ + ".zip"@);
    assert("fnm-macos.zip"@ =~= "fnm-"@ + "macos"@ + ".zip"@);
    assert("fnm-linux.zip"@ =~= "fnm-"@ + "linux"@ + ".zip"@);
    assert("fnm-windows.zip"@.len() == 15);
    assert("fnm-macos.zip"@[4] == 'm');
    assert("fnm-linux.zip"@[4] == 'l');
    assert("fnm-macos.zip"@.len() == 13);
    assert("fnm-linux.zip"@.len() == 13);
}

/// A snippet is one argument of the shell, the last: bash on Unix, PowerShell
/// on Windows.
pub proof fn a_snippet_is_one_argument(os: Os, script: Seq<char>)
    ensures
        snippet(os, script).args.last() == script,
        os != Os::Windows ==> snippet(os, script).program == "bash"@ && snippet(os, script).args
            == seq!["-lc"@, script],
        os == Os::Windows ==> snippet(os, script).program == "powershell"@ && snippet(
            os,
            script,
        ).args.contains("-Command"@),
        snippet(os, script).envs.len() == 0,
        snippet(os, script).cwd is None,
{
    assert(os != Os::Windows ==> snippet(os, script).args =~= seq!["-lc"@, script]);
    if os == Os::Windows {
        assert(snippet(os, script).args[2] == "-Command"@);
    }
}

/// Read by its quotes, the script that fetches an archive names its address,
/// then the archive that it is written to and unpacked from, then the
/// directory that it is unpacked into, and last the archive that is removed.
pub proof fn an_archive_is_fetched_unpacked_and_removed(
    os: Os,
    url: Seq<char>,
    tmp: Seq<char>,
    dest: Seq<char>,
)
    requires
        !url.contains('\''),
        !tmp.contains('\''),
        !dest.contains('\''),
    ensures
        ({
            let words = split_on(zip_script(os, url, tmp, dest), '\'');
            &&& words.len() == 11
            &&& words[1] == url
            &&& words[3] == tmp
            &&& words[5] == tmp
            &&& words[7] == dest
            &&& words[9] == tmp
        }),
{
    let words = if os == Os::Windows {
        reveal_strlit(
            "[Net.ServicePointManager]::SecurityProtocol = [Net.SecurityProtocolType]::Tls12; Invoke-WebRequest -Uri '",
        );
        reveal_strlit("' -OutFile '");
        reveal_strlit("'; Expand-Archive -Path '");
        reveal_strlit("' -DestinationPath '");
        reveal_strlit("' -Force; Remove-Item '");
        reveal_strlit("' -ErrorAction SilentlyContinue");
        seq![
            "[Net.ServicePointManager]::SecurityProtocol = [Net.SecurityProtocolType]::Tls12; Invoke-WebRequest -Uri '"@.drop_last(),
            url,
            "' -OutFile '"@.drop_last().skip(1),
            tmp,
            "'; Expand-Archive -Path '"@.drop_last().skip(1),
            tmp,
            "' -DestinationPath '"@.drop_last().skip(1),
            dest,
            "' -Force; Remove-Item '"@.drop_last().skip(1),
            tmp,
            "' -ErrorAction SilentlyContinue"@.skip(1),
        ]
    } else {
        reveal_strlit("curl -fsSL '");
        reveal_strlit("' -o '");
        reveal_strlit("' && unzip -q -o '");
        reveal_strlit("' -d '");
        reveal_strlit("' && rm -f '");
        reveal_strlit("'");
        seq![
            "curl -fsSL '"@.drop_last(),
            url,
            "' -o '"@.drop_last().skip(1),
            tmp,
            "' && unzip -q -o '"@.drop_last().skip(1),
            tmp,
            "' -d '"@.drop_last().skip(1),
            dest,
            "' && rm -f '"@.drop_last().skip(1),
            tmp,
            "'"@.skip(1),
        ]
    };
    assert forall|i: int| 0 <= i < words.len() implies !(#[trigger] words[i]).contains('\'') by {
        let w = words[i];
        assert(i == 0 || i == 1 || i == 2 || i == 3 || i == 4 || i == 5 || i == 6 || i == 7 || i
            == 8 || i == 9 || i == 10);
    }
    joined_pieces_come_back(words, '\'');
    lemma_quoted_words(words);
    if os == Os::Windows {
        assert("[Net.ServicePointManager]::SecurityProtocol = [Net.SecurityProtocolType]::Tls12; Invoke-WebRequest -Uri '"@
            =~= words[0] + seq!['\'']);
        assert("' -OutFile '"@ =~= seq!['\''] + words[2] + seq!['\'']);
        assert("'; Expand-Archive -Path '"@ =~= seq!['\''] + words[4] + seq!['\'']);
        assert("' -DestinationPath '"@ =~= seq!['\''] + words[6] + seq!['\'']);
        assert("' -Force; Remove-Item '"@ =~= seq!['\''] + words[8] + seq!['\'']);
        assert("' -ErrorAction SilentlyContinue"@ =~= seq!['\''] + words[10]);
    } else {
        assert("curl -fsSL '"@ =~= words[0] + seq!['\'']);
        assert("' -o '"@ =~= seq!['\''] + words[2] + seq!['\'']);
        assert("' && unzip -q -o '"@ =~= seq!['\''] + words[4] + seq!['\'']);
        assert("' -d '"@ =~= seq!['\''] + words[6] + seq!['\'']);
        assert("' && rm -f '"@ =~= seq!['\''] + words[8] + seq!['\'']);
        assert("'"@ =~= seq!['\''] + words[10]);
    }
}

proof fn lemma_quoted_step(whole: Seq<char>, so_far: Seq<char>, w: Seq<Seq<char>>, i: int)
    requires
        0 <= i,
        i + 2 < w.len(),
        whole == so_far + joined(w.skip(i), seq!['\'']),
    ensures
        whole == so_far + w[i] + seq!['\''] + joined(w.skip(i + 1), seq!['\'']),
{
    let rest = w.skip(i);
    let q = seq!['\''];
    assert(rest.skip(1) =~= w.skip(i + 1));
    assert(joined(rest, q) == rest[0] + q + joined(rest.skip(1), q));
    assert(so_far + (w[i] + q + joined(w.skip(i + 1), q)) =~= so_far + w[i] + q + joined(
        w.skip(i + 1),
        q,
    ));
}

proof fn lemma_quoted_words(w: Seq<Seq<char>>)
    requires
        w.len() == 11,
    ensures
        ({
            let q = seq!['\''];
            joined(w, q) == (w[0] + q) + w[1] + (q + w[2] + q) + w[3] + (q + w[4] + q) + w[5] + (q
                + w[6] + q) + w[7] + (q + w[8] + q) + w[9] + (q + w[10])
        }),
{
    let q = seq!['\''];
    let whole = joined(w, q);
    let p1 = w[0] + q;
    assert(w.skip(0) =~= w);
    assert(Seq::<char>::empty() + whole =~= whole);
    lemma_quoted_step(whole, seq![], w, 0);
    assert(Seq::<char>::empty() + w[0] + q =~= p1);
    let p3 = lemma_quoted_pair(whole, p1, w, 1);
    let p5 = lemma_quoted_pair(whole, p3, w, 3);
    let p7 = lemma_quoted_pair(whole, p5, w, 5);
    let p9 = lemma_quoted_pair(whole, p7, w, 7);
    let rest = w.skip(9);
    reveal_with_fuel(joined, 2);
    assert(joined(rest, q) =~= w[9] + q + w[10]);
    assert(p9 + (w[9] + q + w[10]) =~= p9 + w[9] + (q + w[10]));
}

proof fn lemma_quoted_pair(whole: Seq<char>, so_far: Seq<char>, w: Seq<Seq<char>>, i: int) -> (r:
    Seq<char>)
    requires
        0 <= i,
        i + 3 < w.len(),
        whole == so_far + joined(w.skip(i), seq!['\'']),
    ensures
        r == so_far + w[i] + (seq!['\''] + w[i + 1] + seq!['\'']),
        whole == r + joined(w.skip(i + 2), seq!['\'']),
{
    let q = seq!['\''];
    lemma_quoted_step(whole, so_far, w, i);
    lemma_quoted_step(whole, so_far + w[i] + q, w, i + 1);
    let r = so_far + w[i] + q + w[i + 1] + q;
    assert(r =~= so_far + w[i] + (q + w[i + 1] + q));
    r
}

/// A search takes the first entry that it is for: a file of the name, with the
/// extension of the system or without, or a directory of the name.
pub proof fn the_first_entry_of_the_name_is_found(
    os: Os,
    wanted: Wanted,
    before: Seq<EntryView>,
    e: EntryView,
    after: Seq<EntryView>,
)
    requires
        wanted.hit(os, e),
        forall|i: int| 0 <= i < before.len() ==> !wanted.hit(os, #[trigger] before[i]),
    ensures
        first_hit(os, wanted, before.push(e) + after) == Some(e.path),
        first_hit(os, wanted, before) is None,
    decreases before.len(),
{
    lemma_no_hit(os, wanted, before);
    let head = before.push(e);
    assert(head.drop_last() =~= before);
    assert(head.last() == e);
    assert((head + after).take(head.len() as int) =~= head);
    lemma_first_hit_prefix(os, wanted, head + after, head.len() as int);
}

proof fn lemma_no_hit(os: Os, wanted: Wanted, list: Seq<EntryView>)
    requires
        forall|i: int| 0 <= i < list.len() ==> !wanted.hit(os, #[trigger] list[i]),
    ensures
        first_hit(os, wanted, list) is None,
    decreases list.len(),
{
    if list.len() > 0 {
        assert(list.last() == list[list.len() - 1]);
        lemma_no_hit(os, wanted, list.drop_last());
    }
}

/// What a search is for: files are told from directories, and only Windows
/// knows the extension of executables.
pub proof fn files_and_directories_are_told_apart(os: Os, name: String, e: EntryView)
    ensures
        Wanted::File(name).hit(os, e) ==> !e.is_dir,
        Wanted::Dir(name).hit(os, e) ==> e.is_dir && e.name == name@,
        !e.is_dir && e.name == name@ ==> Wanted::File(name).hit(os, e),
        !e.is_dir && e.name == name@ + ".exe"@ && os == Os::Windows ==> Wanted::File(name).hit(
            os,
            e,
        ),
        Wanted::File(name).hit(os, e) && os != Os::Windows ==> e.name == name@,
        e.is_dir && e.name == name@ ==> Wanted::Dir(name).hit(os, e),
{
    reveal_strlit("");
    assert(name@ + ""@ =~= name@);
}

/// The directories that are read next are those among the entries, in their
/// order, and no files.
pub proof fn directories_are_kept_in_order(
    before: Seq<EntryView>,
    e: EntryView,
    after: Seq<EntryView>,
)
    ensures
        directories(before + after) == directories(before) + directories(after),
        directories(before.push(e)) == (if e.is_dir {
            directories(before).push(e.path)
        } else {
            directories(before)
        }),
    decreases after.len(),
{
    assert(before.push(e).drop_last() =~= before);
    if after.len() == 0 {
        assert(before + after =~= before);
        assert(directories(before) + directories(after) =~= directories(before));
    } else {
        directories_are_kept_in_order(before, e, after.drop_last());
        assert((before + after).drop_last() =~= before + after.drop_last());
        assert(directories(before + after) =~= directories(before) + directories(after));
    }
}

/// A download that fails is tried again until the third time, and one that goes
/// well is done at once.
pub proof fn a_download_is_tried_three_times(n: u32)
    ensures
        retry_after(n, true) == Retry::Done,
        n == 1 || n == 2 ==> retry_after(n, false) == Retry::Again,
        n >= 3 ==> retry_after(n, false) == Retry::GiveUp,
{
}

/// Read by its quotes, a download names the file that it writes and then its
/// address, and an unpacking names the archive and then the directory.
pub proof fn downloads_name_their_files(
    dest: Seq<char>,
    url: Seq<char>,
    tgz: Seq<char>,
    dir: Seq<char>,
)
    requires
        !dest.contains('"'),
        !url.contains('"'),
        !tgz.contains('"'),
        !dir.contains('"'),
    ensures
        ({
            let words = split_on(download_script(dest, url), '"');
            words.len() == 5 && words[1] == dest && words[3] == url
        }),
        ({
            let words = split_on(extract_script(tgz, dir), '"');
            words.len() == 5 && words[1] == tgz && words[3] == dir
        }),
{
    reveal_strlit("curl -fL -C - --retry 2 --retry-delay 2 -o \"");
    reveal_strlit("tar -xzf \"");
    reveal_strlit("\" -C \"");
    reveal_strlit("\" \"");
    reveal_strlit("\"");
    let head = "curl -fL -C - --retry 2 --retry-delay 2 -o \""@.drop_last();
    lemma_double_quotes(head, dest, seq![' '], url);
    assert("\" \""@ =~= seq!['"'] + seq![' '] + seq!['"']);
    assert("\""@ =~= seq!['"']);
    assert(download_script(dest, url) =~= head + (seq!['"'] + dest + seq!['"']) + seq![' '] + (
    seq!['"'] + url + seq!['"']));
    let tar = "tar -xzf \""@.drop_last();
    let mid = seq![' ', '-', 'C', ' '];
    lemma_double_quotes(tar, tgz, mid, dir);
    assert("\" -C \""@ =~= seq!['"'] + mid + seq!['"']);
    assert(extract_script(tgz, dir) =~= tar + (seq!['"'] + tgz + seq!['"']) + mid + (seq!['"'] + dir
        + seq!['"']));
}

proof fn lemma_double_quotes(a: Seq<char>, b: Seq<char>, c: Seq<char>, d: Seq<char>)
    requires
        !a.contains('"'),
        !b.contains('"'),
        !c.contains('"'),
        !d.contains('"'),
    ensures
        split_on(a + (seq!['"'] + b + seq!['"']) + c + (seq!['"'] + d + seq!['"']), '"') == seq![
            a,
            b,
            c,
            d,
            seq![],
        ],
{
    let q = seq!['"'];
    let words = seq![a, b, c, d, Seq::<char>::empty()];
    assert forall|i: int| 0 <= i < words.len() implies !(#[trigger] words[i]).contains('"') by {
        assert(i == 0 || i == 1 || i == 2 || i == 3 || i == 4);
    }
    joined_pieces_come_back(words, '"');
    reveal_with_fuel(joined, 5);
    assert(words.skip(1).skip(1) =~= words.skip(2));
    assert(words.skip(2).skip(1) =~= words.skip(3));
    assert(words.skip(3).skip(1) =~= words.skip(4));
    assert(joined(words, q) =~= a + (q + b + q) + c + (q + d + q));
}

} // verus!
