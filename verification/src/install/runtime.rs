//! The resolved runtime model: which directories to prepend to `PATH` when
//! launching dsh.

use vstd::prelude::*;
use vstd::string::*;
use crate::platform::paths::Host;
use crate::platform::Os;
use crate::text::{chars_of, extend, join_all, joined, joined_pieces_come_back, opt_view, split_on, views};

verus! {

/// Resolved runtime binaries, as directories to prepend to `PATH`.
#[derive(Debug)]
pub struct Runtime {
    pub node_dir: Option<String>,
    pub bun_dir: Option<String>,
    pub extra_path: Vec<String>,
}

/// A runtime as plain texts.
pub struct RuntimeView {
    pub node_dir: Option<Seq<char>>,
    pub bun_dir: Option<Seq<char>>,
    pub extra_path: Seq<Seq<char>>,
}

impl View for Runtime {
    type V = RuntimeView;

    open spec fn view(&self) -> RuntimeView {
        RuntimeView {
            node_dir: opt_view(self.node_dir),
            bun_dir: opt_view(self.bun_dir),
            extra_path: views(self.extra_path@),
        }
    }
}

/// A list of the directory, if there is one.
pub open spec fn listed(dir: Option<Seq<char>>) -> Seq<Seq<char>> {
    match dir {
        Some(d) => seq![d],
        None => seq![],
    }
}

impl RuntimeView {
    /// Node's directory first, then bun's, then the others.
    pub open spec fn path_prefix(self) -> Seq<Seq<char>> {
        listed(self.node_dir) + listed(self.bun_dir) + self.extra_path
    }
}

// ---- lists of directories ------------------------------------------------

/// The character that separates directories in `PATH`.
pub open spec fn list_separator(os: Os) -> char {
    if os == Os::Windows {
        ';'
    } else {
        ':'
    }
}

/// Directories that can stand in `PATH`: there is no way to quote the
/// separator on Unix, nor a quote on Windows.
pub open spec fn can_be_listed(os: Os, dir: Seq<char>) -> bool {
    if os == Os::Windows {
        !dir.contains('"')
    } else {
        !dir.contains(':')
    }
}

/// A directory as it stands in `PATH`.
pub open spec fn list_entry(os: Os, dir: Seq<char>) -> Seq<char> {
    if os == Os::Windows && dir.contains(';') {
        seq!['"'] + dir + seq!['"']
    } else {
        dir
    }
}

/// Directories as one `PATH`, if all of them can stand in it.
pub open spec fn path_list(os: Os, dirs: Seq<Seq<char>>) -> Option<Seq<char>> {
    if forall|i: int| 0 <= i < dirs.len() ==> can_be_listed(os, #[trigger] dirs[i]) {
        Some(
            joined(
                dirs.map_values(|d: Seq<char>| list_entry(os, d)),
                seq![list_separator(os)],
            ),
        )
    } else {
        None
    }
}

fn has_char(v: &Vec<char>, c: char) -> (r: bool)
    ensures
        r == v@.contains(c),
{
    let mut i: usize = 0;
    while i < v.len()
        invariant
            0 <= i <= v@.len(),
            forall|j: int| 0 <= j < i ==> v@[j] != c,
        decreases v@.len() - i,
    {
        if v[i] == c {
            assert(v@[i as int] == c);
            return true;
        }
        i += 1;
    }
    false
}

/// Directories as one `PATH`, if all of them can stand in it.
pub fn join_paths(os: Os, dirs: &Vec<String>) -> (r: Option<String>)
    ensures
        opt_view(r) == path_list(os, views(dirs@)),
{
    let ghost all = views(dirs@);
    let ghost want = all.map_values(|d: Seq<char>| list_entry(os, d));
    let mut entries: Vec<String> = Vec::new();
    let mut i: usize = 0;
    while i < dirs.len()
        invariant
            0 <= i <= dirs@.len(),
            all == views(dirs@),
            want == all.map_values(|d: Seq<char>| list_entry(os, d)),
            forall|j: int| 0 <= j < i ==> can_be_listed(os, #[trigger] all[j]),
            views(entries@) == want.take(i as int),
        decreases dirs@.len() - i,
    {
        let v = chars_of(dirs[i].as_str());
        assert(all[i as int] == v@);
        let banned = if os == Os::Windows {
            '"'
        } else {
            ':'
        };
        if has_char(&v, banned) {
            assert(!can_be_listed(os, all[i as int]));
            return None;
        }
        let entry = if os == Os::Windows && has_char(&v, ';') {
            let mut e = String::new();
            e.push('"');
            e.append(dirs[i].as_str());
            e.push('"');
            assert(e@ =~= seq!['"'] + all[i as int] + seq!['"']);
            e
        } else {
            dirs[i].clone()
        };
        let ghost before = entries@;
        assert(entry@ == want[i as int]);
        entries.push(entry);
        assert(views(entries@) =~= views(before).push(entry@));
        i += 1;
        assert(views(entries@) =~= want.take(i as int));
    }
    assert(want.take(i as int) =~= want);
    let sep = if os == Os::Windows {
        ";"
    } else {
        ":"
    };
    proof {
        reveal_strlit(";");
        reveal_strlit(":");
        assert(sep@ =~= seq![list_separator(os)]);
    }
    Some(join_all(&entries, sep))
}

/// The `PATH` of the dirs in front of the host's own, or the host's own where
/// they cannot be listed.
pub open spec fn extended_path(
    os: Os,
    dirs: Seq<Seq<char>>,
    existing: Seq<Seq<char>>,
) -> Seq<char> {
    match path_list(os, dirs + existing) {
        Some(s) => s,
        None => match path_list(os, existing) {
            Some(s) => s,
            None => seq![],
        },
    }
}

/// The `PATH` of the dirs in front of the host's own.
pub fn prepend_path(host: &Host, dirs: &Vec<String>) -> (r: String)
    ensures
        r@ == extended_path(host.os, views(dirs@), host@.path),
{
    let mut parts: Vec<String> = Vec::new();
    extend(&mut parts, dirs);
    extend(&mut parts, &host.path);
    assert(views(parts@) =~= views(dirs@) + host@.path);
    match join_paths(host.os, &parts) {
        Some(s) => s,
        None => match join_paths(host.os, &host.path) {
            Some(s) => s,
            None => String::new(),
        },
    }
}

impl Runtime {
    /// A runtime without any directory.
    pub fn new() -> (r: Runtime)
        ensures
            r@.node_dir is None,
            r@.bun_dir is None,
            r@.extra_path == Seq::<Seq<char>>::empty(),
    {
        let r = Runtime { node_dir: None, bun_dir: None, extra_path: Vec::new() };
        assert(r@.extra_path =~= seq![]);
        r
    }

    /// Directories to prepend to `PATH` when launching dsh.
    pub fn path_prefix(&self) -> (r: Vec<String>)
        ensures
            views(r@) == self@.path_prefix(),
    {
        let mut v: Vec<String> = Vec::new();
        if let Some(d) = &self.node_dir {
            v.push(d.clone());
        }
        if let Some(d) = &self.bun_dir {
            v.push(d.clone());
        }
        assert(views(v@) =~= listed(self@.node_dir) + listed(self@.bun_dir));
        extend(&mut v, &self.extra_path);
        v
    }

    /// An augmented `PATH` value (the prefix, then the host's `PATH`).
    pub fn augmented_path(&self, host: &Host) -> (r: String)
        ensures
            r@ == extended_path(host.os, self@.path_prefix(), host@.path),
    {
        prepend_path(host, &self.path_prefix())
    }
}

/// On Unix the augmented `PATH` holds the resolved directories first, then all
/// directories of the host's `PATH`, and nothing else.
pub proof fn resolved_directories_come_first(
    os: Os,
    dirs: Seq<Seq<char>>,
    existing: Seq<Seq<char>>,
)
    requires
        os != Os::Windows,
        dirs.len() + existing.len() > 0,
        forall|i: int| 0 <= i < dirs.len() ==> can_be_listed(os, #[trigger] dirs[i]),
        forall|i: int| 0 <= i < existing.len() ==> can_be_listed(os, #[trigger] existing[i]),
    ensures
        split_on(extended_path(os, dirs, existing), ':') == dirs + existing,
{
    let all = dirs + existing;
    assert forall|i: int| 0 <= i < all.len() implies can_be_listed(os, #[trigger] all[i]) by {
        if i < dirs.len() {
            assert(all[i] == dirs[i]);
        } else {
            assert(all[i] == existing[i - dirs.len()]);
        }
    }
    assert(all.map_values(|d: Seq<char>| list_entry(os, d)) =~= all);
    assert forall|i: int| 0 <= i < all.len() implies !(#[trigger] all[i]).contains(':') by {
        assert(can_be_listed(os, all[i]));
    }
    joined_pieces_come_back(all, ':');
}

/// On Windows directories without quotes and separators stand in the augmented
/// `PATH` as on Unix; one with a separator is quoted, and is otherwise listed
/// like any other.
pub proof fn windows_directories_come_first(
    dirs: Seq<Seq<char>>,
    existing: Seq<Seq<char>>,
    odd: Seq<char>,
)
    requires
        dirs.len() + existing.len() > 0,
        forall|i: int|
            0 <= i < dirs.len() ==> !(#[trigger] dirs[i]).contains(';') && !dirs[i].contains('"'),
        forall|i: int|
            0 <= i < existing.len() ==> !(#[trigger] existing[i]).contains(';')
                && !existing[i].contains('"'),
    ensures
        split_on(extended_path(Os::Windows, dirs, existing), ';') == dirs + existing,
        odd.contains(';') && !odd.contains('"') ==> path_list(Os::Windows, seq![odd]) == Some(
            seq!['"'] + odd + seq!['"'],
        ),
{
    let os = Os::Windows;
    let all = dirs + existing;
    assert forall|i: int| 0 <= i < all.len() implies can_be_listed(os, #[trigger] all[i])
        && !all[i].contains(';') by {
        if i < dirs.len() {
            assert(all[i] == dirs[i]);
        } else {
            assert(all[i] == existing[i - dirs.len()]);
        }
    }
    assert(all.map_values(|d: Seq<char>| list_entry(os, d)) =~= all);
    joined_pieces_come_back(all, ';');
    if odd.contains(';') && !odd.contains('"') {
        let one = seq![odd];
        let entries = one.map_values(|d: Seq<char>| list_entry(os, d));
        assert(entries.len() == 1);
        assert(entries[0] == seq!['"'] + odd + seq!['"']);
    }
}

/// A directory that cannot stand in `PATH` adds nothing to it: the host's own
/// `PATH` stays.
pub proof fn what_cannot_be_listed_is_left_out(
    os: Os,
    dirs: Seq<Seq<char>>,
    existing: Seq<Seq<char>>,
    i: int,
)
    requires
        0 <= i < dirs.len(),
        dirs[i].contains(if os == Os::Windows {
            '"'
        } else {
            ':'
        }),
    ensures
        extended_path(os, dirs, existing) == extended_path(os, seq![], existing),
{
    assert((dirs + existing)[i] == dirs[i]);
    assert(!can_be_listed(os, (dirs + existing)[i]));
    assert(Seq::<Seq<char>>::empty() + existing =~= existing);
}

/// Node's directory comes first, then bun's, then the others in their order.
pub proof fn node_comes_before_bun(r: RuntimeView)
    ensures
        r.node_dir is Some ==> r.path_prefix()[0] == r.node_dir->0,
        r.node_dir is Some && r.bun_dir is Some ==> r.path_prefix()[1] == r.bun_dir->0,
        r.node_dir is None && r.bun_dir is Some ==> r.path_prefix()[0] == r.bun_dir->0,
        r.path_prefix().len() >= r.extra_path.len(),
        r.path_prefix().skip(r.path_prefix().len() - r.extra_path.len()) == r.extra_path,
        r.node_dir is None && r.bun_dir is None ==> r.path_prefix() == r.extra_path,
        r.path_prefix().len() <= 2 + r.extra_path.len(),
{
    assert(r.path_prefix().skip(r.path_prefix().len() - r.extra_path.len()) =~= r.extra_path);
    if r.node_dir is None && r.bun_dir is None {
        assert(r.path_prefix() =~= r.extra_path);
    }
}

} // verus!
