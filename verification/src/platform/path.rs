//! Paths as texts: their parts, joining and parents.
//!
//! A path of Windows may start with a prefix (a drive, a share, a device, or
//! one of these in the verbatim form `\\?\`); then comes the root, and then
//! the parts between separators. Empty parts and `.` mean nothing, but for a
//! `.` that a relative path starts with, and in the verbatim form.

use vstd::prelude::*;
use vstd::string::*;
use super::detect::Os;
use crate::text::{chars_of, extend, join_all, joined, opt_view, same, slice_of, views};

verus! {

// ---- prefixes ------------------------------------------------------------

/// The characters that separate the parts of a path.
pub open spec fn is_separator(os: Os, c: char) -> bool {
    c == '/' || (os == Os::Windows && c == '\\')
}

/// The separator that a path is put together with.
pub open spec fn separator(os: Os) -> char {
    if os == Os::Windows {
        '\\'
    } else {
        '/'
    }
}

pub open spec fn is_letter(c: char) -> bool {
    ('a' <= c && c <= 'z') || ('A' <= c && c <= 'Z')
}

/// Whether a path starts with a drive letter.
pub open spec fn has_drive(os: Os, path: Seq<char>) -> bool {
    os == Os::Windows && path.len() >= 2 && is_letter(path[0]) && path[1] == ':'
}

/// The forms of a prefix.
#[derive(Debug, Clone, Copy, PartialEq, Eq, Structural)]
pub enum PrefixKind {
    /// No prefix.
    Nothing,
    /// `C:`
    Disk,
    /// `\\server\share`
    Share,
    /// `\\.\COM1`
    Device,
    /// `\\?\name`
    Verbatim,
    /// `\\?\C:`
    VerbatimDisk,
    /// `\\?\UNC\server\share`
    VerbatimShare,
}

/// A prefix: its form, what it names, and how many characters it takes.
#[verifier::ext_equal]
pub struct PrefixView {
    pub kind: PrefixKind,
    /// The drive letter in upper case, the server, or the name.
    pub name: Seq<char>,
    /// The share of a server.
    pub share: Seq<char>,
    pub len: int,
}

pub open spec fn is_verbatim(kind: PrefixKind) -> bool {
    kind == PrefixKind::Verbatim || kind == PrefixKind::VerbatimDisk || kind
        == PrefixKind::VerbatimShare
}

/// Whether what has such a prefix is rooted, even without a separator behind
/// it.
pub open spec fn is_rooted_prefix(kind: PrefixKind) -> bool {
    kind != PrefixKind::Nothing && kind != PrefixKind::Disk
}

/// The characters that end a part: in the verbatim form backslashes only.
pub open spec fn ends_part(os: Os, verbatim: bool, c: char) -> bool {
    if verbatim {
        c == '\\'
    } else {
        is_separator(os, c)
    }
}

/// The first separator of a path of Windows from position `i` on, or its end.
pub open spec fn next_end(path: Seq<char>, verbatim: bool, i: int) -> int
    decreases path.len() - i,
{
    if 0 <= i < path.len() && !ends_part(Os::Windows, verbatim, path[i]) {
        next_end(path, verbatim, i + 1)
    } else {
        i
    }
}

/// An ASCII letter in upper case.
pub open spec fn upper(c: char) -> char {
    if 'a' <= c && c <= 'z' {
        (c as u8 - 32) as char
    } else {
        c
    }
}

pub open spec fn no_prefix() -> PrefixView {
    PrefixView { kind: PrefixKind::Nothing, name: seq![], share: seq![], len: 0 }
}

/// Whether a path starts with `\\?\`, written with backslashes.
pub open spec fn is_verbatim_start(path: Seq<char>) -> bool {
    path.len() >= 4 && path[0] == '\\' && path[1] == '\\' && path[2] == '?' && path[3] == '\\'
}

/// The prefix of a path that starts with `\\?\`.
pub open spec fn verbatim_prefix(path: Seq<char>) -> PrefixView {
    if path.len() >= 8 && path[4] == 'U' && path[5] == 'N' && path[6] == 'C' && is_separator(
        Os::Windows,
        path[7],
    ) {
        let s = next_end(path, true, 8);
        let e = if s < path.len() {
            next_end(path, true, s + 1)
        } else {
            s
        };
        PrefixView {
            kind: PrefixKind::VerbatimShare,
            name: path.subrange(8, s),
            share: if e > s {
                path.subrange(s + 1, e)
            } else {
                seq![]
            },
            len: if e > s + 1 {
                e
            } else {
                s
            },
        }
    } else if path.len() >= 6 && is_letter(path[4]) && path[5] == ':' && (path.len() == 6
        || is_separator(Os::Windows, path[6])) {
        PrefixView {
            kind: PrefixKind::VerbatimDisk,
            name: seq![upper(path[4])],
            share: seq![],
            len: 6,
        }
    } else {
        let e = next_end(path, true, 4);
        PrefixView {
            kind: PrefixKind::Verbatim,
            name: path.subrange(4, e),
            share: seq![],
            len: e,
        }
    }
}

/// The prefix of a path that starts with two separators: `\\server` without a
/// share is none.
pub open spec fn share_prefix(path: Seq<char>) -> PrefixView {
    let s = next_end(path, false, 2);
    let e = if s < path.len() {
        next_end(path, false, s + 1)
    } else {
        s
    };
    if s > 2 && e > s + 1 {
        PrefixView {
            kind: PrefixKind::Share,
            name: path.subrange(2, s),
            share: path.subrange(s + 1, e),
            len: e,
        }
    } else {
        no_prefix()
    }
}

/// What a path starts with in front of its root.
pub open spec fn prefix_of(os: Os, path: Seq<char>) -> PrefixView {
    if os != Os::Windows {
        no_prefix()
    } else if path.len() >= 2 && is_separator(os, path[0]) && is_separator(os, path[1]) {
        if is_verbatim_start(path) {
            verbatim_prefix(path)
        } else if path.len() >= 4 && path[2] == '.' && is_separator(os, path[3]) {
            let e = next_end(path, false, 4);
            PrefixView {
                kind: PrefixKind::Device,
                name: path.subrange(4, e),
                share: seq![],
                len: e,
            }
        } else {
            share_prefix(path)
        }
    } else if has_drive(os, path) {
        PrefixView { kind: PrefixKind::Disk, name: seq![upper(path[0])], share: seq![], len: 2 }
    } else {
        no_prefix()
    }
}

struct Prefix {
    kind: PrefixKind,
    name: String,
    share: String,
    len: usize,
}

impl Prefix {
    spec fn is(&self, v: PrefixView) -> bool {
        self.kind == v.kind && self.name@ == v.name && self.share@ == v.share && self.len == v.len
    }
}

fn sep(os: Os, c: char) -> (r: bool)
    ensures
        r == is_separator(os, c),
{
    c == '/' || (os == Os::Windows && c == '\\')
}

fn part_end(os: Os, verbatim: bool, c: char) -> (r: bool)
    ensures
        r == ends_part(os, verbatim, c),
{
    if verbatim {
        c == '\\'
    } else {
        sep(os, c)
    }
}

fn letter(c: char) -> (r: bool)
    ensures
        r == is_letter(c),
{
    ('a' <= c && c <= 'z') || ('A' <= c && c <= 'Z')
}

fn raised(c: char) -> (r: String)
    ensures
        r@ == seq![upper(c)],
{
    let mut s = String::new();
    s.push(
        if 'a' <= c && c <= 'z' {
            (c as u8 - 32) as char
        } else {
            c
        },
    );
    assert(s@ =~= seq![upper(c)]);
    s
}

fn find_end(path: &Vec<char>, verbatim: bool, from: usize) -> (r: usize)
    requires
        from <= path@.len(),
    ensures
        r == next_end(path@, verbatim, from as int),
        from <= r <= path@.len(),
{
    let mut i: usize = from;
    while i < path.len() && !part_end(Os::Windows, verbatim, path[i])
        invariant
            from <= i <= path@.len(),
            next_end(path@, verbatim, from as int) == next_end(path@, verbatim, i as int),
        decreases path@.len() - i,
    {
        i += 1;
    }
    i
}

fn find_share(path: &Vec<char>, verbatim: bool, from: usize) -> (r: (usize, usize))
    requires
        from <= path@.len(),
    ensures
        r.0 == next_end(path@, verbatim, from as int),
        r.1 == (if r.0 < path@.len() {
            next_end(path@, verbatim, r.0 + 1)
        } else {
            r.0 as int
        }),
        from <= r.0 <= r.1 <= path@.len(),
        r.0 < path@.len() ==> r.0 < r.1,
{
    let s: usize = find_end(path, verbatim, from);
    if s < path.len() {
        (s, find_end(path, verbatim, s + 1))
    } else {
        (s, s)
    }
}

fn bare(kind: PrefixKind, name: String, len: usize) -> (r: Prefix)
    ensures
        r.kind == kind,
        r.name == name,
        r.share@ == Seq::<char>::empty(),
        r.len == len,
{
    Prefix { kind, name, share: String::new(), len }
}

fn read_verbatim(path: &Vec<char>) -> (r: Prefix)
    requires
        is_verbatim_start(path@),
    ensures
        r.is(verbatim_prefix(path@)),
        is_verbatim(r.kind),
        r.len <= path@.len(),
{
    let n: usize = path.len();
    if n >= 8 && path[4] == 'U' && path[5] == 'N' && path[6] == 'C' && sep(Os::Windows, path[7]) {
        let (s, e) = find_share(path, true, 8);
        let share = if e > s {
            slice_of(path, s + 1, e)
        } else {
            String::new()
        };
        assert(e <= s ==> share@ =~= seq![]);
        return Prefix {
            kind: PrefixKind::VerbatimShare,
            name: slice_of(path, 8, s),
            share,
            len: if e > s && e - s > 1 {
                e
            } else {
                s
            },
        };
    }
    if n >= 6 && letter(path[4]) && path[5] == ':' && (n == 6 || sep(Os::Windows, path[6])) {
        return bare(PrefixKind::VerbatimDisk, raised(path[4]), 6);
    }
    let e: usize = find_end(path, true, 4);
    bare(PrefixKind::Verbatim, slice_of(path, 4, e), e)
}

fn read_prefix(os: Os, path: &Vec<char>) -> (r: Prefix)
    ensures
        r.is(prefix_of(os, path@)),
        r.len <= path@.len(),
{
    let n: usize = path.len();
    if os != Os::Windows {
        return bare(PrefixKind::Nothing, String::new(), 0);
    }
    if n >= 2 && sep(os, path[0]) && sep(os, path[1]) {
        if n >= 4 && path[0] == '\\' && path[1] == '\\' && path[2] == '?' && path[3] == '\\' {
            return read_verbatim(path);
        }
        if n >= 4 && path[2] == '.' && sep(os, path[3]) {
            let e: usize = find_end(path, false, 4);
            return bare(PrefixKind::Device, slice_of(path, 4, e), e);
        }
        let (s, e) = find_share(path, false, 2);
        if s > 2 && e > s && e - s > 1 {
            return Prefix {
                kind: PrefixKind::Share,
                name: slice_of(path, 2, s),
                share: slice_of(path, s + 1, e),
                len: e,
            };
        }
        return bare(PrefixKind::Nothing, String::new(), 0);
    }
    if n >= 2 && letter(path[0]) && path[1] == ':' {
        return bare(PrefixKind::Disk, raised(path[0]), 2);
    }
    bare(PrefixKind::Nothing, String::new(), 0)
}

// ---- roots and parts -----------------------------------------------------

/// Whether a separator follows the prefix.
pub open spec fn has_root(os: Os, path: Seq<char>) -> bool {
    let n = prefix_of(os, path).len;
    n < path.len() && is_separator(os, path[n])
}

/// Whether a relative path starts with the part `.`.
pub open spec fn starts_here(os: Os, path: Seq<char>) -> bool {
    let p = prefix_of(os, path);
    &&& !has_root(os, path)
    &&& !is_rooted_prefix(p.kind)
    &&& p.len < path.len()
    &&& path[p.len] == '.'
    &&& p.len + 1 == path.len() || is_separator(os, path[p.len + 1])
}

/// Where the parts of a path begin: behind its prefix, its root and the `.`
/// that it starts with.
pub open spec fn body_start(os: Os, path: Seq<char>) -> int {
    prefix_of(os, path).len + if has_root(os, path) || starts_here(os, path) {
        1int
    } else {
        0int
    }
}

/// Where the last part of a body begins.
pub open spec fn last_part(os: Os, verbatim: bool, body: Seq<char>) -> int
    decreases body.len(),
{
    if body.len() == 0 || ends_part(os, verbatim, body.last()) {
        body.len() as int
    } else {
        last_part(os, verbatim, body.drop_last())
    }
}

/// Whether a part means nothing.
pub open spec fn is_nothing(verbatim: bool, part: Seq<char>) -> bool {
    part.len() == 0 || (!verbatim && part == seq!['.'])
}

/// A body without its last part, and without the separator in front of that.
pub open spec fn without_last(os: Os, verbatim: bool, body: Seq<char>) -> Seq<char> {
    let i = last_part(os, verbatim, body);
    if i > 0 {
        body.take(i - 1)
    } else {
        seq![]
    }
}

proof fn lemma_last_part(os: Os, verbatim: bool, body: Seq<char>)
    ensures
        0 <= last_part(os, verbatim, body) <= body.len(),
        last_part(os, verbatim, body) > 0 ==> ends_part(
            os,
            verbatim,
            body[last_part(os, verbatim, body) - 1],
        ),
        body.len() > 0 ==> without_last(os, verbatim, body).len() < body.len(),
    decreases body.len(),
{
    if body.len() > 0 && !ends_part(os, verbatim, body.last()) {
        lemma_last_part(os, verbatim, body.drop_last());
    }
}

/// The parts of a body that mean something.
pub open spec fn body_parts(os: Os, verbatim: bool, body: Seq<char>) -> Seq<Seq<char>>
    decreases body.len(),
    via body_parts_terminate
{
    if body.len() == 0 {
        seq![]
    } else {
        let part = body.skip(last_part(os, verbatim, body));
        let before = body_parts(os, verbatim, without_last(os, verbatim, body));
        if is_nothing(verbatim, part) {
            before
        } else {
            before.push(part)
        }
    }
}

#[via_fn]
proof fn body_parts_terminate(os: Os, verbatim: bool, body: Seq<char>) {
    lemma_last_part(os, verbatim, body);
}

/// A body without the parts at its end that mean nothing.
pub open spec fn tidied(os: Os, verbatim: bool, body: Seq<char>) -> Seq<char>
    decreases body.len(),
    via tidied_terminates
{
    if body.len() > 0 && is_nothing(verbatim, body.skip(last_part(os, verbatim, body))) {
        tidied(os, verbatim, without_last(os, verbatim, body))
    } else {
        body
    }
}

#[via_fn]
proof fn tidied_terminates(os: Os, verbatim: bool, body: Seq<char>) {
    lemma_last_part(os, verbatim, body);
}

/// What a path consists of.
#[verifier::ext_equal]
pub struct PathParts {
    pub prefix: PrefixView,
    pub rooted: bool,
    pub parts: Seq<Seq<char>>,
}

/// What a path consists of.
pub open spec fn path_parts(os: Os, path: Seq<char>) -> PathParts {
    let prefix = prefix_of(os, path);
    let verbatim = is_verbatim(prefix.kind);
    let parts = body_parts(os, verbatim, path.skip(body_start(os, path)));
    PathParts {
        prefix,
        rooted: has_root(os, path) || (is_rooted_prefix(prefix.kind) && !verbatim),
        parts: if prefix.kind == PrefixKind::Nothing && starts_here(os, path) {
            seq![seq!['.']] + parts
        } else {
            parts
        },
    }
}

/// Whether two texts name the same path: they consist of the same parts,
/// however they are written.
pub open spec fn same_path(os: Os, a: Seq<char>, b: Seq<char>) -> bool {
    path_parts(os, a) == path_parts(os, b)
}

fn root_at(os: Os, path: &Vec<char>, at: usize) -> (r: bool)
    ensures
        r == (at < path@.len() && is_separator(os, path@[at as int])),
{
    at < path.len() && sep(os, path[at])
}

fn here_at(os: Os, path: &Vec<char>, prefix: &Prefix) -> (r: bool)
    requires
        prefix.is(prefix_of(os, path@)),
        prefix.len <= path@.len(),
    ensures
        r == starts_here(os, path@),
{
    let at: usize = prefix.len;
    !root_at(os, path, at) && (prefix.kind == PrefixKind::Nothing || prefix.kind
        == PrefixKind::Disk) && at < path.len() && path[at] == '.' && (at + 1 == path.len() || sep(
        os,
        path[at + 1],
    ))
}

fn verbatim_kind(kind: PrefixKind) -> (r: bool)
    ensures
        r == is_verbatim(kind),
{
    kind == PrefixKind::Verbatim || kind == PrefixKind::VerbatimDisk || kind
        == PrefixKind::VerbatimShare
}

fn find_body(os: Os, path: &Vec<char>, prefix: &Prefix) -> (r: usize)
    requires
        prefix.is(prefix_of(os, path@)),
        prefix.len <= path@.len(),
    ensures
        r == body_start(os, path@),
        r <= path@.len(),
{
    if prefix.len < path.len() && (root_at(os, path, prefix.len) || here_at(os, path, prefix)) {
        prefix.len + 1
    } else {
        prefix.len
    }
}

fn find_last_part(os: Os, verbatim: bool, path: &Vec<char>, start: usize, end: usize) -> (r: usize)
    requires
        start <= end <= path@.len(),
    ensures
        r == start + last_part(os, verbatim, path@.subrange(start as int, end as int)),
        start <= r <= end,
{
    let mut i: usize = end;
    while i > start && !part_end(os, verbatim, path[i - 1])
        invariant
            start <= i <= end <= path@.len(),
            last_part(os, verbatim, path@.subrange(start as int, end as int)) == last_part(
                os,
                verbatim,
                path@.subrange(start as int, i as int),
            ),
        decreases i,
    {
        assert(path@.subrange(start as int, i as int).drop_last() =~= path@.subrange(
            start as int,
            i - 1,
        ));
        i -= 1;
    }
    i
}

fn nothing(verbatim: bool, path: &Vec<char>, from: usize, end: usize) -> (r: bool)
    requires
        from <= end <= path@.len(),
    ensures
        r == is_nothing(verbatim, path@.subrange(from as int, end as int)),
{
    let ghost part = path@.subrange(from as int, end as int);
    proof {
        if part.len() == 1 {
            assert(part =~= seq![part[0]]);
            assert(part[0] == path@[from as int]);
        }
        if part == seq!['.'] {
            assert(part.len() == 1);
        }
    }
    from == end || (!verbatim && end - from == 1 && path[from] == '.')
}

fn read_parts(os: Os, verbatim: bool, path: &Vec<char>, start: usize, end: usize) -> (r: Vec<
    String,
>)
    requires
        start <= end <= path@.len(),
    ensures
        views(r@) == body_parts(os, verbatim, path@.subrange(start as int, end as int)),
    decreases end - start,
{
    let ghost body = path@.subrange(start as int, end as int);
    if start == end {
        let r: Vec<String> = Vec::new();
        assert(views(r@) =~= seq![]);
        return r;
    }
    let at: usize = find_last_part(os, verbatim, path, start, end);
    let cut: usize = if at > start {
        at - 1
    } else {
        start
    };
    assert(body.skip(at - start) =~= path@.subrange(at as int, end as int));
    assert(without_last(os, verbatim, body) =~= path@.subrange(start as int, cut as int));
    let mut list = read_parts(os, verbatim, path, start, cut);
    if !nothing(verbatim, path, at, end) {
        let ghost before = list@;
        let part = slice_of(path, at, end);
        list.push(part);
        assert(views(list@) =~= views(before).push(part@));
    }
    list
}

fn tidy(os: Os, verbatim: bool, path: &Vec<char>, start: usize, end: usize) -> (r: usize)
    requires
        start <= end <= path@.len(),
    ensures
        start <= r <= end,
        path@.subrange(start as int, r as int) == tidied(
            os,
            verbatim,
            path@.subrange(start as int, end as int),
        ),
{
    let mut i: usize = end;
    while i > start
        invariant
            start <= i <= end <= path@.len(),
            tidied(os, verbatim, path@.subrange(start as int, end as int)) == tidied(
                os,
                verbatim,
                path@.subrange(start as int, i as int),
            ),
        decreases i,
    {
        let ghost body = path@.subrange(start as int, i as int);
        let at: usize = find_last_part(os, verbatim, path, start, i);
        assert(body.skip(at - start) =~= path@.subrange(at as int, i as int));
        if !nothing(verbatim, path, at, i) {
            return i;
        }
        let cut: usize = if at > start {
            at - 1
        } else {
            start
        };
        assert(without_last(os, verbatim, body) =~= path@.subrange(start as int, cut as int));
        i = cut;
    }
    i
}

struct Parts {
    prefix: Prefix,
    rooted: bool,
    parts: Vec<String>,
}

fn read_path(os: Os, text: &str) -> (r: Parts)
    ensures
        r.prefix.is(path_parts(os, text@).prefix),
        r.rooted == path_parts(os, text@).rooted,
        views(r.parts@) == path_parts(os, text@).parts,
{
    let path = chars_of(text);
    let prefix = read_prefix(os, &path);
    let verbatim = verbatim_kind(prefix.kind);
    let start: usize = find_body(os, &path, &prefix);
    let here = prefix.kind == PrefixKind::Nothing && here_at(os, &path, &prefix);
    let rooted = root_at(os, &path, prefix.len) || (prefix.kind != PrefixKind::Nothing
        && prefix.kind != PrefixKind::Disk && !verbatim);
    assert(path@.subrange(start as int, path@.len() as int) =~= path@.skip(start as int));
    let body = read_parts(os, verbatim, &path, start, path.len());
    let mut parts: Vec<String> = Vec::new();
    if here {
        let mut dot = String::new();
        dot.push('.');
        parts.push(dot);
        assert(dot@ =~= seq!['.']);
        assert(views(parts@) =~= seq![seq!['.']]);
    } else {
        assert(views(parts@) =~= seq![]);
    }
    extend(&mut parts, &body);
    assert(views(parts@) =~= path_parts(os, text@).parts);
    Parts { prefix, rooted, parts }
}

fn same_lists(a: &Vec<String>, b: &Vec<String>) -> (r: bool)
    ensures
        r == (views(a@) == views(b@)),
{
    if a.len() != b.len() {
        assert(views(a@).len() != views(b@).len());
        return false;
    }
    let mut i: usize = 0;
    while i < a.len()
        invariant
            0 <= i <= a@.len(),
            a@.len() == b@.len(),
            forall|j: int| 0 <= j < i ==> views(a@)[j] == views(b@)[j],
        decreases a@.len() - i,
    {
        if !same(a[i].as_str(), b[i].as_str()) {
            assert(views(a@)[i as int] != views(b@)[i as int]);
            return false;
        }
        i += 1;
    }
    assert(views(a@) =~= views(b@));
    true
}

/// Whether two texts name the same path.
pub fn is_same_path(os: Os, a: &str, b: &str) -> (r: bool)
    ensures
        r == same_path(os, a@, b@),
{
    let x = read_path(os, a);
    let y = read_path(os, b);
    let r = x.prefix.kind == y.prefix.kind && same(x.prefix.name.as_str(), y.prefix.name.as_str())
        && same(x.prefix.share.as_str(), y.prefix.share.as_str()) && x.prefix.len == y.prefix.len
        && x.rooted == y.rooted && same_lists(&x.parts, &y.parts);
    proof {
        let p = path_parts(os, a@);
        let q = path_parts(os, b@);
        if r {
            assert(p.prefix =~= q.prefix);
            assert(p =~= q);
        }
    }
    r
}

/// Whether a path stands in a list, however it is written there.
pub open spec fn lists_path(os: Os, list: Seq<Seq<char>>, path: Seq<char>) -> bool {
    exists|i: int| 0 <= i < list.len() && same_path(os, #[trigger] list[i], path)
}

/// Whether a path stands in a list.
pub fn lists(os: Os, list: &Vec<String>, path: &str) -> (r: bool)
    ensures
        r == lists_path(os, views(list@), path@),
{
    let mut i: usize = 0;
    while i < list.len()
        invariant
            0 <= i <= list@.len(),
            forall|j: int| 0 <= j < i ==> !same_path(os, #[trigger] views(list@)[j], path@),
        decreases list@.len() - i,
    {
        if is_same_path(os, list[i].as_str(), path) {
            assert(views(list@)[i as int] == list@[i as int]@);
            return true;
        }
        i += 1;
    }
    false
}

/// Whether no path stands in a list twice, however it is written.
pub open spec fn lists_each_once(os: Os, list: Seq<Seq<char>>) -> bool {
    forall|i: int, j: int|
        0 <= i < j < list.len() ==> !same_path(os, #[trigger] list[i], #[trigger] list[j])
}

// ---- joining -------------------------------------------------------------

/// A list of parts with one more: `.` stays where it is, and `..` takes back a
/// part that has a name.
pub open spec fn stepped(parts: Seq<Seq<char>>, part: Seq<char>) -> Seq<Seq<char>> {
    if part == "."@ {
        parts
    } else if part == ".."@ {
        if parts.len() > 0 && parts.last() != "."@ && parts.last() != ".."@ {
            parts.drop_last()
        } else {
            parts
        }
    } else {
        parts.push(part)
    }
}

/// A list of parts with more of them.
pub open spec fn walked(parts: Seq<Seq<char>>, more: Seq<Seq<char>>) -> Seq<Seq<char>>
    decreases more.len(),
{
    if more.len() == 0 {
        parts
    } else {
        stepped(walked(parts, more.drop_last()), more.last())
    }
}

/// A child below a directory in the verbatim form, where `.` and `..` would be
/// names: they are resolved.
pub open spec fn verbatim_path_in(base: Seq<char>, child: Seq<char>) -> Seq<char> {
    let b = path_parts(Os::Windows, base);
    let c = path_parts(Os::Windows, child);
    let parts = walked(
        if c.rooted {
            seq![]
        } else {
            b.parts
        },
        c.parts,
    );
    base.take(b.prefix.len) + if b.rooted || c.rooted || parts.len() > 0 {
        seq!['\\'] + joined(parts, seq!['\\'])
    } else {
        seq![]
    }
}

/// The path `child` as seen from the directory `base`.
pub open spec fn path_in(os: Os, base: Seq<char>, child: Seq<char>) -> Seq<char> {
    let b = prefix_of(os, base);
    if prefix_of(os, child).kind != PrefixKind::Nothing {
        child
    } else if is_verbatim(b.kind) && child.len() > 0 {
        verbatim_path_in(base, child)
    } else if child.len() > 0 && is_separator(os, child[0]) {
        base.take(b.len) + child
    } else if base.len() == 0 || is_separator(os, base.last()) || (b.kind == PrefixKind::Disk
        && base.len() == 2) {
        base + child
    } else {
        base + seq![separator(os)] + child
    }
}

fn step(parts: &mut Vec<String>, part: &String)
    ensures
        views(final(parts)@) == stepped(views(old(parts)@), part@),
{
    let ghost before = views(parts@);
    if same(part.as_str(), ".") {
        return;
    }
    if same(part.as_str(), "..") {
        let n: usize = parts.len();
        if n > 0 {
            assert(before.last() == parts@[n - 1]@);
            if !same(parts[n - 1].as_str(), ".") && !same(parts[n - 1].as_str(), "..") {
                let _ = parts.pop();
                assert(views(parts@) =~= before.drop_last());
            }
        }
        return;
    }
    parts.push(part.clone());
    assert(views(parts@) =~= before.push(part@));
}

fn join_verbatim(base: &str, child: &str) -> (r: String)
    requires
        prefix_of(Os::Windows, base@).len <= base@.len(),
    ensures
        r@ == verbatim_path_in(base@, child@),
{
    let b = read_path(Os::Windows, base);
    let c = read_path(Os::Windows, child);
    let rooted = b.rooted || c.rooted;
    let mut parts: Vec<String> = if c.rooted {
        Vec::new()
    } else {
        b.parts
    };
    let ghost first = if c.rooted {
        Seq::<Seq<char>>::empty()
    } else {
        path_parts(Os::Windows, base@).parts
    };
    assert(views(parts@) =~= first);
    let ghost more = views(c.parts@);
    assert(more.take(0) =~= seq![]);
    let mut i: usize = 0;
    while i < c.parts.len()
        invariant
            0 <= i <= c.parts@.len(),
            more == views(c.parts@),
            views(parts@) == walked(first, more.take(i as int)),
        decreases c.parts@.len() - i,
    {
        assert(more.take(i + 1).drop_last() =~= more.take(i as int));
        assert(more.take(i + 1).last() == c.parts@[i as int]@);
        step(&mut parts, &c.parts[i]);
        i += 1;
    }
    assert(more.take(i as int) =~= more);
    let text = chars_of(base);
    let mut r = slice_of(&text, 0, b.prefix.len);
    assert(r@ =~= base@.take(b.prefix.len as int));
    if rooted || parts.len() > 0 {
        r.push('\\');
        proof {
            reveal_strlit("\\");
            assert("\\"@ =~= seq!['\\']);
        }
        r.append(join_all(&parts, "\\").as_str());
        assert(r@ =~= base@.take(b.prefix.len as int) + (seq!['\\'] + joined(
            views(parts@),
            seq!['\\'],
        )));
    } else {
        assert(r@ =~= base@.take(b.prefix.len as int) + seq![]);
    }
    r
}

/// The path `child` as seen from the directory `base`.
///
/// A child with a prefix of its own replaces the base, and one with a root
/// replaces all but the prefix of the base; otherwise one separator stands
/// between the two.
pub fn join(os: Os, base: &str, child: &str) -> (r: String)
    ensures
        r@ == path_in(os, base@, child@),
{
    let b = chars_of(base);
    let c = chars_of(child);
    if read_prefix(os, &c).kind != PrefixKind::Nothing {
        return child.to_owned();
    }
    let prefix = read_prefix(os, &b);
    if verbatim_kind(prefix.kind) && c.len() > 0 {
        return join_verbatim(base, child);
    }
    if c.len() > 0 && sep(os, c[0]) {
        let mut r = slice_of(&b, 0, prefix.len);
        assert(r@ =~= base@.take(prefix.len as int));
        r.append(child);
        return r;
    }
    let mut r = base.to_owned();
    if !(b.len() == 0 || sep(os, b[b.len() - 1]) || (prefix.kind == PrefixKind::Disk && b.len()
        == 2)) {
        r.push(if os == Os::Windows { '\\' } else { '/' });
        assert(r@ =~= base@ + seq![separator(os)]);
    }
    r.append(child);
    r
}

// ---- parents -------------------------------------------------------------

/// The directory that holds what a path names: nothing for a root or a bare
/// prefix, and the empty path for a bare name.
pub open spec fn dir_of(os: Os, path: Seq<char>) -> Option<Seq<char>> {
    let kind = prefix_of(os, path).kind;
    let verbatim = is_verbatim(kind);
    let start = body_start(os, path);
    let body = tidied(os, verbatim, path.skip(start));
    if body.len() > 0 {
        Some(path.take(start) + tidied(os, verbatim, without_last(os, verbatim, body)))
    } else if kind == PrefixKind::Nothing && starts_here(os, path) {
        Some(seq![])
    } else {
        None
    }
}

/// The directory that holds what a path names.
pub fn parent(os: Os, path: &str) -> (r: Option<String>)
    ensures
        opt_view(r) == dir_of(os, path@),
{
    let v = chars_of(path);
    let prefix = read_prefix(os, &v);
    let verbatim = verbatim_kind(prefix.kind);
    let start: usize = find_body(os, &v, &prefix);
    assert(v@.subrange(start as int, v@.len() as int) =~= v@.skip(start as int));
    let end: usize = tidy(os, verbatim, &v, start, v.len());
    let ghost body = v@.subrange(start as int, end as int);
    if end == start {
        if prefix.kind == PrefixKind::Nothing && here_at(os, &v, &prefix) {
            let r = String::new();
            assert(r@ =~= seq![]);
            return Some(r);
        }
        return None;
    }
    let at: usize = find_last_part(os, verbatim, &v, start, end);
    let cut: usize = if at > start {
        at - 1
    } else {
        start
    };
    assert(without_last(os, verbatim, body) =~= v@.subrange(start as int, cut as int));
    let last: usize = tidy(os, verbatim, &v, start, cut);
    let r = slice_of(&v, 0, last);
    assert(r@ =~= path@.take(start as int) + v@.subrange(start as int, last as int));
    Some(r)
}

proof fn lemma_next_end(path: Seq<char>, more: Seq<char>, verbatim: bool, i: int)
    requires
        0 <= i,
        next_end(path, verbatim, i) < path.len(),
    ensures
        next_end(path + more, verbatim, i) == next_end(path, verbatim, i),
        ends_part(Os::Windows, verbatim, path[next_end(path, verbatim, i)]),
        i <= next_end(path, verbatim, i),
    decreases path.len() - i,
{
    if i < path.len() {
        assert((path + more)[i] == path[i]);
        if !ends_part(Os::Windows, verbatim, path[i]) {
            lemma_next_end(path, more, verbatim, i + 1);
        }
    }
}

proof fn lemma_next_end_bound(path: Seq<char>, verbatim: bool, i: int)
    requires
        0 <= i <= path.len(),
    ensures
        i <= next_end(path, verbatim, i) <= path.len(),
    decreases path.len() - i,
{
    if i < path.len() && !ends_part(Os::Windows, verbatim, path[i]) {
        lemma_next_end_bound(path, verbatim, i + 1);
    }
}

/// Whether a path starts like a share but has no prefix.
pub open spec fn is_half_share(os: Os, path: Seq<char>) -> bool {
    &&& os == Os::Windows
    &&& path.len() >= 2
    &&& is_separator(os, path[0])
    &&& is_separator(os, path[1])
    &&& prefix_of(os, path).kind == PrefixKind::Nothing
}

/// A directory that is written in its plainest form: below its root or prefix,
/// without anything at its end that means nothing, and not verbatim.
pub open spec fn is_plain_dir(os: Os, dir: Seq<char>) -> bool {
    let body = dir.skip(body_start(os, dir));
    &&& !is_verbatim(prefix_of(os, dir).kind)
    &&& !is_half_share(os, dir)
    &&& body_start(os, dir) < dir.len()
    &&& tidied(os, false, body) == body
}

/// A name: one part that means something.
pub open spec fn is_name(os: Os, name: Seq<char>) -> bool {
    &&& name.len() > 0
    &&& name != seq!['.']
    &&& prefix_of(os, name).kind == PrefixKind::Nothing
    &&& forall|i: int| 0 <= i < name.len() ==> !is_separator(os, #[trigger] name[i])
}

proof fn lemma_prefix_stays(os: Os, dir: Seq<char>, more: Seq<char>)
    requires
        !is_verbatim(prefix_of(os, dir).kind),
        !is_half_share(os, dir),
        prefix_of(os, dir).len < dir.len(),
        !is_separator(os, dir.last()),
        more.len() > 0,
        is_separator(os, more[0]),
    ensures
        prefix_of(os, dir + more) == prefix_of(os, dir),
        0 <= prefix_of(os, dir).len,
        is_rooted_prefix(prefix_of(os, dir).kind) ==> has_root(os, dir),
{
    let p = dir + more;
    assert forall|i: int| 0 <= i < dir.len() implies p[i] == dir[i] by {}
    assert(p[dir.len() as int] == more[0]);
    if os == Os::Windows && dir.len() >= 2 && is_separator(os, dir[0]) && is_separator(os, dir[1]) {
        assert(dir.len() > 2) by {
            assert(dir.last() == dir[dir.len() - 1]);
        }
        if is_verbatim_start(dir) {
            assert(is_verbatim(verbatim_prefix(dir).kind));
        } else if dir.len() >= 4 && dir[2] == '.' && is_separator(os, dir[3]) {
            let e = next_end(dir, false, 4);
            lemma_next_end(dir, more, false, 4);
            assert(p.subrange(4, e) =~= dir.subrange(4, e));
        } else {
            let s = next_end(dir, false, 2);
            lemma_next_end_bound(dir, false, 2);
            assert(s < dir.len());
            lemma_next_end(dir, more, false, 2);
            lemma_next_end_bound(dir, false, s + 1);
            let e = next_end(dir, false, s + 1);
            lemma_next_end(dir, more, false, s + 1);
            assert(dir.len() >= 4);
            assert(p.subrange(2, s) =~= dir.subrange(2, s));
            assert(p.subrange(s + 1, e) =~= dir.subrange(s + 1, e));
        }
    } else if os == Os::Windows && dir.len() == 1 {
        assert(dir.last() == dir[0]);
    }
}

proof fn lemma_last_part_at(os: Os, body: Seq<char>, n: int)
    requires
        0 < n <= body.len(),
        is_separator(os, body[n - 1]),
        forall|i: int| n <= i < body.len() ==> !is_separator(os, #[trigger] body[i]),
    ensures
        last_part(os, false, body) == n,
    decreases body.len() - n,
{
    if n < body.len() {
        assert(body.last() == body[body.len() - 1]);
        assert forall|i: int| n <= i < body.drop_last().len() implies !is_separator(
            os,
            #[trigger] body.drop_last()[i],
        ) by {
            assert(body.drop_last()[i] == body[i]);
        }
        lemma_last_part_at(os, body.drop_last(), n);
    } else {
        assert(body.last() == body[n - 1]);
    }
}

proof fn lemma_plain_dir_ends_in_a_name(os: Os, body: Seq<char>)
    requires
        body.len() > 0,
        tidied(os, false, body) == body,
    ensures
        !is_separator(os, body.last()),
{
    lemma_last_part(os, false, body);
    if is_separator(os, body.last()) {
        assert(last_part(os, false, body) == body.len());
        assert(body.skip(body.len() as int).len() == 0);
        assert(tidied(os, false, body) == tidied(os, false, without_last(os, false, body)));
        lemma_tidied_shrinks(os, without_last(os, false, body));
    }
}

proof fn lemma_body_stays(os: Os, dir: Seq<char>, more: Seq<char>)
    requires
        !is_verbatim(prefix_of(os, dir).kind),
        !is_half_share(os, dir),
        body_start(os, dir) < dir.len(),
        !is_separator(os, dir.last()),
        more.len() > 0,
        is_separator(os, more[0]),
    ensures
        prefix_of(os, dir + more) == prefix_of(os, dir),
        body_start(os, dir + more) == body_start(os, dir),
        starts_here(os, dir + more) == starts_here(os, dir),
        0 <= body_start(os, dir),
{
    let p = dir + more;
    let n = prefix_of(os, dir).len;
    lemma_prefix_stays(os, dir, more);
    assert(p[n] == dir[n]);
    assert(has_root(os, p) == has_root(os, dir));
    if n + 1 < dir.len() {
        assert(p[n + 1] == dir[n + 1]);
    }
}

proof fn lemma_name_behind_a_body(os: Os, body: Seq<char>, name: Seq<char>)
    requires
        name.len() > 0,
        name != seq!['.'],
        forall|i: int| 0 <= i < name.len() ==> !is_separator(os, #[trigger] name[i]),
    ensures
        tidied(os, false, body + (seq![separator(os)] + name)) == body + (seq![separator(os)]
            + name),
        without_last(os, false, body + (seq![separator(os)] + name)) == body,
{
    let whole = body + (seq![separator(os)] + name);
    let k = body.len() + 1;
    assert(whole[k - 1] == separator(os));
    assert forall|i: int| k <= i < whole.len() implies !is_separator(os, #[trigger] whole[i]) by {
        assert(whole[i] == name[i - k]);
    }
    lemma_last_part_at(os, whole, k as int);
    assert(whole.skip(k as int) =~= name);
    assert(without_last(os, false, whole) =~= body);
}

proof fn lemma_join_of_a_name(os: Os, dir: Seq<char>, name: Seq<char>)
    requires
        !is_verbatim(prefix_of(os, dir).kind),
        prefix_of(os, dir).len < dir.len(),
        0 <= prefix_of(os, dir).len,
        !is_separator(os, dir.last()),
        is_name(os, name),
    ensures
        path_in(os, dir, name) == dir + (seq![separator(os)] + name),
{
    assert(!is_separator(os, name[0]));
    assert(dir + seq![separator(os)] + name =~= dir + (seq![separator(os)] + name));
}

/// A file that was found in a directory has that directory as its parent.
pub proof fn parent_of_a_found_file_is_its_directory(os: Os, dir: Seq<char>, name: Seq<char>)
    requires
        is_plain_dir(os, dir),
        is_name(os, name),
    ensures
        dir_of(os, path_in(os, dir, name)) == Some(dir),
{
    let start = body_start(os, dir);
    let body = dir.skip(start);
    let more = seq![separator(os)] + name;
    let p = dir + more;
    lemma_prefix_bound(os, dir);
    lemma_plain_dir_ends_in_a_name(os, body);
    assert(body.last() == dir.last());
    lemma_body_stays(os, dir, more);
    lemma_join_of_a_name(os, dir, name);
    lemma_name_behind_a_body(os, body, name);
    assert(p.skip(start) =~= body + more);
    assert(p.take(start) + body =~= dir);
}

proof fn lemma_prefix_bound(os: Os, path: Seq<char>)
    ensures
        0 <= prefix_of(os, path).len <= path.len(),
{
    if os == Os::Windows && path.len() >= 2 {
        lemma_next_end_bound(path, false, 2);
        if next_end(path, false, 2) < path.len() {
            lemma_next_end_bound(path, false, next_end(path, false, 2) + 1);
        }
        if path.len() >= 4 {
            lemma_next_end_bound(path, false, 4);
            lemma_next_end_bound(path, true, 4);
        }
        if path.len() >= 8 {
            lemma_next_end_bound(path, true, 8);
            if next_end(path, true, 8) < path.len() {
                lemma_next_end_bound(path, true, next_end(path, true, 8) + 1);
            }
        }
    }
}

proof fn lemma_tidied_shrinks(os: Os, body: Seq<char>)
    ensures
        tidied(os, false, body).len() <= body.len(),
    decreases body.len(),
{
    lemma_last_part(os, false, body);
    if body.len() > 0 && is_nothing(false, body.skip(last_part(os, false, body))) {
        lemma_tidied_shrinks(os, without_last(os, false, body));
    }
}

/// Below a directory of Unix stands a slash and then the child, without a
/// second slash where the directory ends in one; a child with a root of its own
/// stands alone.
pub proof fn unix_paths_are_joined_by_one_slash(os: Os, dir: Seq<char>, child: Seq<char>)
    requires
        os != Os::Windows,
    ensures
        child.len() > 0 && child[0] == '/' ==> path_in(os, dir, child) == child,
        child.len() == 0 || child[0] != '/' ==> {
            &&& dir.len() == 0 ==> path_in(os, dir, child) == child
            &&& dir.len() > 0 && dir.last() == '/' ==> path_in(os, dir, child) == dir + child
            &&& dir.len() > 0 && dir.last() != '/' ==> path_in(os, dir, child) == dir + seq!['/']
                + child
        },
{
    assert(dir.take(0) + child =~= child);
    if dir.len() == 0 {
        assert(dir + child =~= child);
    }
}

/// Below a directory on a drive stands a backslash and then the child, unless
/// the directory ends in a separator; a child on a drive of its own stands
/// alone, and one with a root stands on the drive of the directory.
pub proof fn windows_paths_are_joined_by_one_backslash(dir: Seq<char>, child: Seq<char>)
    requires
        dir.len() > 2,
        is_letter(dir[0]),
        dir[1] == ':',
        child.len() > 0,
    ensures
        child.len() > 1 && is_letter(child[0]) && child[1] == ':' ==> path_in(
            Os::Windows,
            dir,
            child,
        ) == child,
        child[0] != '\\' && child[0] != '/' && !(child.len() > 1 && is_letter(child[0])
            && child[1] == ':') ==> path_in(Os::Windows, dir, child) == (if dir.last() == '\\'
            || dir.last() == '/' {
            dir + child
        } else {
            dir + seq!['\\'] + child
        }),
        child.len() == 1 && child[0] == '\\' ==> path_in(Os::Windows, dir, child) == dir.take(2)
            + child,
{
}

/// Whether all texts can be names of files and directories.
pub open spec fn all_names(os: Os, names: Seq<Seq<char>>) -> bool {
    forall|i: int| 0 <= i < names.len() ==> is_name(os, #[trigger] names[i])
}

proof fn lemma_joined_last(list: Seq<Seq<char>>, sep: Seq<char>)
    requires
        list.len() > 1,
    ensures
        joined(list, sep) == joined(list.drop_last(), sep) + (sep + list.last()),
    decreases list.len(),
{
    if list.len() == 2 {
        reveal_with_fuel(joined, 2);
        assert(joined(list, sep) =~= list[0] + sep + list[1]);
        assert(joined(list.drop_last(), sep) == list[0]);
        assert(joined(list, sep) =~= joined(list.drop_last(), sep) + (sep + list.last()));
    } else {
        lemma_joined_last(list.skip(1), sep);
        assert(list.skip(1).drop_last() =~= list.drop_last().skip(1));
        assert(joined(list, sep) =~= joined(list.drop_last(), sep) + (sep + list.last()));
    }
}

proof fn lemma_only_part(os: Os, body: Seq<char>)
    requires
        forall|i: int| 0 <= i < body.len() ==> !is_separator(os, #[trigger] body[i]),
    ensures
        last_part(os, false, body) == 0,
    decreases body.len(),
{
    if body.len() > 0 {
        assert(body.last() == body[body.len() - 1]);
        assert forall|i: int| 0 <= i < body.drop_last().len() implies !is_separator(
            os,
            #[trigger] body.drop_last()[i],
        ) by {
            assert(body.drop_last()[i] == body[i]);
        }
        lemma_only_part(os, body.drop_last());
    }
}

proof fn lemma_body_of_names(os: Os, names: Seq<Seq<char>>)
    requires
        all_names(os, names),
    ensures
        body_parts(os, false, joined(names, seq![separator(os)])) == names,
        names.len() > 0 ==> {
            let body = joined(names, seq![separator(os)]);
            &&& body.len() > 0
            &&& tidied(os, false, body) == body
            &&& without_last(os, false, body) == joined(names.drop_last(), seq![separator(os)])
        },
    decreases names.len(),
{
    let sep = seq![separator(os)];
    let body = joined(names, sep);
    if names.len() == 0 {
        assert(names =~= seq![]);
    } else if names.len() == 1 {
        let name = names[0];
        assert(is_name(os, name));
        lemma_only_part(os, body);
        assert(body.skip(0) =~= name);
        assert(without_last(os, false, body) =~= seq![]);
        assert(body_parts(os, false, seq![]) =~= seq![]);
        assert(body_parts(os, false, body) =~= names);
    } else {
        let before = names.drop_last();
        let name = names.last();
        assert(is_name(os, name));
        lemma_joined_last(names, sep);
        assert forall|i: int| 0 <= i < before.len() implies is_name(os, #[trigger] before[i]) by {
            assert(before[i] == names[i]);
        }
        lemma_body_of_names(os, before);
        let head = joined(before, sep);
        lemma_name_behind_a_body(os, head, name);
        let k = head.len() + 1;
        assert(body[k - 1] == separator(os));
        assert forall|i: int| k <= i < body.len() implies !is_separator(os, #[trigger] body[i]) by {
            assert(body[i] == name[i - k]);
        }
        lemma_last_part_at(os, body, k as int);
        assert(body.skip(k as int) =~= name);
        assert(names =~= before.push(name));
    }
}

/// A path that is written as names between separators consists of these names,
/// behind a root, on a drive, or as it stands; and it lies in what all of them
/// but the last name.
pub proof fn a_path_consists_of_its_names(os: Os, drive: char, names: Seq<Seq<char>>)
    requires
        all_names(os, names),
        names.len() > 0,
        is_letter(drive),
    ensures
        os != Os::Windows ==> ({
            let rooted = seq!['/'] + joined(names, seq!['/']);
            let plain = joined(names, seq!['/']);
            &&& path_parts(os, rooted).rooted
            &&& path_parts(os, rooted).parts == names
            &&& path_parts(os, rooted).prefix.kind == PrefixKind::Nothing
            &&& dir_of(os, rooted) == Some(seq!['/'] + joined(names.drop_last(), seq!['/']))
            &&& !path_parts(os, plain).rooted
            &&& path_parts(os, plain).parts == names
            &&& dir_of(os, plain) == Some(joined(names.drop_last(), seq!['/']))
        }),
        os == Os::Windows ==> ({
            let rooted = seq![drive, ':', '\\'] + joined(names, seq!['\\']);
            &&& path_parts(os, rooted).rooted
            &&& path_parts(os, rooted).parts == names
            &&& path_parts(os, rooted).prefix.kind == PrefixKind::Disk
            &&& path_parts(os, rooted).prefix.name == seq![upper(drive)]
            &&& dir_of(os, rooted) == Some(
                seq![drive, ':', '\\'] + joined(names.drop_last(), seq!['\\']),
            )
        }),
        dir_of(Os::Linux, seq!['/']) is None,
        dir_of(Os::Macos, seq!['/']) is None,
        dir_of(Os::Windows, seq![drive, ':', '\\']) is None,
{
    let sep = seq![separator(os)];
    let body = joined(names, sep);
    lemma_body_of_names(os, names);
    let before = names.drop_last();
    assert forall|i: int| 0 <= i < before.len() implies is_name(os, #[trigger] before[i]) by {
        assert(before[i] == names[i]);
    }
    lemma_body_of_names(os, before);
    let head = joined(before, sep);
    assert(tidied(os, false, head) == head) by {
        if before.len() == 0 {
            assert(head.len() == 0);
        }
    }
    assert(is_name(os, names[0]));
    assert(body[0] == names[0][0] && (names[0].len() > 1 ==> body[1] == names[0][1])) by {
        if names.len() > 1 {
            assert(body == names[0] + sep + joined(names.skip(1), sep));
        }
    }
    assert(!is_separator(os, names[0][0]));
    if names[0].len() > 1 {
        assert(!is_separator(os, names[0][1]));
    } else {
        if names[0][0] == '.' {
            assert(names[0] =~= seq!['.']);
        }
    }
    if os == Os::Windows {
        let rooted = seq![drive, ':', '\\'] + body;
        assert(rooted.skip(3) =~= body);
        assert(rooted.take(3) =~= seq![drive, ':', '\\']);
    } else {
        let rooted = seq!['/'] + body;
        assert(rooted.skip(1) =~= body);
        assert(rooted.take(1) =~= seq!['/']);
        assert(body.skip(0) =~= body);
        assert(body.take(0) + head =~= head);
    }
}

/// Two paths are the same exactly where they consist of the same names: how
/// they are written makes no difference, a separator at the end included, and
/// which directory they stand in does.
pub proof fn paths_are_told_apart_by_their_names(
    os: Os,
    drive: char,
    a: Seq<Seq<char>>,
    b: Seq<Seq<char>>,
)
    requires
        all_names(os, a),
        all_names(os, b),
        a.len() > 0,
        b.len() > 0,
        is_letter(drive),
    ensures
        os != Os::Windows ==> {
            &&& same_path(os, seq!['/'] + joined(a, seq!['/']), seq!['/'] + joined(b, seq!['/']))
                <==> a == b
            &&& !same_path(os, seq!['/'] + joined(a, seq!['/']), joined(b, seq!['/']))
            &&& same_path(
                os,
                seq!['/'] + joined(a, seq!['/']) + seq!['/'],
                seq!['/'] + joined(a, seq!['/']),
            )
        },
        os == Os::Windows ==> {
            &&& same_path(
                os,
                seq![drive, ':', '\\'] + joined(a, seq!['\\']),
                seq![drive, ':', '\\'] + joined(b, seq!['\\']),
            ) <==> a == b
            &&& same_path(
                os,
                seq![upper(drive), ':', '\\'] + joined(a, seq!['\\']),
                seq![drive, ':', '\\'] + joined(a, seq!['\\']),
            )
            &&& same_path(
                os,
                seq![drive, ':', '\\'] + joined(a, seq!['\\']) + seq!['\\'],
                seq![drive, ':', '\\'] + joined(a, seq!['\\']),
            )
        },
{
    a_path_consists_of_its_names(os, drive, a);
    a_path_consists_of_its_names(os, drive, b);
    let sep = seq![separator(os)];
    let body = joined(a, sep);
    let more = body + sep;
    assert(body_parts(os, false, more) == body_parts(os, false, body)) by {
        assert(more.last() == separator(os));
        assert(last_part(os, false, more) == more.len());
        assert(more.skip(more.len() as int).len() == 0);
        assert(without_last(os, false, more) =~= body);
    }
    if os == Os::Windows {
        let p = seq![drive, ':', '\\'] + body;
        let q = seq![drive, ':', '\\'] + joined(b, sep);
        a_path_consists_of_its_names(os, upper(drive), a);
        let u = seq![upper(drive), ':', '\\'] + body;
        assert((p + sep).skip(3) =~= more);
        assert(p.skip(3) =~= body);
        assert(path_parts(os, p).prefix =~= path_parts(os, q).prefix);
        assert(path_parts(os, p).prefix =~= path_parts(os, p + sep).prefix);
        assert(path_parts(os, p).prefix =~= path_parts(os, u).prefix);
    } else {
        let p = seq!['/'] + body;
        assert((p + sep).skip(1) =~= more);
        assert(p.skip(1) =~= body);
    }
}

/// A path stands in a list where one of its entries is the same path.
pub proof fn a_path_is_listed_by_its_entries(
    os: Os,
    list: Seq<Seq<char>>,
    dir: Seq<char>,
    path: Seq<char>,
)
    ensures
        !lists_path(os, seq![], path),
        lists_path(os, list.push(dir), path) <==> lists_path(os, list, path) || same_path(
            os,
            dir,
            path,
        ),
{
    let more = list.push(dir);
    if lists_path(os, list, path) {
        let i = choose|i: int| 0 <= i < list.len() && same_path(os, #[trigger] list[i], path);
        assert(more[i] == list[i]);
    }
    assert(more[list.len() as int] == dir);
    if lists_path(os, more, path) {
        let i = choose|i: int| 0 <= i < more.len() && same_path(os, #[trigger] more[i], path);
        if i < list.len() {
            assert(list[i] == more[i]);
        }
    }
}

proof fn lemma_next_end_at(path: Seq<char>, verbatim: bool, i: int, n: int)
    requires
        0 <= i <= n <= path.len(),
        forall|j: int| i <= j < n ==> !ends_part(Os::Windows, verbatim, #[trigger] path[j]),
        n == path.len() || ends_part(Os::Windows, verbatim, path[n]),
    ensures
        next_end(path, verbatim, i) == n,
    decreases n - i,
{
    if i < n {
        lemma_next_end_at(path, verbatim, i + 1, n);
    }
}

/// Whether a text can be the name of a server or a share.
pub open spec fn is_share_name(name: Seq<char>) -> bool {
    &&& name.len() > 0
    &&& forall|i: int| 0 <= i < name.len() ==> #[trigger] name[i] != '\\' && name[i] != '/'
}

/// A path that starts with two backslashes, a server and a share has these as
/// its prefix, whatever follows behind a separator.
pub proof fn a_share_is_a_prefix(server: Seq<char>, share: Seq<char>, rest: Seq<char>)
    requires
        is_share_name(server),
        is_share_name(share),
        server[0] != '?' && server[0] != '.',
        rest.len() == 0 || rest[0] == '\\' || rest[0] == '/',
    ensures
        ({
            let path = seq!['\\', '\\'] + server + seq!['\\'] + share + rest;
            let prefix = prefix_of(Os::Windows, path);
            &&& prefix.kind == PrefixKind::Share
            &&& prefix.name == server
            &&& prefix.share == share
            &&& prefix.len == 3 + server.len() + share.len()
        }),
        prefix_of(Os::Windows, seq!['\\', '\\'] + server).kind == PrefixKind::Nothing,
{
    let path = seq!['\\', '\\'] + server + seq!['\\'] + share + rest;
    let s = 2 + server.len() as int;
    let e = s + 1 + share.len();
    assert forall|j: int| 2 <= j < s implies !ends_part(Os::Windows, false, #[trigger] path[j]) by {
        assert(path[j] == server[j - 2]);
    }
    assert(path[s] == '\\');
    lemma_next_end_at(path, false, 2, s);
    assert forall|j: int| s + 1 <= j < e implies !ends_part(
        Os::Windows,
        false,
        #[trigger] path[j],
    ) by {
        assert(path[j] == share[j - s - 1]);
    }
    if rest.len() > 0 {
        assert(path[e] == rest[0]);
    }
    lemma_next_end_at(path, false, s + 1, e);
    assert(path[2] == server[0]);
    assert(path.subrange(2, s) =~= server);
    assert(path.subrange(s + 1, e) =~= share);
    let bare = seq!['\\', '\\'] + server;
    assert forall|j: int| 2 <= j < bare.len() implies !ends_part(
        Os::Windows,
        false,
        #[trigger] bare[j],
    ) by {
        assert(bare[j] == server[j - 2]);
    }
    lemma_next_end_at(bare, false, 2, bare.len() as int);
    assert(bare[2] == server[0]);
}

/// The device form and the verbatim forms are prefixes of their own: a device by
/// its name, a verbatim drive by its letter, and a verbatim share by its server
/// and its share.
pub proof fn verbatim_forms_are_prefixes(
    drive: char,
    server: Seq<char>,
    share: Seq<char>,
    rest: Seq<char>,
)
    requires
        is_letter(drive),
        is_share_name(server),
        is_share_name(share),
        rest.len() == 0 || rest[0] == '\\',
    ensures
        ({
            let prefix = prefix_of(Os::Windows, seq!['\\', '\\', '?', '\\', drive, ':'] + rest);
            &&& prefix.kind == PrefixKind::VerbatimDisk
            &&& prefix.name == seq![upper(drive)]
            &&& prefix.len == 6
        }),
        ({
            let prefix = prefix_of(Os::Windows, seq!['\\', '\\', '.', '\\'] + server + rest);
            &&& prefix.kind == PrefixKind::Device
            &&& prefix.name == server
            &&& prefix.len == 4 + server.len()
        }),
        ({
            let prefix = prefix_of(
                Os::Windows,
                seq!['\\', '\\', '?', '\\', 'U', 'N', 'C', '\\'] + server + seq!['\\'] + share
                    + rest,
            );
            &&& prefix.kind == PrefixKind::VerbatimShare
            &&& prefix.name == server
            &&& prefix.share == share
            &&& prefix.len == 9 + server.len() + share.len()
        }),
{
    let a = seq!['\\', '\\', '?', '\\', drive, ':'] + rest;
    assert(a[4] == drive && a[5] == ':');
    if rest.len() > 0 {
        assert(a[6] == rest[0]);
    }
    lemma_next_end_at(a, true, 4, 6);
    let b = seq!['\\', '\\', '.', '\\'] + server + rest;
    let n = 4 + server.len() as int;
    assert forall|j: int| 4 <= j < n implies !ends_part(Os::Windows, false, #[trigger] b[j]) by {
        assert(b[j] == server[j - 4]);
    }
    if rest.len() > 0 {
        assert(b[n] == rest[0]);
    }
    lemma_next_end_at(b, false, 4, n);
    assert(b.subrange(4, n) =~= server);
    let c = seq!['\\', '\\', '?', '\\', 'U', 'N', 'C', '\\'] + server + seq!['\\'] + share + rest;
    let s = 8 + server.len() as int;
    let e = s + 1 + share.len();
    assert forall|j: int| 8 <= j < s implies !ends_part(Os::Windows, true, #[trigger] c[j]) by {
        assert(c[j] == server[j - 8]);
    }
    assert(c[s] == '\\');
    lemma_next_end_at(c, true, 8, s);
    assert forall|j: int| s + 1 <= j < e implies !ends_part(Os::Windows, true, #[trigger] c[j]) by {
        assert(c[j] == share[j - s - 1]);
    }
    if rest.len() > 0 {
        assert(c[e] == rest[0]);
    }
    lemma_next_end_at(c, true, s + 1, e);
    assert(c.subrange(8, s) =~= server);
    assert(c.subrange(s + 1, e) =~= share);
}

/// In the verbatim form a child is put behind the parts of the directory, with
/// its own `.` and `..` resolved.
pub proof fn steps_are_resolved(parts: Seq<Seq<char>>, name: Seq<char>)
    requires
        name != "."@,
        name != ".."@,
    ensures
        walked(parts, seq![name]) == parts.push(name),
        walked(parts, seq!["."@]) == parts,
        walked(parts, seq![name, ".."@]) == parts,
        walked(parts, seq![]) == parts,
{
    reveal_strlit(".");
    reveal_strlit("..");
    assert("."@.len() == 1 && ".."@.len() == 2);
    reveal_with_fuel(walked, 3);
    assert(seq![name].drop_last() =~= seq![]);
    assert(seq!["."@].drop_last() =~= seq![]);
    assert(seq![name, ".."@].drop_last() =~= seq![name]);
    assert(parts.push(name).drop_last() =~= parts);
}

} // verus!
