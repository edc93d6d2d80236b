//! Semantic versions: reading them out of a tool's output, and their order.

use core::cmp::Ordering;
use vstd::prelude::*;
use vstd::string::*;
use crate::text::{
    all_digits, chars_of, dec, dec_value, decimal, decimal_comes_back, is_digit, join_all, joined,
    joined_pieces_come_back, same, slice_of, split, split_on, views,
};

verus! {

/// The three numbers of a version.
#[derive(Clone, Copy, Debug, PartialEq, Eq, Structural)]
pub struct Version {
    pub major: u64,
    pub minor: u64,
    pub patch: u64,
}

/// A version with its pre-release identifiers, such as `0.1.0-rc.6`.
#[derive(Debug)]
pub struct FullVersion {
    pub core: Version,
    pub pre: Vec<String>,
}

/// A full version, with its pre-release identifiers as plain texts.
pub struct FullVersionView {
    pub core: Version,
    pub pre: Seq<Seq<char>>,
}

impl View for FullVersion {
    type V = FullVersionView;

    open spec fn view(&self) -> FullVersionView {
        FullVersionView { core: self.core, pre: views(self.pre@) }
    }
}

// ---- order ---------------------------------------------------------------

/// Whether one triple of numbers comes before another.
pub open spec fn core_less(a: Version, b: Version) -> bool {
    a.major < b.major || (a.major == b.major && (a.minor < b.minor || (a.minor == b.minor && a.patch
        < b.patch)))
}

/// Dictionary order on texts, by code point.
pub open spec fn text_less(a: Seq<char>, b: Seq<char>) -> bool
    decreases a.len(),
{
    if b.len() == 0 {
        false
    } else if a.len() == 0 {
        true
    } else if a[0] != b[0] {
        a[0] < b[0]
    } else {
        text_less(a.skip(1), b.skip(1))
    }
}

/// Pre-release identifiers: numbers by value, before all other texts.
pub open spec fn ident_less(a: Seq<char>, b: Seq<char>) -> bool {
    if all_digits(a) && all_digits(b) {
        dec_value(a) < dec_value(b)
    } else if all_digits(a) != all_digits(b) {
        all_digits(a)
    } else {
        text_less(a, b)
    }
}

/// Lists of identifiers: by the first difference, a proper prefix first.
pub open spec fn pre_less(a: Seq<Seq<char>>, b: Seq<Seq<char>>) -> bool
    decreases a.len(),
{
    if b.len() == 0 {
        false
    } else if a.len() == 0 {
        true
    } else if a[0] != b[0] {
        ident_less(a[0], b[0])
    } else {
        pre_less(a.skip(1), b.skip(1))
    }
}

/// Precedence of versions: a pre-release comes before its release.
pub open spec fn full_less(a: FullVersionView, b: FullVersionView) -> bool {
    if a.core != b.core {
        core_less(a.core, b.core)
    } else if a.pre.len() == 0 {
        false
    } else if b.pre.len() == 0 {
        true
    } else {
        pre_less(a.pre, b.pre)
    }
}

// ---- reading -------------------------------------------------------------

/// The end of the run of digits at position `i`.
pub open spec fn digits_end(s: Seq<char>, i: int) -> int
    decreases s.len() - i,
{
    if 0 <= i < s.len() && is_digit(s[i]) {
        digits_end(s, i + 1)
    } else {
        i
    }
}

/// The number at position `i` that fits a `u64`, and its end.
pub open spec fn number_at(s: Seq<char>, i: int) -> Option<(u64, int)> {
    let end = digits_end(s, i);
    if end > i && dec_value(s.subrange(i, end)) <= u64::MAX {
        Some((dec_value(s.subrange(i, end)) as u64, end))
    } else {
        None
    }
}

/// The number at position `i` that a dot follows, and the place behind the dot.
pub open spec fn dotted_number_at(s: Seq<char>, i: int) -> Option<(u64, int)> {
    match number_at(s, i) {
        Some((n, end)) => if end < s.len() && s[end] == '.' {
            Some((n, end + 1))
        } else {
            None
        },
        None => None,
    }
}

/// The version `major.minor.patch` that starts at position `i`, not in the
/// midst of a number, and its end.
pub open spec fn core_at(s: Seq<char>, i: int) -> Option<(Version, int)> {
    if i > 0 && is_digit(s[i - 1]) {
        None
    } else {
        match dotted_number_at(s, i) {
            Some((major, j)) => match dotted_number_at(s, j) {
                Some((minor, k)) => match number_at(s, k) {
                    Some((patch, end)) => Some((Version { major, minor, patch }, end)),
                    None => None,
                },
                None => None,
            },
            None => None,
        }
    }
}

/// The first version from position `i` on, and its end.
pub open spec fn first_core(s: Seq<char>, i: int) -> Option<(Version, int)>
    decreases s.len() - i,
{
    if i >= s.len() {
        None
    } else if core_at(s, i) is Some {
        core_at(s, i)
    } else {
        first_core(s, i + 1)
    }
}

/// The characters of pre-release identifiers.
pub open spec fn is_ident_char(c: char) -> bool {
    is_digit(c) || ('a' <= c && c <= 'z') || ('A' <= c && c <= 'Z') || c == '-'
}

/// The end of the run of identifier characters and dots at position `i`.
pub open spec fn pre_end(s: Seq<char>, i: int) -> int
    decreases s.len() - i,
{
    if 0 <= i < s.len() && (is_ident_char(s[i]) || s[i] == '.') {
        pre_end(s, i + 1)
    } else {
        i
    }
}

/// Identifiers are not empty, and numbers among them have no leading zeros.
pub open spec fn is_ident(s: Seq<char>) -> bool {
    &&& s.len() > 0
    &&& forall|i: int| 0 <= i < s.len() ==> is_ident_char(#[trigger] s[i])
    &&& all_digits(s) && s.len() > 1 ==> s[0] != '0'
}

/// Whether all texts of a list are identifiers.
pub open spec fn all_idents(list: Seq<Seq<char>>) -> bool {
    forall|i: int| 0 <= i < list.len() ==> is_ident(#[trigger] list[i])
}

/// The first full version in a text. Text behind the version is ignored; a
/// malformed pre-release part makes the text no version.
pub open spec fn read_full(s: Seq<char>) -> Option<FullVersionView> {
    match first_core(s, 0) {
        None => None,
        Some((core, end)) => if end < s.len() && s[end] == '-' {
            let pre = split_on(s.subrange(end + 1, pre_end(s, end + 1)), '.');
            if all_idents(pre) {
                Some(FullVersionView { core, pre })
            } else {
                None
            }
        } else {
            Some(FullVersionView { core, pre: seq![] })
        },
    }
}

/// The first version in a text, without what follows its three numbers.
pub open spec fn read_core(s: Seq<char>) -> Option<Version> {
    match first_core(s, 0) {
        Some((core, _)) => Some(core),
        None => None,
    }
}

proof fn lemma_digits_end(s: Seq<char>, i: int)
    requires
        0 <= i <= s.len(),
    ensures
        i <= digits_end(s, i) <= s.len(),
        forall|j: int| i <= j < digits_end(s, i) ==> is_digit(#[trigger] s[j]),
        digits_end(s, i) < s.len() ==> !is_digit(s[digits_end(s, i)]),
    decreases s.len() - i,
{
    if i < s.len() && is_digit(s[i]) {
        lemma_digits_end(s, i + 1);
    }
}

proof fn lemma_pre_end(s: Seq<char>, i: int)
    requires
        0 <= i <= s.len(),
    ensures
        i <= pre_end(s, i) <= s.len(),
    decreases s.len() - i,
{
    if i < s.len() && (is_ident_char(s[i]) || s[i] == '.') {
        lemma_pre_end(s, i + 1);
    }
}

proof fn lemma_dec_value_grows(s: Seq<char>, from: int, i: int, j: int)
    requires
        0 <= from <= i <= j <= s.len(),
    ensures
        dec_value(s.subrange(from, i)) <= dec_value(s.subrange(from, j)),
    decreases j - i,
{
    if i < j {
        lemma_dec_value_grows(s, from, i, j - 1);
        assert(s.subrange(from, j).drop_last() =~= s.subrange(from, j - 1));
    }
}

/// Whether `c` is a decimal digit.
pub fn digit(c: char) -> (r: bool)
    ensures
        r == is_digit(c),
{
    '0' <= c && c <= '9'
}

fn read_number(v: &Vec<char>, at: usize) -> (r: Option<(u64, usize)>)
    requires
        at <= v@.len(),
    ensures
        (r matches Some(x) ==> at < x.1 <= v@.len() && number_at(v@, at as int) == Some(
            (x.0, x.1 as int),
        )),
        r is None ==> number_at(v@, at as int) is None,
{
    let mut i: usize = at;
    let mut n: u64 = 0;
    proof {
        lemma_digits_end(v@, at as int);
        assert(v@.subrange(at as int, at as int) =~= seq![]);
    }
    while i < v.len() && digit(v[i])
        invariant
            at <= i <= digits_end(v@, at as int) <= v@.len(),
            n == dec_value(v@.subrange(at as int, i as int)),
            digits_end(v@, at as int) == digits_end(v@, i as int),
        decreases v@.len() - i,
    {
        let ghost end = digits_end(v@, at as int);
        let d: u64 = v[i] as u64 - 48;
        assert(v@.subrange(at as int, i + 1).drop_last() =~= v@.subrange(at as int, i as int));
        assert(dec_value(v@.subrange(at as int, i + 1)) == 10 * n + d);
        proof {
            lemma_digits_end(v@, i + 1);
            lemma_dec_value_grows(v@, at as int, i + 1, end);
        }
        match n.checked_mul(10) {
            None => {
                return None;
            },
            Some(m) => match m.checked_add(d) {
                None => {
                    return None;
                },
                Some(k) => {
                    n = k;
                },
            },
        }
        i += 1;
    }
    if i == at {
        None
    } else {
        Some((n, i))
    }
}

fn read_dotted_number(v: &Vec<char>, at: usize) -> (r: Option<(u64, usize)>)
    requires
        at <= v@.len(),
    ensures
        (r matches Some(x) ==> at < x.1 <= v@.len() && dotted_number_at(v@, at as int) == Some(
            (x.0, x.1 as int),
        )),
        r is None ==> dotted_number_at(v@, at as int) is None,
{
    match read_number(v, at) {
        Some((n, end)) => if end < v.len() && v[end] == '.' {
            Some((n, end + 1))
        } else {
            None
        },
        None => None,
    }
}

fn read_core_at(v: &Vec<char>, at: usize) -> (r: Option<(Version, usize)>)
    requires
        at <= v@.len(),
    ensures
        (r matches Some(x) ==> at < x.1 <= v@.len() && core_at(v@, at as int) == Some(
            (x.0, x.1 as int),
        )),
        r is None ==> core_at(v@, at as int) is None,
{
    if at > 0 && digit(v[at - 1]) {
        return None;
    }
    match read_dotted_number(v, at) {
        Some((major, j)) => match read_dotted_number(v, j) {
            Some((minor, k)) => match read_number(v, k) {
                Some((patch, end)) => Some((Version { major, minor, patch }, end)),
                None => None,
            },
            None => None,
        },
        None => None,
    }
}

fn find_core(v: &Vec<char>) -> (r: Option<(Version, usize)>)
    ensures
        (r matches Some(x) ==> x.1 <= v@.len() && first_core(v@, 0) == Some((x.0, x.1 as int))),
        r is None ==> first_core(v@, 0) is None,
{
    let mut i: usize = 0;
    while i < v.len()
        invariant
            0 <= i <= v@.len(),
            first_core(v@, 0) == first_core(v@, i as int),
        decreases v@.len() - i,
    {
        let found = read_core_at(v, i);
        if found.is_some() {
            return found;
        }
        i += 1;
    }
    None
}

impl Version {
    /// The version `major.minor.patch`.
    pub fn new(major: u64, minor: u64, patch: u64) -> (r: Version)
        ensures
            r == (Version { major, minor, patch }),
    {
        Version { major, minor, patch }
    }

    /// Reads the first version out of a text such as `v24.15.0`.
    pub fn parse(raw: &str) -> (r: Option<Version>)
        ensures
            r == read_core(raw@),
    {
        let v = chars_of(raw);
        match find_core(&v) {
            Some((core, _)) => Some(core),
            None => None,
        }
    }

    /// Whether this version is `other` or a later one.
    pub fn at_least(&self, other: &Version) -> (r: bool)
        ensures
            r == !core_less(*self, *other),
    {
        !(self.major < other.major || (self.major == other.major && (self.minor < other.minor || (
        self.minor == other.minor && self.patch < other.patch))))
    }

    /// The version as `major.minor.patch`.
    pub open spec fn text(self) -> Seq<char> {
        dec(self.major as nat) + seq!['.'] + dec(self.minor as nat) + seq!['.'] + dec(
            self.patch as nat,
        )
    }

    /// Writes the version as `major.minor.patch`.
    pub fn to_text(&self) -> (r: String)
        ensures
            r@ == self.text(),
    {
        let mut s = decimal(self.major);
        s.push('.');
        s.append(decimal(self.minor).as_str());
        s.push('.');
        s.append(decimal(self.patch).as_str());
        assert(s@ =~= self.text());
        s
    }
}

fn ident_char(c: char) -> (r: bool)
    ensures
        r == is_ident_char(c),
{
    digit(c) || ('a' <= c && c <= 'z') || ('A' <= c && c <= 'Z') || c == '-'
}

/// Whether a text consists of decimal digits.
fn digits_only(v: &Vec<char>) -> (r: bool)
    ensures
        r == all_digits(v@),
{
    let mut i: usize = 0;
    while i < v.len()
        invariant
            0 <= i <= v@.len(),
            forall|j: int| 0 <= j < i ==> is_digit(#[trigger] v@[j]),
        decreases v@.len() - i,
    {
        if !digit(v[i]) {
            assert(!is_digit(v@[i as int]));
            return false;
        }
        i += 1;
    }
    true
}

fn ident(s: &str) -> (r: bool)
    ensures
        r == is_ident(s@),
{
    let v = chars_of(s);
    if v.len() == 0 {
        return false;
    }
    let mut i: usize = 0;
    while i < v.len()
        invariant
            0 <= i <= v@.len(),
            v@ == s@,
            forall|j: int| 0 <= j < i ==> is_ident_char(#[trigger] v@[j]),
        decreases v@.len() - i,
    {
        if !ident_char(v[i]) {
            assert(!is_ident_char(v@[i as int]));
            return false;
        }
        i += 1;
    }
    !(digits_only(&v) && v.len() > 1 && v[0] == '0')
}

fn idents(list: &Vec<String>) -> (r: bool)
    ensures
        r == all_idents(views(list@)),
{
    let mut i: usize = 0;
    while i < list.len()
        invariant
            0 <= i <= list@.len(),
            forall|j: int| 0 <= j < i ==> is_ident(#[trigger] views(list@)[j]),
        decreases list@.len() - i,
    {
        if !ident(list[i].as_str()) {
            assert(!is_ident(views(list@)[i as int]));
            return false;
        }
        i += 1;
    }
    true
}

fn find_pre_end(v: &Vec<char>, at: usize) -> (end: usize)
    requires
        at <= v@.len(),
    ensures
        at <= end <= v@.len(),
        end == pre_end(v@, at as int),
{
    let mut i: usize = at;
    while i < v.len() && (ident_char(v[i]) || v[i] == '.')
        invariant
            at <= i <= v@.len(),
            pre_end(v@, at as int) == pre_end(v@, i as int),
        decreases v@.len() - i,
    {
        i += 1;
    }
    i
}

// ---- comparing -----------------------------------------------------------

fn less_text(a: &Vec<char>, b: &Vec<char>) -> (r: bool)
    ensures
        r == text_less(a@, b@),
{
    let mut i: usize = 0;
    assert(a@.skip(0) =~= a@);
    assert(b@.skip(0) =~= b@);
    while i < a.len() && i < b.len()
        invariant
            0 <= i <= a@.len(),
            i <= b@.len(),
            text_less(a@, b@) == text_less(a@.skip(i as int), b@.skip(i as int)),
        decreases a@.len() - i,
    {
        assert(a@.skip(i as int).skip(1) =~= a@.skip(i + 1));
        assert(b@.skip(i as int).skip(1) =~= b@.skip(i + 1));
        if a[i] != b[i] {
            return a[i] < b[i];
        }
        i += 1;
    }
    i < b.len()
}

proof fn lemma_leading_zero(s: Seq<char>)
    requires
        s.len() > 0,
        s[0] == '0',
    ensures
        dec_value(s) == dec_value(s.skip(1)),
    decreases s.len(),
{
    if s.len() > 1 {
        lemma_leading_zero(s.drop_last());
        assert(s.drop_last().skip(1) =~= s.skip(1).drop_last());
    } else {
        assert(s.drop_last() =~= seq![]);
        assert(s.skip(1) =~= seq![]);
    }
}

proof fn lemma_longer_is_larger(a: Seq<char>, b: Seq<char>)
    requires
        all_digits(a),
        all_digits(b),
        a.len() > b.len(),
        a[0] != '0',
    ensures
        dec_value(a) > dec_value(b),
    decreases a.len(),
{
    assert(is_digit(a[0]));
    assert(is_digit(a.last()));
    assert forall|i: int| 0 <= i < a.drop_last().len() implies is_digit(
        #[trigger] a.drop_last()[i],
    ) by {
        assert(a.drop_last()[i] == a[i]);
    }
    if b.len() == 0 {
        if a.len() > 1 {
            lemma_longer_is_larger(a.drop_last(), b);
        }
    } else {
        assert(is_digit(b.last()));
        assert forall|i: int| 0 <= i < b.drop_last().len() implies is_digit(
            #[trigger] b.drop_last()[i],
        ) by {
            assert(b.drop_last()[i] == b[i]);
        }
        lemma_longer_is_larger(a.drop_last(), b.drop_last());
    }
}

/// The position behind the leading zeros.
fn skip_zeros(v: &Vec<char>) -> (r: usize)
    requires
        all_digits(v@),
    ensures
        r <= v@.len(),
        dec_value(v@) == dec_value(v@.skip(r as int)),
        r < v@.len() ==> v@[r as int] != '0',
{
    let mut i: usize = 0;
    assert(v@.skip(0) =~= v@);
    while i < v.len() && v[i] == '0'
        invariant
            0 <= i <= v@.len(),
            dec_value(v@) == dec_value(v@.skip(i as int)),
        decreases v@.len() - i,
    {
        proof {
            lemma_leading_zero(v@.skip(i as int));
            assert(v@.skip(i as int).skip(1) =~= v@.skip(i + 1));
        }
        i += 1;
    }
    i
}

fn less_number(a: &Vec<char>, b: &Vec<char>) -> (r: bool)
    requires
        all_digits(a@),
        all_digits(b@),
    ensures
        r == (dec_value(a@) < dec_value(b@)),
{
    let i: usize = skip_zeros(a);
    let j: usize = skip_zeros(b);
    let n: usize = a.len() - i;
    let ghost x = a@.skip(i as int);
    let ghost y = b@.skip(j as int);
    assert(all_digits(x)) by {
        assert forall|k: int| 0 <= k < x.len() implies is_digit(#[trigger] x[k]) by {
            assert(x[k] == a@[k + i]);
        }
    }
    assert(all_digits(y)) by {
        assert forall|k: int| 0 <= k < y.len() implies is_digit(#[trigger] y[k]) by {
            assert(y[k] == b@[k + j]);
        }
    }
    if n != b.len() - j {
        proof {
            if x.len() > y.len() {
                lemma_longer_is_larger(x, y);
            } else {
                lemma_longer_is_larger(y, x);
            }
        }
        return n < b.len() - j;
    }
    let mut less = false;
    let mut equal = true;
    let mut k: usize = 0;
    assert(x.take(0) =~= seq![]);
    assert(y.take(0) =~= seq![]);
    while k < n
        invariant
            0 <= k <= n,
            i + n == a.len(),
            j + n == b.len(),
            x == a@.skip(i as int),
            y == b@.skip(j as int),
            all_digits(x),
            all_digits(y),
            less == (dec_value(x.take(k as int)) < dec_value(y.take(k as int))),
            equal == (dec_value(x.take(k as int)) == dec_value(y.take(k as int))),
        decreases n - k,
    {
        proof {
            assert(x.take(k + 1).drop_last() =~= x.take(k as int));
            assert(y.take(k + 1).drop_last() =~= y.take(k as int));
            assert(x[k as int] == a@[i + k]);
            assert(y[k as int] == b@[j + k]);
            assert(is_digit(x[k as int]));
            assert(is_digit(y[k as int]));
        }
        let c = a[i + k];
        let d = b[j + k];
        if equal && c != d {
            less = c < d;
            equal = false;
        }
        k += 1;
    }
    assert(x.take(n as int) =~= x);
    assert(y.take(n as int) =~= y);
    less
}

fn less_ident(a: &str, b: &str) -> (r: bool)
    ensures
        r == ident_less(a@, b@),
{
    let x = chars_of(a);
    let y = chars_of(b);
    let p = digits_only(&x);
    let q = digits_only(&y);
    if p && q {
        less_number(&x, &y)
    } else if p != q {
        p
    } else {
        less_text(&x, &y)
    }
}

fn less_pre(a: &Vec<String>, b: &Vec<String>) -> (r: bool)
    ensures
        r == pre_less(views(a@), views(b@)),
{
    let ghost x = views(a@);
    let ghost y = views(b@);
    let mut i: usize = 0;
    assert(x.skip(0) =~= x);
    assert(y.skip(0) =~= y);
    while i < a.len() && i < b.len()
        invariant
            0 <= i <= a@.len(),
            i <= b@.len(),
            x == views(a@),
            y == views(b@),
            pre_less(x, y) == pre_less(x.skip(i as int), y.skip(i as int)),
        decreases a@.len() - i,
    {
        assert(x.skip(i as int).skip(1) =~= x.skip(i + 1));
        assert(y.skip(i as int).skip(1) =~= y.skip(i + 1));
        assert(x.skip(i as int)[0] == a@[i as int]@);
        assert(y.skip(i as int)[0] == b@[i as int]@);
        if !same(a[i].as_str(), b[i].as_str()) {
            return less_ident(a[i].as_str(), b[i].as_str());
        }
        i += 1;
    }
    i < b.len()
}

fn same_pre(a: &Vec<String>, b: &Vec<String>) -> (r: bool)
    ensures
        r == (views(a@) == views(b@)),
{
    if a.len() != b.len() {
        assert(views(a@).len() != views(b@).len());
        return false;
    }
    let mut i: usize = 0;
    while i < a.len()
        invariant
            0 <= i <= a@.len(),
            a@.len() == b@.len(),
            forall|j: int| 0 <= j < i ==> #[trigger] a@[j]@ == b@[j]@,
        decreases a@.len() - i,
    {
        if !same(a[i].as_str(), b[i].as_str()) {
            assert(views(a@)[i as int] != views(b@)[i as int]);
            return false;
        }
        i += 1;
    }
    assert(views(a@) =~= views(b@));
    true
}

impl FullVersion {
    /// Reads the first version out of a text, pre-release part included.
    pub fn parse(raw: &str) -> (r: Option<FullVersion>)
        ensures
            match r {
                Some(v) => read_full(raw@) == Some(v@),
                None => read_full(raw@) is None,
            },
    {
        let v = chars_of(raw);
        match find_core(&v) {
            None => None,
            Some((core, end)) => {
                if end < v.len() && v[end] == '-' {
                    let stop: usize = find_pre_end(&v, end + 1);
                    let pre = split(slice_of(&v, end + 1, stop).as_str(), '.');
                    if idents(&pre) {
                        Some(FullVersion { core, pre })
                    } else {
                        None
                    }
                } else {
                    let r = FullVersion { core, pre: Vec::new() };
                    assert(r@.pre =~= seq![]);
                    Some(r)
                }
            },
        }
    }

    /// Whether two versions are the same, pre-release part included.
    pub fn same(&self, other: &FullVersion) -> (r: bool)
        ensures
            r == (self@ == other@),
    {
        self.core == other.core && same_pre(&self.pre, &other.pre)
    }

    /// Whether this version comes before `other`.
    pub fn less(&self, other: &FullVersion) -> (r: bool)
        ensures
            r == full_less(self@, other@),
    {
        if self.core != other.core {
            !self.core.at_least(&other.core)
        } else if self.pre.len() == 0 {
            false
        } else if other.pre.len() == 0 {
            true
        } else {
            less_pre(&self.pre, &other.pre)
        }
    }

    /// Writes the version the way it is read, such as `0.1.0-rc.6`.
    pub fn to_text(&self) -> (r: String)
        ensures
            r@ == full_text(self@),
    {
        let mut s = self.core.to_text();
        if self.pre.len() > 0 {
            s.push('-');
            s.append(join_all(&self.pre, ".").as_str());
            proof {
                reveal_strlit(".");
                assert("."@ =~= seq!['.']);
            }
        }
        assert(s@ =~= full_text(self@));
        s
    }
}

impl Clone for FullVersion {
    fn clone(&self) -> (r: FullVersion)
        ensures
            r@ == self@,
    {
        let r = FullVersion { core: self.core, pre: self.pre.clone() };
        assert(r@.pre =~= self@.pre);
        r
    }
}

/// A version the way it is read, such as `0.1.0-rc.6`.
pub open spec fn full_text(v: FullVersionView) -> Seq<char> {
    v.core.text() + if v.pre.len() > 0 {
        seq!['-'] + joined(v.pre, seq!['.'])
    } else {
        seq![]
    }
}

impl PartialEq for FullVersion {
    fn eq(&self, other: &FullVersion) -> (r: bool) {
        self.same(other)
    }
}

impl vstd::std_specs::cmp::PartialEqSpecImpl for FullVersion {
    open spec fn obeys_eq_spec() -> bool {
        true
    }

    open spec fn eq_spec(&self, other: &FullVersion) -> bool {
        self@ == other@
    }
}

impl PartialOrd for FullVersion {
    fn partial_cmp(&self, other: &FullVersion) -> (r: Option<Ordering>) {
        if self.same(other) {
            Some(Ordering::Equal)
        } else if self.less(other) {
            Some(Ordering::Less)
        } else {
            Some(Ordering::Greater)
        }
    }
}

impl vstd::std_specs::cmp::PartialOrdSpecImpl for FullVersion {
    open spec fn obeys_partial_cmp_spec() -> bool {
        true
    }

    open spec fn partial_cmp_spec(&self, other: &FullVersion) -> Option<Ordering> {
        if self@ == other@ {
            Some(Ordering::Equal)
        } else if full_less(self@, other@) {
            Some(Ordering::Less)
        } else {
            Some(Ordering::Greater)
        }
    }
}

// ---- laws ----------------------------------------------------------------

/// Versions as they can be read: all pre-release identifiers are well formed.
pub open spec fn is_version(v: FullVersionView) -> bool {
    all_idents(v.pre)
}

proof fn lemma_text_less(a: Seq<char>, b: Seq<char>)
    ensures
        !text_less(a, a),
        a != b ==> text_less(a, b) != text_less(b, a),
    decreases a.len(),
{
    if a.len() > 0 && b.len() > 0 {
        lemma_text_less(a.skip(1), b.skip(1));
        if a[0] == b[0] && a.skip(1) == b.skip(1) {
            assert(a =~= seq![a[0]] + a.skip(1));
            assert(b =~= seq![b[0]] + b.skip(1));
        }
    } else if a.len() > 0 {
        lemma_text_less(a.skip(1), a.skip(1));
    } else if b.len() == 0 {
        assert(a =~= b);
    }
}

proof fn lemma_text_less_transitive(a: Seq<char>, b: Seq<char>, c: Seq<char>)
    requires
        text_less(a, b),
        text_less(b, c),
    ensures
        text_less(a, c),
    decreases a.len(),
{
    if a.len() > 0 && a[0] == b[0] && b[0] == c[0] {
        lemma_text_less_transitive(a.skip(1), b.skip(1), c.skip(1));
    }
}

proof fn lemma_all_digits_drop_last(s: Seq<char>)
    requires
        all_digits(s),
        s.len() > 0,
    ensures
        all_digits(s.drop_last()),
        is_digit(s.last()),
{
    assert forall|i: int| 0 <= i < s.drop_last().len() implies is_digit(
        #[trigger] s.drop_last()[i],
    ) by {
        assert(s.drop_last()[i] == s[i]);
    }
}

proof fn lemma_dec_value_injective(a: Seq<char>, b: Seq<char>)
    requires
        all_digits(a),
        all_digits(b),
        a.len() == b.len(),
        dec_value(a) == dec_value(b),
    ensures
        a == b,
    decreases a.len(),
{
    if a.len() > 0 {
        lemma_all_digits_drop_last(a);
        lemma_all_digits_drop_last(b);
        lemma_dec_value_injective(a.drop_last(), b.drop_last());
        assert(a =~= a.drop_last().push(a.last()));
        assert(b =~= b.drop_last().push(b.last()));
    } else {
        assert(a =~= b);
    }
}

proof fn lemma_ident_less(a: Seq<char>, b: Seq<char>)
    requires
        is_ident(a),
        is_ident(b),
    ensures
        !ident_less(a, a),
        a != b ==> ident_less(a, b) != ident_less(b, a),
{
    lemma_text_less(a, b);
    if all_digits(a) && all_digits(b) && dec_value(a) == dec_value(b) {
        if a.len() > b.len() {
            lemma_longer_is_larger(a, b);
        } else if b.len() > a.len() {
            lemma_longer_is_larger(b, a);
        } else {
            lemma_dec_value_injective(a, b);
        }
    }
}

proof fn lemma_ident_less_transitive(a: Seq<char>, b: Seq<char>, c: Seq<char>)
    requires
        ident_less(a, b),
        ident_less(b, c),
    ensures
        ident_less(a, c),
{
    if !all_digits(a) && !all_digits(b) && !all_digits(c) {
        lemma_text_less_transitive(a, b, c);
    }
}

proof fn lemma_all_idents_skip(a: Seq<Seq<char>>)
    requires
        all_idents(a),
        a.len() > 0,
    ensures
        is_ident(a[0]),
        all_idents(a.skip(1)),
{
    assert forall|i: int| 0 <= i < a.skip(1).len() implies is_ident(#[trigger] a.skip(1)[i]) by {
        assert(a.skip(1)[i] == a[i + 1]);
    }
}

proof fn lemma_pre_less(a: Seq<Seq<char>>, b: Seq<Seq<char>>)
    requires
        all_idents(a),
        all_idents(b),
    ensures
        !pre_less(a, a),
        a != b ==> pre_less(a, b) != pre_less(b, a),
    decreases a.len(),
{
    if a.len() > 0 && b.len() > 0 {
        lemma_all_idents_skip(a);
        lemma_all_idents_skip(b);
        lemma_ident_less(a[0], b[0]);
        lemma_pre_less(a.skip(1), b.skip(1));
        if a[0] == b[0] && a.skip(1) == b.skip(1) {
            assert(a =~= seq![a[0]] + a.skip(1));
            assert(b =~= seq![b[0]] + b.skip(1));
        }
    } else if a.len() > 0 {
        lemma_all_idents_skip(a);
        lemma_pre_less(a.skip(1), a.skip(1));
    } else if b.len() == 0 {
        assert(a =~= b);
    }
}

proof fn lemma_pre_less_transitive(a: Seq<Seq<char>>, b: Seq<Seq<char>>, c: Seq<Seq<char>>)
    requires
        all_idents(a),
        all_idents(b),
        all_idents(c),
        pre_less(a, b),
        pre_less(b, c),
    ensures
        pre_less(a, c),
    decreases a.len(),
{
    if a.len() > 0 {
        lemma_all_idents_skip(a);
        lemma_all_idents_skip(b);
        lemma_all_idents_skip(c);
        if a[0] == b[0] && b[0] == c[0] {
            lemma_pre_less_transitive(a.skip(1), b.skip(1), c.skip(1));
        } else if a[0] != b[0] && b[0] != c[0] {
            lemma_ident_less_transitive(a[0], b[0], c[0]);
            lemma_ident_less(a[0], c[0]);
            lemma_ident_less(a[0], b[0]);
        }
    }
}

/// Of two different versions exactly one comes before the other, and no
/// version comes before itself.
pub proof fn versions_are_totally_ordered(a: FullVersionView, b: FullVersionView)
    requires
        is_version(a),
        is_version(b),
    ensures
        !full_less(a, a),
        a != b ==> full_less(a, b) != full_less(b, a),
{
    lemma_pre_less(a.pre, b.pre);
    lemma_pre_less(a.pre, a.pre);
    if a.core == b.core && a.pre.len() == 0 && b.pre.len() == 0 {
        assert(a.pre =~= b.pre);
    }
}

/// What comes before a version comes before every later one.
pub proof fn version_order_is_transitive(
    a: FullVersionView,
    b: FullVersionView,
    c: FullVersionView,
)
    requires
        is_version(a),
        is_version(b),
        is_version(c),
        full_less(a, b),
        full_less(b, c),
    ensures
        full_less(a, c),
{
    if a.core == b.core && b.core == c.core && c.pre.len() > 0 {
        lemma_pre_less_transitive(a.pre, b.pre, c.pre);
    }
}

/// A pre-release comes before the release with the same three numbers.
pub proof fn pre_release_precedes_release(pre: FullVersionView, release: FullVersionView)
    requires
        pre.core == release.core,
        pre.pre.len() > 0,
        release.pre.len() == 0,
    ensures
        full_less(pre, release),
        !full_less(release, pre),
{
}

proof fn lemma_number_of_dec(n: u64, before: Seq<char>, after: Seq<char>)
    requires
        after.len() == 0 || !is_digit(after[0]),
    ensures
        number_at(before + dec(n as nat) + after, before.len() as int) == Some(
            (n, (before.len() + dec(n as nat).len()) as int),
        ),
{
    let d = dec(n as nat);
    let s = before + d + after;
    decimal_comes_back(n as nat);
    let i = before.len() as int;
    lemma_digits_end(s, i);
    let end = digits_end(s, i);
    assert(end == i + d.len()) by {
        if end < i + d.len() {
            assert(s[end] == d[end - i]);
            assert(is_digit(d[end - i]));
        }
        if end > i + d.len() {
            assert(s[i + d.len()] == after[0]);
        }
    }
    assert(s.subrange(i, end) =~= d);
}

proof fn lemma_core_of_text(v: Version, after: Seq<char>)
    requires
        after.len() == 0 || !is_digit(after[0]),
    ensures
        first_core(v.text() + after, 0) == Some((v, v.text().len() as int)),
{
    let s = v.text() + after;
    let a = dec(v.major as nat);
    let b = dec(v.minor as nat);
    let c = dec(v.patch as nat);
    decimal_comes_back(v.major as nat);
    let dot = seq!['.'];
    assert(s =~= Seq::<char>::empty() + a + (dot + b + dot + c + after));
    lemma_number_of_dec(v.major, Seq::<char>::empty(), dot + b + dot + c + after);
    assert(s =~= (a + dot) + b + (dot + c + after));
    lemma_number_of_dec(v.minor, a + dot, dot + c + after);
    assert(s =~= (a + dot + b + dot) + c + after);
    lemma_number_of_dec(v.patch, a + dot + b + dot, after);
    assert(s[a.len() as int] == '.');
    assert(s[(a.len() + 1 + b.len()) as int] == '.');
    assert(core_at(s, 0) == Some((v, v.text().len() as int)));
}

proof fn lemma_pre_end_at(s: Seq<char>, i: int)
    requires
        0 <= i <= s.len(),
        forall|j: int| i <= j < s.len() ==> is_ident_char(#[trigger] s[j]) || s[j] == '.',
    ensures
        pre_end(s, i) == s.len(),
    decreases s.len() - i,
{
    if i < s.len() {
        lemma_pre_end_at(s, i + 1);
    }
}

proof fn lemma_joined_idents(list: Seq<Seq<char>>)
    requires
        all_idents(list),
    ensures
        forall|j: int|
            0 <= j < joined(list, seq!['.']).len() ==> is_ident_char(
                #[trigger] joined(list, seq!['.'])[j],
            ) || joined(list, seq!['.'])[j] == '.',
    decreases list.len(),
{
    let s = joined(list, seq!['.']);
    if list.len() > 0 {
        lemma_all_idents_skip(list);
        lemma_joined_idents(list.skip(1));
        let rest = joined(list.skip(1), seq!['.']);
        assert forall|j: int| 0 <= j < s.len() implies is_ident_char(#[trigger] s[j]) || s[j]
            == '.' by {
            if j < list[0].len() {
                assert(s[j] == list[0][j]);
            } else if j > list[0].len() {
                assert(s[j] == rest[j - list[0].len() - 1]);
            }
        }
    }
}

/// A version, written down and read again, is the same version.
pub proof fn version_comes_back(v: FullVersionView)
    requires
        is_version(v),
    ensures
        read_full(full_text(v)) == Some(v),
{
    let s = full_text(v);
    let head = v.core.text();
    if v.pre.len() == 0 {
        lemma_core_of_text(v.core, Seq::<char>::empty());
        assert(v.pre =~= seq![]);
    } else {
        let tail = joined(v.pre, seq!['.']);
        let after = seq!['-'] + tail;
        assert(s == head + after);
        lemma_core_of_text(v.core, after);
        let end = head.len() as int;
        assert(s[end] == '-');
        lemma_joined_idents(v.pre);
        assert forall|j: int| end + 1 <= j < s.len() implies is_ident_char(#[trigger] s[j]) || s[j]
            == '.' by {
            assert(s[j] == tail[j - end - 1]);
        }
        lemma_pre_end_at(s, end + 1);
        assert(s.subrange(end + 1, s.len() as int) =~= tail);
        assert forall|i: int| 0 <= i < v.pre.len() implies !(#[trigger] v.pre[i]).contains('.') by {
            if v.pre[i].contains('.') {
                let k = choose|k: int| 0 <= k < v.pre[i].len() && v.pre[i][k] == '.';
                assert(is_ident_char(v.pre[i][k]));
            }
        }
        joined_pieces_come_back(v.pre, '.');
    }
}

/// Whatever is read out of a text is a well-formed version.
pub proof fn read_versions_are_well_formed(s: Seq<char>)
    ensures
        read_full(s) matches Some(v) ==> is_version(v),
{
}

/// The order of versions grows with each of their numbers: the first number
/// that differs decides, and pre-releases count only where all three are
/// equal.
pub proof fn versions_grow_with_their_numbers(a: FullVersionView, b: FullVersionView)
    ensures
        a.core.major < b.core.major ==> core_less(a.core, b.core) && full_less(a, b),
        a.core.major == b.core.major && a.core.minor < b.core.minor ==> core_less(a.core, b.core)
            && full_less(a, b),
        a.core.major == b.core.major && a.core.minor == b.core.minor ==> (core_less(a.core, b.core)
            <==> a.core.patch < b.core.patch),
        a.core.major == b.core.major && a.core.minor == b.core.minor && a.core.patch
            < b.core.patch ==> full_less(a, b),
        a.core.major <= b.core.major && a.core.minor <= b.core.minor && a.core.patch
            <= b.core.patch ==> !core_less(b.core, a.core),
        core_less(a.core, b.core) ==> !core_less(b.core, a.core) && full_less(a, b) && !full_less(
            b,
            a,
        ),
{
}

proof fn lemma_pre_less_behind(p: Seq<Seq<char>>, a: Seq<Seq<char>>, b: Seq<Seq<char>>)
    ensures
        pre_less(p + a, p + b) == pre_less(a, b),
    decreases p.len(),
{
    if p.len() == 0 {
        assert(p + a =~= a);
        assert(p + b =~= b);
    } else {
        lemma_pre_less_behind(p.skip(1), a, b);
        assert((p + a)[0] == (p + b)[0]);
        assert((p + a).skip(1) =~= p.skip(1) + a);
        assert((p + b).skip(1) =~= p.skip(1) + b);
    }
}

proof fn lemma_text_less_behind(p: Seq<char>, a: Seq<char>, b: Seq<char>)
    ensures
        text_less(p + a, p + b) == text_less(a, b),
    decreases p.len(),
{
    if p.len() == 0 {
        assert(p + a =~= a);
        assert(p + b =~= b);
    } else {
        lemma_text_less_behind(p.skip(1), a, b);
        assert((p + a)[0] == (p + b)[0]);
        assert((p + a).skip(1) =~= p.skip(1) + a);
        assert((p + b).skip(1) =~= p.skip(1) + b);
    }
}

/// Pre-releases are compared identifier by identifier: behind equal ones,
/// numbers count by their value and come before texts, texts go by the first
/// character that differs, and what has more identifiers comes later.
pub proof fn pre_releases_are_compared_by_their_first_difference(
    core: Version,
    p: Seq<Seq<char>>,
    m: nat,
    n: nat,
    word: Seq<char>,
    c: char,
    d: char,
    x: Seq<char>,
    y: Seq<char>,
    more: Seq<Seq<char>>,
)
    requires
        c != d,
        !is_digit(c) && !is_digit(d),
    ensures
        full_less(
            FullVersionView { core, pre: p.push(dec(m)) },
            FullVersionView { core, pre: p.push(dec(n)) },
        ) <==> m < n,
        full_less(
            FullVersionView { core, pre: p.push(dec(m)) },
            FullVersionView { core, pre: p.push(word + seq![c] + x) },
        ),
        full_less(
            FullVersionView { core, pre: p.push(word + seq![c] + x) },
            FullVersionView { core, pre: p.push(word + seq![d] + y) },
        ) <==> c < d,
        p.len() > 0 && more.len() > 0 ==> full_less(
            FullVersionView { core, pre: p },
            FullVersionView { core, pre: p + more },
        ),
{
    decimal_comes_back(m);
    decimal_comes_back(n);
    let u = word + seq![c] + x;
    let v = word + seq![d] + y;
    assert(p.push(dec(m)) =~= p + seq![dec(m)]);
    assert(p.push(dec(n)) =~= p + seq![dec(n)]);
    assert(p.push(u) =~= p + seq![u]);
    assert(p.push(v) =~= p + seq![v]);
    lemma_pre_less_behind(p, seq![dec(m)], seq![dec(n)]);
    lemma_pre_less_behind(p, seq![dec(m)], seq![u]);
    lemma_pre_less_behind(p, seq![u], seq![v]);
    assert(u[word.len() as int] == c);
    assert(v[word.len() as int] == d);
    assert(!all_digits(u));
    assert(!all_digits(v));
    assert(u =~= word + (seq![c] + x));
    assert(v =~= word + (seq![d] + y));
    lemma_text_less_behind(word, seq![c] + x, seq![d] + y);
    assert((seq![c] + x)[0] == c);
    assert((seq![d] + y)[0] == d);
    reveal_with_fuel(pre_less, 2);
    assert(seq![dec(m)].skip(1) =~= seq![]);
    assert(seq![dec(n)].skip(1) =~= seq![]);
    if dec(m) == dec(n) {
        assert(m == n);
    }
    if p.len() > 0 && more.len() > 0 {
        lemma_pre_less_behind(p, seq![], more);
        assert(p + Seq::<Seq<char>>::empty() =~= p);
    }
}

proof fn lemma_first_core_behind(before: Seq<char>, s: Seq<char>, i: int)
    requires
        0 <= i <= before.len(),
        forall|j: int| 0 <= j < before.len() ==> !is_digit(#[trigger] before[j]),
        first_core(s, 0) is Some,
        core_at(s, 0) is Some,
    ensures
        first_core(before + s, i) == core_at(before + s, before.len() as int) || core_at(
            before + s,
            before.len() as int,
        ) is None,
    decreases before.len() - i,
{
    let t = before + s;
    if i < before.len() {
        assert(t[i] == before[i]);
        assert(digits_end(t, i) == i);
        assert(core_at(t, i) is None);
        lemma_first_core_behind(before, s, i + 1);
    } else if t.len() == i {
        assert(s.len() == 0);
    }
}

proof fn lemma_digits_end_behind(before: Seq<char>, s: Seq<char>, i: int)
    requires
        0 <= i <= s.len(),
    ensures
        digits_end(before + s, before.len() + i) == before.len() + digits_end(s, i),
    decreases s.len() - i,
{
    let t = before + s;
    if i < s.len() {
        assert(t[before.len() + i] == s[i]);
        if is_digit(s[i]) {
            lemma_digits_end_behind(before, s, i + 1);
        }
    }
}

proof fn lemma_number_behind(before: Seq<char>, s: Seq<char>, i: int)
    requires
        0 <= i <= s.len(),
    ensures
        number_at(before + s, before.len() + i) == (match number_at(s, i) {
            Some((n, end)) => Some((n, before.len() + end)),
            None => None,
        }),
        number_at(s, i) matches Some((n, end)) ==> i < end <= s.len(),
{
    lemma_digits_end_behind(before, s, i);
    lemma_digits_end(s, i);
    let end = digits_end(s, i);
    assert((before + s).subrange(before.len() + i, before.len() + end) =~= s.subrange(i, end));
}

proof fn lemma_pre_end_behind(before: Seq<char>, s: Seq<char>, i: int)
    requires
        0 <= i <= s.len(),
    ensures
        pre_end(before + s, before.len() + i) == before.len() + pre_end(s, i),
    decreases s.len() - i,
{
    let t = before + s;
    if i < s.len() {
        assert(t[before.len() + i] == s[i]);
        if is_ident_char(s[i]) || s[i] == '.' {
            lemma_pre_end_behind(before, s, i + 1);
        }
    }
}

/// Text without digits in front of a version does not matter, as in `v24.15.0`:
/// what is read is what would be read without it.
pub proof fn words_in_front_of_a_version_do_not_matter(before: Seq<char>, s: Seq<char>)
    requires
        forall|j: int| 0 <= j < before.len() ==> !is_digit(#[trigger] before[j]),
        core_at(s, 0) is Some,
    ensures
        read_full(before + s) == read_full(s),
        read_core(before + s) == read_core(s),
{
    let t = before + s;
    let n = before.len() as int;
    lemma_digits_end(s, 0);
    assert(s.len() > 0);
    lemma_number_behind(before, s, 0);
    let a = number_at(s, 0)->0;
    assert(t[n + a.1] == s[a.1]);
    lemma_number_behind(before, s, a.1 + 1);
    let b = number_at(s, a.1 + 1)->0;
    assert(t[n + b.1] == s[b.1]);
    lemma_number_behind(before, s, b.1 + 1);
    let c = number_at(s, b.1 + 1)->0;
    if n > 0 {
        assert(t[n - 1] == before[n - 1]);
    }
    let found = core_at(s, 0)->0;
    assert(core_at(t, n) == Some((found.0, n + c.1)));
    lemma_first_core_behind(before, s, 0);
    assert(first_core(t, 0) == core_at(t, n));
    assert(first_core(s, 0) == core_at(s, 0));
    if c.1 < s.len() {
        assert(t[n + c.1] == s[c.1]);
        if s[c.1] == '-' {
            lemma_pre_end(s, c.1 + 1);
            lemma_pre_end_behind(before, s, c.1 + 1);
            let e = pre_end(s, c.1 + 1);
            assert(t.subrange(n + c.1 + 1, n + e) =~= s.subrange(c.1 + 1, e));
        }
    }
}

proof fn lemma_pre_end_before(s: Seq<char>, after: Seq<char>, i: int)
    requires
        0 <= i <= s.len(),
        forall|j: int| i <= j < s.len() ==> is_ident_char(#[trigger] s[j]) || s[j] == '.',
        after.len() > 0 ==> !is_ident_char(after[0]) && after[0] != '.',
    ensures
        pre_end(s + after, i) == s.len(),
    decreases s.len() - i,
{
    let t = s + after;
    if i < s.len() {
        assert(t[i] == s[i]);
        lemma_pre_end_before(s, after, i + 1);
    } else if after.len() > 0 {
        assert(t[i] == after[0]);
    }
}

/// A version is found in what a tool prints: words without digits in front of
/// it, and anything behind it that cannot belong to a version, do not change
/// what is read.
pub proof fn versions_are_found_in_output(before: Seq<char>, v: FullVersionView, after: Seq<char>)
    requires
        is_version(v),
        forall|j: int| 0 <= j < before.len() ==> !is_digit(#[trigger] before[j]),
        after.len() > 0 ==> !is_ident_char(after[0]) && after[0] != '.',
    ensures
        read_full(before + (full_text(v) + after)) == Some(v),
        read_core(before + (full_text(v) + after)) == Some(v.core),
{
    let head = v.core.text();
    let s = full_text(v) + after;
    let n = head.len() as int;
    if v.pre.len() == 0 {
        assert(s =~= head + after);
        lemma_core_of_text(v.core, after);
        if after.len() > 0 {
            assert(s[n] == after[0]);
        }
        assert(read_full(s) == Some(FullVersionView { core: v.core, pre: seq![] }));
        assert(v.pre =~= seq![]);
    } else {
        let tail = joined(v.pre, seq!['.']);
        let rest = seq!['-'] + tail;
        let whole = full_text(v);
        assert(whole =~= head + rest);
        assert(s =~= head + (rest + after));
        lemma_core_of_text(v.core, rest + after);
        assert(s[n] == '-');
        lemma_joined_idents(v.pre);
        assert forall|j: int| n + 1 <= j < whole.len() implies is_ident_char(#[trigger] whole[j])
            || whole[j] == '.' by {
            assert(whole[j] == tail[j - n - 1]);
        }
        lemma_pre_end_before(whole, after, n + 1);
        assert(s.subrange(n + 1, whole.len() as int) =~= tail);
        assert forall|i: int| 0 <= i < v.pre.len() implies !(#[trigger] v.pre[i]).contains('.') by {
            if v.pre[i].contains('.') {
                let k = choose|k: int| 0 <= k < v.pre[i].len() && v.pre[i][k] == '.';
                assert(is_ident_char(v.pre[i][k]));
            }
        }
        joined_pieces_come_back(v.pre, '.');
    }
    decimal_comes_back(v.core.major as nat);
    assert(core_at(s, 0) is Some) by {
        lemma_version_starts(v, after);
    }
    words_in_front_of_a_version_do_not_matter(before, s);
}

proof fn lemma_version_starts(v: FullVersionView, after: Seq<char>)
    requires
        after.len() > 0 ==> !is_ident_char(after[0]) && after[0] != '.',
    ensures
        core_at(full_text(v) + after, 0) is Some,
{
    let head = v.core.text();
    let s = full_text(v) + after;
    let rest = if v.pre.len() == 0 {
        after
    } else {
        seq!['-'] + joined(v.pre, seq!['.']) + after
    };
    assert(s =~= head + rest);
    let a = dec(v.core.major as nat);
    let b = dec(v.core.minor as nat);
    let c = dec(v.core.patch as nat);
    let dot = seq!['.'];
    lemma_number_of_dec(v.core.major, Seq::<char>::empty(), dot + b + dot + c + rest);
    lemma_number_of_dec(v.core.minor, a + dot, dot + c + rest);
    lemma_number_of_dec(v.core.patch, a + dot + b + dot, rest);
    assert(s =~= Seq::<char>::empty() + a + (dot + b + dot + c + rest));
    assert(s =~= (a + dot) + b + (dot + c + rest));
    assert(s =~= (a + dot + b + dot) + c + rest);
    assert(s[a.len() as int] == '.');
    assert(s[(a.len() + 1 + b.len()) as int] == '.');
}

} // verus!
