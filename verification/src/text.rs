//! Text as sequences of characters.

use vstd::prelude::*;
use vstd::string::*;

verus! {

/// `String::push` of std appends one character.
pub assume_specification[ String::push ](s: &mut String, c: char)
    ensures
        final(s)@ == old(s)@.push(c),
;

/// The contents of a list of strings.
pub open spec fn views(list: Seq<String>) -> Seq<Seq<char>> {
    list.map_values(|s: String| s@)
}

/// Appends copies of all texts of a list to another.
pub fn extend(list: &mut Vec<String>, more: &Vec<String>)
    ensures
        views(final(list)@) == views(old(list)@) + views(more@),
{
    let ghost all = views(more@);
    let mut i: usize = 0;
    assert(views(list@) =~= views(old(list)@) + all.take(0));
    while i < more.len()
        invariant
            0 <= i <= more@.len(),
            all == views(more@),
            views(list@) == views(old(list)@) + all.take(i as int),
        decreases more@.len() - i,
    {
        let ghost before = list@;
        let copy = more[i].clone();
        list.push(copy);
        assert(views(list@) =~= views(before).push(copy@));
        assert(all[i as int] == copy@);
        i += 1;
        assert(views(list@) =~= views(old(list)@) + all.take(i as int));
    }
    assert(all.take(i as int) =~= all);
}

/// The content of an optional string.
pub open spec fn opt_view(s: Option<String>) -> Option<Seq<char>> {
    match s {
        Some(s) => Some(s@),
        None => None,
    }
}

/// The characters with the Unicode property `White_Space`.
pub open spec fn is_white(c: char) -> bool {
    let n = c as u32;
    ||| 0x9 <= n <= 0xd
    ||| n == 0x20
    ||| n == 0x85
    ||| n == 0xa0
    ||| n == 0x1680
    ||| 0x2000 <= n <= 0x200a
    ||| n == 0x2028
    ||| n == 0x2029
    ||| n == 0x202f
    ||| n == 0x205f
    ||| n == 0x3000
}

/// Whether `c` is white space.
pub fn is_whitespace(c: char) -> (r: bool)
    ensures
        r == is_white(c),
{
    let n: u32 = c as u32;
    (0x9 <= n && n <= 0xd) || n == 0x20 || n == 0x85 || n == 0xa0 || n == 0x1680 || (0x2000 <= n
        && n <= 0x200a) || n == 0x2028 || n == 0x2029 || n == 0x202f || n == 0x205f || n == 0x3000
}

/// The decimal digits.
pub open spec fn is_digit(c: char) -> bool {
    '0' <= c && c <= '9'
}

/// The characters of a text, as a vector.
pub fn chars_of(s: &str) -> (r: Vec<char>)
    ensures
        r@ == s@,
{
    let mut out: Vec<char> = Vec::new();
    for c in iter: s.chars()
        invariant
            out@ == s@.subrange(0, iter.index() as int),
            iter.seq() == s@,
    {
        out.push(c);
    }
    assert(out@ =~= s@);
    out
}

/// The text made of the characters `from..to` of a vector.
pub fn slice_of(v: &Vec<char>, from: usize, to: usize) -> (r: String)
    requires
        from <= to <= v@.len(),
    ensures
        r@ == v@.subrange(from as int, to as int),
{
    let mut out = String::new();
    let mut i: usize = from;
    while i < to
        invariant
            from <= i <= to <= v@.len(),
            out@ == v@.subrange(from as int, i as int),
        decreases to - i,
    {
        out.push(v[i]);
        i += 1;
        assert(out@ =~= v@.subrange(from as int, i as int));
    }
    out
}

/// Whether two texts are the same.
pub fn same(a: &str, b: &str) -> (r: bool)
    ensures
        r == (a@ == b@),
{
    a.to_owned() == b.to_owned()
}

/// The decimal digit for a number below ten.
pub open spec fn digit_char(d: nat) -> char {
    ('0' as nat + d) as char
}

/// A number written in decimal digits, without leading zeros.
pub open spec fn dec(n: nat) -> Seq<char>
    decreases n,
{
    if n < 10 {
        seq![digit_char(n)]
    } else {
        dec(n / 10).push(digit_char(n % 10))
    }
}

/// The number that a run of decimal digits stands for.
pub open spec fn dec_value(s: Seq<char>) -> nat
    decreases s.len(),
{
    if s.len() == 0 {
        0
    } else {
        10 * dec_value(s.drop_last()) + (s.last() as nat - '0' as nat) as nat
    }
}

/// Whether a text consists of decimal digits.
pub open spec fn all_digits(s: Seq<char>) -> bool {
    forall|i: int| 0 <= i < s.len() ==> is_digit(#[trigger] s[i])
}

/// A number, written down and read again, is the same number.
pub proof fn decimal_comes_back(n: nat)
    ensures
        dec_value(dec(n)) == n,
        dec(n).len() > 0,
        all_digits(dec(n)),
        n > 0 ==> dec(n)[0] != '0',
        n == 0 ==> dec(n) == seq!['0'],
    decreases n,
{
    if n < 10 {
        assert(dec(n).drop_last() =~= seq![]);
        assert(dec_value(dec(n).drop_last()) == 0);
    } else {
        decimal_comes_back(n / 10);
        assert(dec(n).drop_last() =~= dec(n / 10));
    }
}

/// A number in decimal digits.
pub fn decimal(n: u64) -> (r: String)
    ensures
        r@ == dec(n as nat),
    decreases n,
{
    let d: u8 = (n % 10) as u8;
    let c = (48u8 + d) as char;
    if n < 10 {
        let mut s = String::new();
        s.push(c);
        assert(s@ =~= dec(n as nat));
        s
    } else {
        let mut s = decimal(n / 10);
        s.push(c);
        s
    }
}

/// The first position from `from` on that holds `c`, or the length of `s`.
pub open spec fn find_char(s: Seq<char>, c: char, from: int) -> int
    decreases s.len() - from,
{
    if from < 0 || from >= s.len() {
        s.len() as int
    } else if s[from] == c {
        from
    } else {
        find_char(s, c, from + 1)
    }
}

/// What `find_char` finds: the first place, or none.
pub proof fn lemma_find_char(s: Seq<char>, c: char, from: int)
    requires
        0 <= from <= s.len(),
    ensures
        from <= find_char(s, c, from) <= s.len(),
        find_char(s, c, from) < s.len() ==> s[find_char(s, c, from)] == c,
        forall|i: int| from <= i < find_char(s, c, from) ==> s[i] != c,
    decreases s.len() - from,
{
    if from < s.len() && s[from] != c {
        lemma_find_char(s, c, from + 1);
    }
}

/// The pieces of a text between the separators `sep`.
pub open spec fn split_on(s: Seq<char>, sep: char) -> Seq<Seq<char>>
    decreases s.len(),
    via split_on_terminates
{
    let i = find_char(s, sep, 0);
    if i >= s.len() {
        seq![s]
    } else {
        seq![s.take(i)] + split_on(s.skip(i + 1), sep)
    }
}

#[via_fn]
proof fn split_on_terminates(s: Seq<char>, sep: char) {
    lemma_find_char(s, sep, 0);
}

/// Pieces put together with a separator between them.
pub open spec fn joined(list: Seq<Seq<char>>, sep: Seq<char>) -> Seq<char>
    decreases list.len(),
{
    if list.len() == 0 {
        seq![]
    } else if list.len() == 1 {
        list[0]
    } else {
        list[0] + sep + joined(list.skip(1), sep)
    }
}

/// Pieces without the separator that are joined by it are split into the same
/// pieces again.
pub proof fn joined_pieces_come_back(list: Seq<Seq<char>>, sep: char)
    requires
        list.len() > 0,
        forall|i: int| 0 <= i < list.len() ==> !(#[trigger] list[i]).contains(sep),
    ensures
        split_on(joined(list, seq![sep]), sep) == list,
    decreases list.len(),
{
    let s = joined(list, seq![sep]);
    lemma_find_char(s, sep, 0);
    let at = find_char(s, sep, 0);
    if list.len() == 1 {
        assert(at == s.len()) by {
            if at < s.len() {
                assert(list[0].contains(s[at]));
            }
        }
        assert(list =~= seq![list[0]]);
    } else {
        let rest = joined(list.skip(1), seq![sep]);
        assert(s == list[0] + seq![sep] + rest);
        assert(s[list[0].len() as int] == sep);
        assert(at == list[0].len()) by {
            if at < list[0].len() {
                assert(list[0][at] == sep);
                assert(list[0].contains(sep));
            }
        }
        assert(s.take(at) =~= list[0]);
        assert(s.skip(at + 1) =~= rest);
        assert forall|i: int| 0 <= i < list.skip(1).len() implies !(
        #[trigger] list.skip(1)[i]).contains(sep) by {
            assert(list.skip(1)[i] == list[i + 1]);
        }
        joined_pieces_come_back(list.skip(1), sep);
        assert(list =~= seq![list[0]] + list.skip(1));
    }
}

/// The pieces of a text between the separators `sep`.
pub fn split(s: &str, sep: char) -> (r: Vec<String>)
    ensures
        views(r@) == split_on(s@, sep),
{
    let v = chars_of(s);
    let mut out: Vec<String> = Vec::new();
    let mut start: usize = 0;
    let mut i: usize = 0;
    assert(v@.skip(0) =~= v@);
    assert(views(out@) + split_on(v@, sep) =~= split_on(v@, sep));
    while i < v.len()
        invariant
            start <= i <= v@.len(),
            v@ == s@,
            find_char(v@.skip(start as int), sep, 0) == find_char(
                v@.skip(start as int),
                sep,
                i - start,
            ),
            views(out@) + split_on(v@.skip(start as int), sep) == split_on(s@, sep),
        decreases v@.len() - i,
    {
        let ghost here = v@.skip(start as int);
        assert(here[i - start] == v@[i as int]);
        if v[i] == sep {
            let ghost before = out@;
            let part = slice_of(&v, start, i);
            assert(part@ =~= here.take(i - start));
            out.push(part);
            assert(here.skip(i - start + 1) =~= v@.skip(i + 1));
            assert(views(out@) =~= views(before).push(part@));
            assert(views(out@) + split_on(v@.skip(i + 1), sep) =~= views(before) + split_on(
                here,
                sep,
            ));
            start = i + 1;
        }
        i += 1;
    }
    let ghost before = out@;
    let ghost here = v@.skip(start as int);
    let part = slice_of(&v, start, v.len());
    assert(part@ =~= here);
    out.push(part);
    assert(views(out@) =~= views(before) + seq![here]);
    out
}

/// Texts put together with a separator between them.
pub fn join_all(list: &Vec<String>, sep: &str) -> (r: String)
    ensures
        r@ == joined(views(list@), sep@),
{
    let ghost all = views(list@);
    if list.len() == 0 {
        return String::new();
    }
    let mut out = list[0].clone();
    let mut i: usize = 1;
    assert(all.skip(0) =~= all);
    while i < list.len()
        invariant
            1 <= i <= list@.len(),
            all == views(list@),
            i < list@.len() ==> out@ + sep@ + joined(all.skip(i as int), sep@) == joined(all, sep@),
            i == list@.len() ==> out@ == joined(all, sep@),
        decreases list@.len() - i,
    {
        let ghost before = out@;
        let ghost rest = all.skip(i as int);
        assert(rest[0] == list@[i as int]@);
        assert(rest.skip(1) =~= all.skip(i + 1));
        out.append(sep);
        out.append(list[i].as_str());
        i += 1;
        if i < list.len() {
            assert(out@ + sep@ + joined(all.skip(i as int), sep@) =~= before + sep@ + joined(
                rest,
                sep@,
            ));
        } else {
            assert(out@ =~= before + sep@ + joined(rest, sep@));
        }
    }
    out
}

// ---- white space and lines -----------------------------------------------

/// A text without the white space at its start.
pub open spec fn trimmed_start(s: Seq<char>) -> Seq<char>
    decreases s.len(),
{
    if s.len() > 0 && is_white(s[0]) {
        trimmed_start(s.skip(1))
    } else {
        s
    }
}

/// A text without the white space at its end.
pub open spec fn trimmed_end(s: Seq<char>) -> Seq<char>
    decreases s.len(),
{
    if s.len() > 0 && is_white(s.last()) {
        trimmed_end(s.drop_last())
    } else {
        s
    }
}

/// A text without the white space at both ends.
pub open spec fn trimmed(s: Seq<char>) -> Seq<char> {
    trimmed_end(trimmed_start(s))
}

fn start_of_text(v: &Vec<char>) -> (r: usize)
    ensures
        r <= v@.len(),
        v@.skip(r as int) == trimmed_start(v@),
{
    let mut i: usize = 0;
    assert(v@.skip(0) =~= v@);
    while i < v.len() && is_whitespace(v[i])
        invariant
            0 <= i <= v@.len(),
            trimmed_start(v@) == trimmed_start(v@.skip(i as int)),
        decreases v@.len() - i,
    {
        assert(v@.skip(i as int).skip(1) =~= v@.skip(i + 1));
        i += 1;
    }
    i
}

fn end_of_text(v: &Vec<char>, from: usize) -> (r: usize)
    requires
        from <= v@.len(),
    ensures
        from <= r <= v@.len(),
        v@.subrange(from as int, r as int) == trimmed_end(v@.skip(from as int)),
{
    let mut i: usize = v.len();
    assert(v@.subrange(from as int, i as int) =~= v@.skip(from as int));
    while i > from && is_whitespace(v[i - 1])
        invariant
            from <= i <= v@.len(),
            trimmed_end(v@.skip(from as int)) == trimmed_end(
                v@.subrange(from as int, i as int),
            ),
        decreases i,
    {
        assert(v@.subrange(from as int, i as int).drop_last() =~= v@.subrange(
            from as int,
            i - 1,
        ));
        i -= 1;
    }
    i
}

/// A text without the white space at both ends.
pub fn trim(s: &str) -> (r: String)
    ensures
        r@ == trimmed(s@),
{
    let v = chars_of(s);
    let from: usize = start_of_text(&v);
    let to: usize = end_of_text(&v, from);
    slice_of(&v, from, to)
}

/// A text without the white space at its end.
pub fn trim_end(s: &str) -> (r: String)
    ensures
        r@ == trimmed_end(s@),
{
    let v = chars_of(s);
    assert(v@.skip(0) =~= v@);
    let to: usize = end_of_text(&v, 0);
    slice_of(&v, 0, to)
}

/// A line without the carriage return at its end.
pub open spec fn without_cr(line: Seq<char>) -> Seq<char> {
    if line.len() > 0 && line.last() == '\r' {
        line.drop_last()
    } else {
        line
    }
}

/// The lines of a text. A line feed at the very end starts no further line.
pub open spec fn lines_of(s: Seq<char>) -> Seq<Seq<char>> {
    let parts = split_on(s, '\n');
    let rows = if parts.last().len() == 0 {
        parts.drop_last()
    } else {
        parts
    };
    rows.map_values(|l: Seq<char>| without_cr(l))
}

proof fn lemma_split_on_len(s: Seq<char>, sep: char)
    ensures
        split_on(s, sep).len() > 0,
    decreases s.len(),
{
    lemma_find_char(s, sep, 0);
}

/// The lines of a text.
pub fn lines(s: &str) -> (r: Vec<String>)
    ensures
        views(r@) == lines_of(s@),
{
    let parts = split(s, '\n');
    let ghost all = split_on(s@, '\n');
    proof {
        lemma_split_on_len(s@, '\n');
    }
    let last: usize = parts.len() - 1;
    assert(all.last() == parts@[last as int]@);
    let count: usize = if parts[last].as_str().is_empty() {
        last
    } else {
        last + 1
    };
    let ghost rows = if all.last().len() == 0 {
        all.drop_last()
    } else {
        all
    };
    let ghost want = rows.map_values(|l: Seq<char>| without_cr(l));
    let mut out: Vec<String> = Vec::new();
    let mut i: usize = 0;
    while i < count
        invariant
            0 <= i <= count <= parts@.len(),
            rows.len() == count,
            forall|j: int| 0 <= j < count ==> #[trigger] rows[j] == parts@[j]@,
            want == rows.map_values(|l: Seq<char>| without_cr(l)),
            views(out@) == want.take(i as int),
        decreases count - i,
    {
        let ghost before = out@;
        assert(rows[i as int] == parts@[i as int]@);
        let v = chars_of(parts[i].as_str());
        let n: usize = if v.len() > 0 && v[v.len() - 1] == '\r' {
            v.len() - 1
        } else {
            v.len()
        };
        let line = slice_of(&v, 0, n);
        assert(line@ =~= without_cr(rows[i as int]));
        out.push(line);
        i += 1;
        assert(views(out@) =~= views(before).push(line@));
        assert(views(out@) =~= want.take(i as int));
    }
    assert(want.take(i as int) =~= want);
    out
}

// ---- numbers -------------------------------------------------------------

/// The digits of a number without its plus sign.
pub open spec fn unsigned_digits(s: Seq<char>) -> Seq<char> {
    if s.len() > 0 && s[0] == '+' {
        s.skip(1)
    } else {
        s
    }
}

/// The `u32` that a text consists of: decimal digits, a plus sign before them
/// allowed.
pub open spec fn read_u32(s: Seq<char>) -> Option<u32> {
    let d = unsigned_digits(s);
    if d.len() > 0 && all_digits(d) && dec_value(d) <= u32::MAX {
        Some(dec_value(d) as u32)
    } else {
        None
    }
}

proof fn lemma_dec_value_prefix(s: Seq<char>, i: int)
    requires
        0 <= i <= s.len(),
    ensures
        dec_value(s.take(i)) <= dec_value(s),
    decreases s.len() - i,
{
    if i < s.len() {
        lemma_dec_value_prefix(s, i + 1);
        assert(s.take(i + 1).drop_last() =~= s.take(i));
    } else {
        assert(s.take(i) =~= s);
    }
}

/// Reads a `u32`.
pub fn parse_u32(s: &str) -> (r: Option<u32>)
    ensures
        r == read_u32(s@),
{
    let v = chars_of(s);
    let from: usize = if v.len() > 0 && v[0] == '+' {
        1
    } else {
        0
    };
    let ghost d = unsigned_digits(s@);
    assert(d =~= v@.skip(from as int));
    if v.len() == from {
        return None;
    }
    let mut n: u32 = 0;
    let mut i: usize = from;
    assert(d.take(0) =~= seq![]);
    while i < v.len()
        invariant
            from <= i <= v@.len(),
            d == v@.skip(from as int),
            d == unsigned_digits(s@),
            d.len() > 0,
            n == dec_value(d.take(i - from)),
            forall|j: int| 0 <= j < i - from ==> is_digit(#[trigger] d[j]),
        decreases v@.len() - i,
    {
        let c = v[i];
        assert(d[i - from] == c);
        if !('0' <= c && c <= '9') {
            assert(!is_digit(d[i - from]));
            return None;
        }
        let k: u32 = c as u32 - 48;
        proof {
            assert(d.take(i - from + 1).drop_last() =~= d.take(i - from));
            lemma_dec_value_prefix(d, i - from + 1);
        }
        match n.checked_mul(10) {
            None => {
                return None;
            },
            Some(m) => match m.checked_add(k) {
                None => {
                    return None;
                },
                Some(x) => {
                    n = x;
                },
            },
        }
        i += 1;
    }
    assert(d.take(i - from) =~= d);
    Some(n)
}

// ---- searching -----------------------------------------------------------

/// Whether `needle` stands in `s` at position `i`.
pub open spec fn occurs_at(s: Seq<char>, needle: Seq<char>, i: int) -> bool {
    0 <= i && i + needle.len() <= s.len() && s.subrange(i, i + needle.len()) == needle
}

/// The first position from `from` on at which `needle` stands in `s`.
pub open spec fn find_text(s: Seq<char>, needle: Seq<char>, from: int) -> Option<int>
    decreases s.len() + 1 - from,
{
    if from < 0 || from + needle.len() > s.len() {
        None
    } else if occurs_at(s, needle, from) {
        Some(from)
    } else {
        find_text(s, needle, from + 1)
    }
}

fn matches_at(s: &Vec<char>, needle: &Vec<char>, i: usize) -> (r: bool)
    requires
        i + needle@.len() <= s@.len(),
    ensures
        r == occurs_at(s@, needle@, i as int),
{
    let mut j: usize = 0;
    while j < needle.len()
        invariant
            0 <= j <= needle.len(),
            i + needle.len() <= s.len(),
            forall|k: int| 0 <= k < j ==> s@[i + k] == #[trigger] needle@[k],
        decreases needle@.len() - j,
    {
        if s[i + j] != needle[j] {
            assert(s@.subrange(i as int, i + needle@.len())[j as int] != needle@[j as int]);
            return false;
        }
        j += 1;
    }
    assert(s@.subrange(i as int, i + needle@.len()) =~= needle@);
    true
}

/// The first position at which `needle` stands in `s`.
pub fn find(s: &Vec<char>, needle: &Vec<char>) -> (r: Option<usize>)
    ensures
        match r {
            Some(i) => find_text(s@, needle@, 0) == Some(i as int) && i + needle@.len() <= s@.len(),
            None => find_text(s@, needle@, 0) is None,
        },
{
    if needle.len() > s.len() {
        return None;
    }
    let last: usize = s.len() - needle.len();
    let mut i: usize = 0;
    while i < last
        invariant
            0 <= i <= last,
            last + needle@.len() == s@.len(),
            find_text(s@, needle@, 0) == find_text(s@, needle@, i as int),
        decreases last - i,
    {
        if matches_at(s, needle, i) {
            return Some(i);
        }
        i += 1;
    }
    if matches_at(s, needle, i) {
        Some(i)
    } else {
        assert(find_text(s@, needle@, i + 1) is None);
        None
    }
}

/// The first position from `from` on that holds `c`, or the length.
pub fn find_in(v: &Vec<char>, c: char, from: usize) -> (r: usize)
    requires
        from <= v@.len(),
    ensures
        r == find_char(v@, c, from as int),
        from <= r <= v@.len(),
{
    let mut i: usize = from;
    while i < v.len() && v[i] != c
        invariant
            from <= i <= v@.len(),
            find_char(v@, c, from as int) == find_char(v@, c, i as int),
        decreases v@.len() - i,
    {
        i += 1;
    }
    i
}

/// A text without the characters `c` at its end.
pub open spec fn trimmed_end_of(s: Seq<char>, c: char) -> Seq<char>
    decreases s.len(),
{
    if s.len() > 0 && s.last() == c {
        trimmed_end_of(s.drop_last(), c)
    } else {
        s
    }
}

/// A text without the characters `c` at its start.
pub open spec fn trimmed_start_of(s: Seq<char>, c: char) -> Seq<char>
    decreases s.len(),
{
    if s.len() > 0 && s[0] == c {
        trimmed_start_of(s.skip(1), c)
    } else {
        s
    }
}

/// A text without the characters `c` at its end.
pub fn trim_end_of(s: &str, c: char) -> (r: String)
    ensures
        r@ == trimmed_end_of(s@, c),
{
    let v = chars_of(s);
    let mut i: usize = v.len();
    assert(v@.take(i as int) =~= v@);
    while i > 0 && v[i - 1] == c
        invariant
            0 <= i <= v@.len(),
            v@ == s@,
            trimmed_end_of(s@, c) == trimmed_end_of(v@.take(i as int), c),
        decreases i,
    {
        assert(v@.take(i as int).drop_last() =~= v@.take(i - 1));
        i -= 1;
    }
    let r = slice_of(&v, 0, i);
    assert(r@ =~= v@.take(i as int));
    r
}

/// A text without the characters `c` at its start.
pub fn trim_start_of(s: &str, c: char) -> (r: String)
    ensures
        r@ == trimmed_start_of(s@, c),
{
    let v = chars_of(s);
    let mut i: usize = 0;
    assert(v@.skip(0) =~= v@);
    while i < v.len() && v[i] == c
        invariant
            0 <= i <= v@.len(),
            v@ == s@,
            trimmed_start_of(s@, c) == trimmed_start_of(v@.skip(i as int), c),
        decreases v@.len() - i,
    {
        assert(v@.skip(i as int).skip(1) =~= v@.skip(i + 1));
        i += 1;
    }
    let r = slice_of(&v, i, v.len());
    assert(r@ =~= v@.skip(i as int));
    r
}

/// A text without the white space at its start.
pub fn trim_start(s: &str) -> (r: String)
    ensures
        r@ == trimmed_start(s@),
{
    let v = chars_of(s);
    let from: usize = start_of_text(&v);
    let r = slice_of(&v, from, v.len());
    assert(r@ =~= v@.skip(from as int));
    r
}

// ---- laws ----------------------------------------------------------------

/// Whether a text consists of white space.
pub open spec fn all_white(s: Seq<char>) -> bool {
    forall|i: int| 0 <= i < s.len() ==> is_white(#[trigger] s[i])
}

/// White space in front of a text is trimmed with the white space that it
/// starts with.
pub proof fn lemma_trimmed_start_behind(before: Seq<char>, s: Seq<char>)
    requires
        all_white(before),
    ensures
        trimmed_start(before + s) == trimmed_start(s),
    decreases before.len(),
{
    if before.len() == 0 {
        assert(before + s =~= s);
    } else {
        assert((before + s)[0] == before[0]);
        assert((before + s).skip(1) =~= before.skip(1) + s);
        assert forall|i: int| 0 <= i < before.skip(1).len() implies is_white(
            #[trigger] before.skip(1)[i],
        ) by {
            assert(before.skip(1)[i] == before[i + 1]);
        }
        lemma_trimmed_start_behind(before.skip(1), s);
    }
}

proof fn lemma_trimmed_end_before(s: Seq<char>, after: Seq<char>)
    requires
        all_white(after),
    ensures
        trimmed_end(s + after) == trimmed_end(s),
    decreases after.len(),
{
    if after.len() == 0 {
        assert(s + after =~= s);
    } else {
        assert((s + after).last() == after.last());
        assert((s + after).drop_last() =~= s + after.drop_last());
        lemma_trimmed_end_before(s, after.drop_last());
    }
}

/// White space around a text is trimmed, and nothing else is: what stands
/// between it comes back whole, white space within it included.
pub proof fn white_space_around_a_text_is_trimmed(before: Seq<char>, s: Seq<char>, after: Seq<char>)
    requires
        all_white(before),
        all_white(after),
        s.len() > 0 ==> !is_white(s[0]) && !is_white(s.last()),
    ensures
        trimmed(before + s + after) == s,
        trimmed(s) == s,
        s.len() > 0 ==> trimmed_start(before + s + after) == s + after,
        trimmed_end(before + s + after) == if s.len() > 0 {
            before + s
        } else {
            seq![]
        },
{
    let t = s + after;
    assert(before + s + after =~= before + t);
    lemma_trimmed_start_behind(before, t);
    lemma_trimmed_end_before(before + s, after);
    if s.len() > 0 {
        assert(t[0] == s[0]);
        lemma_trimmed_end_before(s, after);
        assert((before + s).last() == s.last());
    } else {
        assert(t =~= after + s);
        lemma_trimmed_start_behind(after, s);
        assert(before + s =~= s + before);
        lemma_trimmed_end_before(s, before);
        assert(s =~= seq![]);
    }
}

/// What is trimmed off a text is white space, and what is left has none at its
/// ends.
pub proof fn trimming_leaves_the_inner_text(s: Seq<char>) -> (r: (Seq<char>, Seq<char>))
    ensures
        s == r.0 + trimmed(s) + r.1,
        all_white(r.0),
        all_white(r.1),
        trimmed(s).len() > 0 ==> !is_white(trimmed(s)[0]) && !is_white(trimmed(s).last()),
    decreases s.len(),
{
    if s.len() == 0 {
        (seq![], seq![])
    } else if is_white(s[0]) {
        let r = trimming_leaves_the_inner_text(s.skip(1));
        assert(s =~= seq![s[0]] + s.skip(1));
        assert(s =~= (seq![s[0]] + r.0) + trimmed(s) + r.1);
        (seq![s[0]] + r.0, r.1)
    } else if is_white(s.last()) {
        let r = trimming_leaves_the_inner_text(s.drop_last());
        assert(s.drop_last()[0] == s[0]);
        assert(s =~= s.drop_last().push(s.last()));
        assert(s =~= r.0 + trimmed(s) + (r.1.push(s.last())));
        (r.0, r.1.push(s.last()))
    } else {
        assert(s =~= Seq::<char>::empty() + s + Seq::<char>::empty());
        (seq![], seq![])
    }
}

/// Blanks, tabs and line ends are white space; no other character that can be
/// typed in ASCII is.
pub proof fn ascii_white_space(c: char)
    ensures
        is_white(' ') && is_white('\t') && is_white('\n') && is_white('\r'),
        '!' <= c && c <= '~' ==> !is_white(c),
        is_digit(c) ==> !is_white(c),
{
}

/// Characters at an end of a text are trimmed as long as they are the given
/// one.
pub proof fn only_the_given_character_is_trimmed(n: nat, c: char, s: Seq<char>)
    ensures
        s.len() > 0 && s.last() != c ==> trimmed_end_of(s + Seq::new(n, |i: int| c), c) == s,
        s.len() > 0 && s[0] != c ==> trimmed_start_of(Seq::new(n, |i: int| c) + s, c) == s,
        trimmed_end_of(Seq::new(n, |i: int| c), c) == Seq::<char>::empty(),
        trimmed_start_of(Seq::new(n, |i: int| c), c) == Seq::<char>::empty(),
    decreases n,
{
    let run = Seq::new(n, |i: int| c);
    if n == 0 {
        assert(s + run =~= s);
        assert(run + s =~= s);
        assert(run =~= seq![]);
    } else {
        let less = Seq::new((n - 1) as nat, |i: int| c);
        only_the_given_character_is_trimmed((n - 1) as nat, c, s);
        assert((s + run).last() == c);
        assert((s + run).drop_last() =~= s + less);
        assert((run + s)[0] == c);
        assert((run + s).skip(1) =~= less + s);
        assert(run.drop_last() =~= less);
        assert(run.skip(1) =~= less);
    }
}

/// The position at which a text is found is the first one at which it stands.
pub proof fn a_text_is_found_where_it_first_stands(s: Seq<char>, needle: Seq<char>, from: int)
    requires
        0 <= from,
    ensures
        find_text(s, needle, from) matches Some(i) ==> {
            &&& from <= i
            &&& i + needle.len() <= s.len()
            &&& occurs_at(s, needle, i)
            &&& forall|k: int| 0 <= k < needle.len() ==> s[i + k] == #[trigger] needle[k]
            &&& forall|j: int| from <= j < i ==> !#[trigger] occurs_at(s, needle, j)
        },
        find_text(s, needle, from) is None ==> forall|j: int|
            from <= j ==> !#[trigger] occurs_at(s, needle, j),
    decreases s.len() + 1 - from,
{
    if from + needle.len() <= s.len() {
        if occurs_at(s, needle, from) {
            let part = s.subrange(from, from + needle.len());
            assert forall|k: int| 0 <= k < needle.len() implies s[from + k] == #[trigger] needle[k] by {
                assert(part[k] == needle[k]);
            }
        } else {
            a_text_is_found_where_it_first_stands(s, needle, from + 1);
        }
    }
}

/// A number of 32 bits is read from its digits, with a plus sign or without;
/// larger ones and what is no number are not read.
pub proof fn numbers_are_read_from_their_digits(n: nat)
    ensures
        read_u32(dec(n)) == (if n <= u32::MAX {
            Some(n as u32)
        } else {
            None
        }),
        read_u32(seq!['+'] + dec(n)) == read_u32(dec(n)),
        read_u32(seq!['-'] + dec(n)) is None,
        read_u32(seq![]) is None,
{
    decimal_comes_back(n);
    assert(is_digit(dec(n)[0]));
    assert(unsigned_digits(dec(n)) == dec(n));
    assert((seq!['+'] + dec(n)).skip(1) =~= dec(n));
    assert((seq!['-'] + dec(n))[0] == '-');
    assert(!is_digit('-'));
}

/// Lines that are put together with line feeds come back as they were, with a
/// line feed at the end or without one, and a carriage return before each line
/// feed makes no difference.
pub proof fn lines_come_back(list: Seq<Seq<char>>)
    requires
        list.len() > 0,
        forall|i: int| 0 <= i < list.len() ==> !(#[trigger] list[i]).contains('\n'),
        forall|i: int| 0 <= i < list.len() ==> !(#[trigger] list[i]).contains('\r'),
    ensures
        list.last().len() > 0 ==> lines_of(joined(list, seq!['\n'])) == list,
        lines_of(joined(list.push(seq![]), seq!['\n'])) == list,
        lines_of(
            joined(list.map_values(|l: Seq<char>| l.push('\r')).push(seq![]), seq!['\n']),
        ) == list,
{
    let none = Seq::<char>::empty();
    joined_pieces_come_back(list, '\n');
    assert forall|i: int| 0 <= i < list.len() implies without_cr(#[trigger] list[i]) == list[i] by {
        if list[i].len() > 0 && list[i].last() == '\r' {
            assert(list[i][list[i].len() - 1] == '\r');
            assert(list[i].contains('\r'));
        }
    }
    let open = list.push(none);
    assert forall|i: int| 0 <= i < open.len() implies !(#[trigger] open[i]).contains('\n') by {
        if i < list.len() {
            assert(open[i] == list[i]);
        }
    }
    joined_pieces_come_back(open, '\n');
    assert(open.drop_last() =~= list);
    let ends = list.map_values(|l: Seq<char>| l.push('\r'));
    let rows = ends.push(none);
    assert forall|i: int| 0 <= i < rows.len() implies !(#[trigger] rows[i]).contains('\n') by {
        if i < list.len() {
            assert(rows[i] == list[i].push('\r'));
            if rows[i].contains('\n') {
                let k = choose|k: int| 0 <= k < rows[i].len() && rows[i][k] == '\n';
                assert(list[i][k] == '\n');
                assert(list[i].contains('\n'));
            }
        }
    }
    joined_pieces_come_back(rows, '\n');
    assert(rows.drop_last() =~= ends);
    assert forall|i: int| 0 <= i < list.len() implies without_cr(#[trigger] ends[i]) == list[i] by {
        assert(ends[i] == list[i].push('\r'));
        assert(ends[i].drop_last() =~= list[i]);
    }
    assert(lines_of(joined(open, seq!['\n'])) =~= list);
    assert(lines_of(joined(rows, seq!['\n'])) =~= list);
    if list.last().len() > 0 {
        assert(lines_of(joined(list, seq!['\n'])) =~= list);
    }
}

/// The first line of a text is what stands before its first line feed.
pub proof fn the_first_line_ends_at_the_line_feed(line: Seq<char>, rest: Seq<char>)
    requires
        !line.contains('\n'),
        !line.contains('\r'),
    ensures
        lines_of(line + seq!['\n'] + rest).len() > 0,
        lines_of(line + seq!['\n'] + rest)[0] == line,
        line.len() > 0 ==> lines_of(line) == seq![line],
{
    let s = line + seq!['\n'] + rest;
    lemma_find_char(s, '\n', 0);
    lemma_find_char(line, '\n', 0);
    assert(s[line.len() as int] == '\n');
    let at = find_char(s, '\n', 0);
    assert(at == line.len()) by {
        if at < line.len() {
            assert(line[at] == '\n');
        }
    }
    assert(s.take(at) =~= line);
    assert(s.skip(at + 1) =~= rest);
    lemma_split_on_len(rest, '\n');
    assert(split_on(s, '\n')[0] == line);
    assert(without_cr(line) == line) by {
        if line.len() > 0 && line.last() == '\r' {
            assert(line[line.len() - 1] == '\r');
        }
    }
    if line.len() > 0 {
        if find_char(line, '\n', 0) < line.len() {
            assert(line.contains('\n'));
        }
        assert(lines_of(line) =~= seq![line]);
    }
}

/// Pieces put together end with the last of them, where it is not empty.
pub proof fn lemma_joined_ends(list: Seq<Seq<char>>, sep: Seq<char>)
    requires
        list.len() > 0,
    ensures
        joined(list, sep).len() >= list.last().len(),
        list.last().len() > 0 ==> joined(list, sep).last() == list.last().last(),
    decreases list.len(),
{
    if list.len() > 1 {
        lemma_joined_ends(list.skip(1), sep);
        assert(list.skip(1).last() == list.last());
    }
}

} // verus!
