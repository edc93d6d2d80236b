//! Flag strings, split into arguments the way a shell would.
//!
//! A flag string is a run of words between blanks. A word is a run of pieces:
//! a single-quoted text, a double-quoted text, an escaped character or a plain
//! character. A quote that is never closed reaches to the end of the string.

use vstd::prelude::*;
use crate::text::{chars_of, views};

verus! {

/// The characters that separate words.
pub open spec fn is_blank(c: char) -> bool {
    c == ' ' || c == '\t' || c == '\n' || c == '\r'
}

/// The text before the first single quote of `s`, and what follows that quote.
pub open spec fn single_quoted(s: Seq<char>) -> (Seq<char>, Seq<char>)
    decreases s.len(),
{
    if s.len() == 0 {
        (seq![], seq![])
    } else if s[0] == '\'' {
        (seq![], s.skip(1))
    } else {
        let (text, rest) = single_quoted(s.skip(1));
        (seq![s[0]] + text, rest)
    }
}

/// Whether a backslash at the start of `s`, inside double quotes, escapes the
/// character behind it.
pub open spec fn escapes_next(s: Seq<char>) -> bool {
    s.len() >= 2 && s[0] == '\\' && (s[1] == '"' || s[1] == '\\')
}

/// The text before the first double quote of `s` that is not escaped, with its
/// escapes resolved, and what follows that quote.
pub open spec fn double_quoted(s: Seq<char>) -> (Seq<char>, Seq<char>)
    decreases s.len(),
{
    if s.len() == 0 {
        (seq![], seq![])
    } else if s[0] == '"' {
        (seq![], s.skip(1))
    } else if escapes_next(s) {
        let (text, rest) = double_quoted(s.skip(2));
        (seq![s[1]] + text, rest)
    } else {
        let (text, rest) = double_quoted(s.skip(1));
        (seq![s[0]] + text, rest)
    }
}

/// The first piece of a word that starts with `s`, and what follows it.
pub open spec fn piece(s: Seq<char>) -> (Seq<char>, Seq<char>) {
    if s[0] == '\'' {
        single_quoted(s.skip(1))
    } else if s[0] == '"' {
        double_quoted(s.skip(1))
    } else if s[0] == '\\' && s.len() >= 2 {
        (seq![s[1]], s.skip(2))
    } else {
        (seq![s[0]], s.skip(1))
    }
}

proof fn lemma_single_quoted_shrinks(s: Seq<char>)
    ensures
        single_quoted(s).1.len() <= s.len(),
    decreases s.len(),
{
    if s.len() > 0 && s[0] != '\'' {
        lemma_single_quoted_shrinks(s.skip(1));
    }
}

proof fn lemma_double_quoted_shrinks(s: Seq<char>)
    ensures
        double_quoted(s).1.len() <= s.len(),
    decreases s.len(),
{
    if s.len() > 0 && s[0] != '"' {
        if escapes_next(s) {
            lemma_double_quoted_shrinks(s.skip(2));
        } else {
            lemma_double_quoted_shrinks(s.skip(1));
        }
    }
}

proof fn lemma_piece_shrinks(s: Seq<char>)
    requires
        s.len() > 0,
    ensures
        piece(s).1.len() < s.len(),
{
    lemma_single_quoted_shrinks(s.skip(1));
    lemma_double_quoted_shrinks(s.skip(1));
}

/// The word that `s` starts with, and what follows it.
pub open spec fn word(s: Seq<char>) -> (Seq<char>, Seq<char>)
    decreases s.len(),
    via word_terminates
{
    if s.len() == 0 || is_blank(s[0]) {
        (seq![], s)
    } else {
        let (text, after) = piece(s);
        let (more, rest) = word(after);
        (text + more, rest)
    }
}

#[via_fn]
proof fn word_terminates(s: Seq<char>) {
    if s.len() > 0 {
        lemma_piece_shrinks(s);
    }
}

proof fn lemma_word_shrinks(s: Seq<char>)
    ensures
        word(s).1.len() <= s.len(),
        s.len() > 0 && !is_blank(s[0]) ==> word(s).1.len() < s.len(),
        word(s).1.len() > 0 ==> is_blank(word(s).1[0]),
    decreases s.len(),
{
    if s.len() > 0 && !is_blank(s[0]) {
        lemma_piece_shrinks(s);
        lemma_word_shrinks(piece(s).1);
    }
}

/// The words of a flag string.
pub open spec fn words(s: Seq<char>) -> Seq<Seq<char>>
    decreases s.len(),
    via words_terminate
{
    if s.len() == 0 {
        seq![]
    } else if is_blank(s[0]) {
        words(s.skip(1))
    } else {
        seq![word(s).0] + words(word(s).1)
    }
}

#[via_fn]
proof fn words_terminate(s: Seq<char>) {
    lemma_word_shrinks(s);
}

/// Reads a single-quoted text from position `at` on, behind its opening quote.
fn read_single(input: &Vec<char>, at: usize, out: &mut String) -> (end: usize)
    requires
        at <= input@.len(),
    ensures
        at <= end <= input@.len(),
        final(out)@ == old(out)@ + single_quoted(input@.skip(at as int)).0,
        input@.skip(end as int) == single_quoted(input@.skip(at as int)).1,
{
    let mut i: usize = at;
    while i < input.len()
        invariant
            at <= i <= input@.len(),
            out@ + single_quoted(input@.skip(i as int)).0 == old(out)@ + single_quoted(
                input@.skip(at as int),
            ).0,
            single_quoted(input@.skip(i as int)).1 == single_quoted(input@.skip(at as int)).1,
        decreases input@.len() - i,
    {
        let ghost here = input@.skip(i as int);
        assert(here.skip(1) =~= input@.skip(i + 1));
        if input[i] == '\'' {
            assert(out@ + single_quoted(here).0 =~= out@);
            return i + 1;
        }
        assert(out@ + single_quoted(here).0 =~= out@.push(here[0]) + single_quoted(here.skip(1)).0);
        out.push(input[i]);
        i += 1;
    }
    assert(out@ + single_quoted(input@.skip(i as int)).0 =~= out@);
    assert(input@.skip(i as int) =~= seq![]);
    i
}

/// Reads a double-quoted text from position `at` on, behind its opening quote.
fn read_double(input: &Vec<char>, at: usize, out: &mut String) -> (end: usize)
    requires
        at <= input@.len(),
    ensures
        at <= end <= input@.len(),
        final(out)@ == old(out)@ + double_quoted(input@.skip(at as int)).0,
        input@.skip(end as int) == double_quoted(input@.skip(at as int)).1,
{
    let mut i: usize = at;
    while i < input.len()
        invariant
            at <= i <= input@.len(),
            out@ + double_quoted(input@.skip(i as int)).0 == old(out)@ + double_quoted(
                input@.skip(at as int),
            ).0,
            double_quoted(input@.skip(i as int)).1 == double_quoted(input@.skip(at as int)).1,
        decreases input@.len() - i,
    {
        let ghost here = input@.skip(i as int);
        assert(here.skip(1) =~= input@.skip(i + 1));
        let c = input[i];
        if c == '"' {
            assert(out@ + double_quoted(here).0 =~= out@);
            return i + 1;
        }
        if c == '\\' && i + 1 < input.len() && (input[i + 1] == '"' || input[i + 1] == '\\') {
            assert(escapes_next(here));
            assert(here.skip(2) =~= input@.skip(i + 2));
            assert(out@ + double_quoted(here).0 =~= out@.push(here[1]) + double_quoted(
                here.skip(2),
            ).0);
            out.push(input[i + 1]);
            i += 2;
        } else {
            assert(!escapes_next(here));
            assert(out@ + double_quoted(here).0 =~= out@.push(here[0]) + double_quoted(
                here.skip(1),
            ).0);
            out.push(c);
            i += 1;
        }
    }
    assert(out@ + double_quoted(input@.skip(i as int)).0 =~= out@);
    assert(input@.skip(i as int) =~= seq![]);
    i
}

/// Whether `c` separates words.
fn blank(c: char) -> (r: bool)
    ensures
        r == is_blank(c),
{
    c == ' ' || c == '\t' || c == '\n' || c == '\r'
}

/// Reads the word that starts at position `at`.
fn read_word(input: &Vec<char>, at: usize) -> (r: (String, usize))
    requires
        at < input@.len(),
        !is_blank(input@[at as int]),
    ensures
        at < r.1 <= input@.len(),
        r.0@ == word(input@.skip(at as int)).0,
        input@.skip(r.1 as int) == word(input@.skip(at as int)).1,
{
    let mut out = String::new();
    let mut i: usize = at;
    assert(out@ + word(input@.skip(i as int)).0 =~= word(input@.skip(at as int)).0);
    while i < input.len() && !blank(input[i])
        invariant
            at <= i <= input@.len(),
            at < input@.len(),
            !is_blank(input@[at as int]),
            out@ + word(input@.skip(i as int)).0 == word(input@.skip(at as int)).0,
            word(input@.skip(i as int)).1 == word(input@.skip(at as int)).1,
        decreases input@.len() - i,
    {
        let ghost here = input@.skip(i as int);
        let ghost before = out@;
        assert(here.skip(1) =~= input@.skip(i + 1));
        proof {
            lemma_piece_shrinks(here);
        }
        let c = input[i];
        if c == '\'' {
            i = read_single(input, i + 1, &mut out);
        } else if c == '"' {
            i = read_double(input, i + 1, &mut out);
        } else if c == '\\' && i + 1 < input.len() {
            assert(here.skip(2) =~= input@.skip(i + 2));
            out.push(input[i + 1]);
            i += 2;
            assert(out@ =~= before + piece(here).0);
        } else {
            out.push(c);
            i += 1;
            assert(out@ =~= before + piece(here).0);
        }
        assert(out@ == before + piece(here).0);
        assert(input@.skip(i as int) == piece(here).1);
        assert(out@ + word(piece(here).1).0 =~= before + word(here).0);
    }
    assert(out@ + word(input@.skip(i as int)).0 =~= out@);
    (out, i)
}

/// Split a flag string the way a shell would (quotes and backslashes).
pub fn split_args(input: &str) -> (args: Vec<String>)
    ensures
        views(args@) == words(input@),
{
    let v = chars_of(input);
    let mut args: Vec<String> = Vec::new();
    let mut i: usize = 0;
    assert(v@.skip(0) =~= v@);
    assert(views(args@) + words(v@) =~= words(v@));
    while i < v.len()
        invariant
            0 <= i <= v@.len(),
            v@ == input@,
            views(args@) + words(v@.skip(i as int)) == words(input@),
        decreases v@.len() - i,
    {
        let ghost here = v@.skip(i as int);
        assert(here.skip(1) =~= v@.skip(i + 1));
        if blank(v[i]) {
            i += 1;
        } else {
            let ghost before = args@;
            let (w, end) = read_word(&v, i);
            args.push(w);
            i = end;
            assert(views(args@) =~= views(before).push(w@));
            assert(views(args@) + words(word(here).1) =~= views(before) + words(here));
        }
    }
    assert(views(args@) + words(v@.skip(i as int)) =~= views(args@));
    args
}

/// A text with a backslash before each double quote and each backslash.
pub open spec fn escaped(text: Seq<char>) -> Seq<char>
    decreases text.len(),
{
    if text.len() == 0 {
        seq![]
    } else if text[0] == '"' || text[0] == '\\' {
        seq!['\\', text[0]] + escaped(text.skip(1))
    } else {
        seq![text[0]] + escaped(text.skip(1))
    }
}

/// A text between double quotes.
pub open spec fn quoted(text: Seq<char>) -> Seq<char> {
    seq!['"'] + escaped(text) + seq!['"']
}

/// Words joined by one space.
pub open spec fn spaced(list: Seq<Seq<char>>) -> Seq<char>
    decreases list.len(),
{
    if list.len() == 0 {
        seq![]
    } else if list.len() == 1 {
        list[0]
    } else {
        list[0] + seq![' '] + spaced(list.skip(1))
    }
}

/// Words that mean themselves: not empty, and without blanks, quotes or
/// backslashes.
pub open spec fn is_plain(text: Seq<char>) -> bool {
    &&& text.len() > 0
    &&& forall|i: int|
        0 <= i < text.len() ==> !is_blank(#[trigger] text[i]) && text[i] != '\'' && text[i] != '"'
            && text[i] != '\\'
}

proof fn lemma_double_quoted_of_escaped(text: Seq<char>, rest: Seq<char>)
    ensures
        double_quoted(escaped(text) + seq!['"'] + rest) == (text, rest),
    decreases text.len(),
{
    let s = escaped(text) + seq!['"'] + rest;
    if text.len() == 0 {
        assert(s =~= seq!['"'] + rest);
        assert(s.skip(1) =~= rest);
        assert(text =~= seq![]);
    } else {
        let tail = escaped(text.skip(1)) + seq!['"'] + rest;
        lemma_double_quoted_of_escaped(text.skip(1), rest);
        assert(text =~= seq![text[0]] + text.skip(1));
        if text[0] == '"' || text[0] == '\\' {
            assert(s =~= seq!['\\', text[0]] + tail);
            assert(s.skip(2) =~= tail);
            assert(escapes_next(s));
        } else {
            assert(s =~= seq![text[0]] + tail);
            assert(s.skip(1) =~= tail);
        }
    }
}

proof fn lemma_word_of_quoted(text: Seq<char>, rest: Seq<char>)
    requires
        rest.len() == 0 || is_blank(rest[0]),
    ensures
        word(quoted(text) + rest) == (text, rest),
{
    let s = quoted(text) + rest;
    lemma_double_quoted_of_escaped(text, rest);
    assert(s.skip(1) =~= escaped(text) + seq!['"'] + rest);
    assert(piece(s) == (text, rest));
    assert(word(rest) == (Seq::<char>::empty(), rest));
    assert(text + seq![] =~= text);
}

proof fn lemma_word_of_plain(text: Seq<char>, rest: Seq<char>)
    requires
        text.len() == 0 || is_plain(text),
        rest.len() == 0 || is_blank(rest[0]),
    ensures
        word(text + rest) == (text, rest),
    decreases text.len(),
{
    let s = text + rest;
    if text.len() == 0 {
        assert(s =~= rest);
        assert(text =~= seq![]);
    } else {
        assert(text[0] == s[0]);
        assert(text.skip(1).len() > 0 ==> is_plain(text.skip(1))) by {
            assert forall|i: int| 0 <= i < text.skip(1).len() implies !is_blank(
                #[trigger] text.skip(1)[i],
            ) && text.skip(1)[i] != '\'' && text.skip(1)[i] != '"' && text.skip(1)[i] != '\\' by {
                assert(text.skip(1)[i] == text[i + 1]);
            }
        }
        lemma_word_of_plain(text.skip(1), rest);
        assert(s.skip(1) =~= text.skip(1) + rest);
        assert(piece(s) == (seq![text[0]], text.skip(1) + rest));
        assert(text =~= seq![text[0]] + text.skip(1));
    }
}

/// Every list of arguments can be written as a flag string: quoted one by one
/// and joined by spaces, they are split into the same list again.
pub proof fn quoted_arguments_come_back(list: Seq<Seq<char>>)
    ensures
        words(spaced(list.map_values(|w: Seq<char>| quoted(w)))) == list,
    decreases list.len(),
{
    let q = list.map_values(|w: Seq<char>| quoted(w));
    if list.len() == 0 {
        assert(words(spaced(q)) =~= list);
    } else {
        let rest = if list.len() == 1 {
            Seq::<char>::empty()
        } else {
            seq![' '] + spaced(q.skip(1))
        };
        assert(spaced(q) =~= quoted(list[0]) + rest);
        lemma_word_of_quoted(list[0], rest);
        quoted_arguments_come_back(list.skip(1));
        assert(list.skip(1).map_values(|w: Seq<char>| quoted(w)) =~= q.skip(1));
        if list.len() > 1 {
            assert(rest.skip(1) =~= spaced(q.skip(1)));
        } else {
            assert(list.skip(1) =~= seq![]);
        }
        assert(words(rest) == list.skip(1));
        assert(list =~= seq![list[0]] + list.skip(1));
    }
}

/// A text between single quotes.
pub open spec fn single_quotes(text: Seq<char>) -> Seq<char> {
    seq!['\''] + text + seq!['\'']
}

proof fn lemma_single_quoted_of_text(text: Seq<char>, rest: Seq<char>)
    requires
        !text.contains('\''),
    ensures
        single_quoted(text + seq!['\''] + rest) == (text, rest),
    decreases text.len(),
{
    let s = text + seq!['\''] + rest;
    if text.len() == 0 {
        assert(s.skip(1) =~= rest);
        assert(text =~= seq![]);
    } else {
        assert(s[0] == text[0] && text.contains(text[0]));
        assert forall|c: char| text.skip(1).contains(c) implies text.contains(c) by {
            let i = choose|i: int| 0 <= i < text.skip(1).len() && text.skip(1)[i] == c;
            assert(text[i + 1] == c);
        }
        lemma_single_quoted_of_text(text.skip(1), rest);
        assert(s.skip(1) =~= text.skip(1) + seq!['\''] + rest);
        assert(text =~= seq![text[0]] + text.skip(1));
    }
}

proof fn lemma_word_of_single_quotes(text: Seq<char>, rest: Seq<char>)
    requires
        !text.contains('\''),
        rest.len() == 0 || is_blank(rest[0]),
    ensures
        word(single_quotes(text) + rest) == (text, rest),
{
    let s = single_quotes(text) + rest;
    lemma_single_quoted_of_text(text, rest);
    assert(s.skip(1) =~= text + seq!['\''] + rest);
    assert(piece(s) == (text, rest));
    assert(word(rest) == (Seq::<char>::empty(), rest));
    assert(text + seq![] =~= text);
}

/// Arguments without a single quote that are put between single quotes and
/// joined by spaces are split into the same list again: nothing between single
/// quotes has a meaning of its own.
pub proof fn single_quoted_arguments_come_back(list: Seq<Seq<char>>)
    requires
        forall|i: int| 0 <= i < list.len() ==> !(#[trigger] list[i]).contains('\''),
    ensures
        words(spaced(list.map_values(|w: Seq<char>| single_quotes(w)))) == list,
    decreases list.len(),
{
    let q = list.map_values(|w: Seq<char>| single_quotes(w));
    if list.len() == 0 {
        assert(words(spaced(q)) =~= list);
    } else {
        let rest = if list.len() == 1 {
            Seq::<char>::empty()
        } else {
            seq![' '] + spaced(q.skip(1))
        };
        assert(spaced(q) =~= single_quotes(list[0]) + rest);
        lemma_word_of_single_quotes(list[0], rest);
        assert forall|i: int| 0 <= i < list.skip(1).len() implies !(
            #[trigger] list.skip(1)[i]
        ).contains('\'') by {
            assert(list.skip(1)[i] == list[i + 1]);
        }
        single_quoted_arguments_come_back(list.skip(1));
        assert(list.skip(1).map_values(|w: Seq<char>| single_quotes(w)) =~= q.skip(1));
        if list.len() > 1 {
            assert(rest.skip(1) =~= spaced(q.skip(1)));
        } else {
            assert(list.skip(1) =~= seq![]);
        }
        assert(words(rest) == list.skip(1));
        assert(list =~= seq![list[0]] + list.skip(1));
    }
}

/// Words without blanks, quotes and backslashes that are joined by spaces are
/// split into the same words again.
pub proof fn plain_arguments_come_back(list: Seq<Seq<char>>)
    requires
        forall|i: int| 0 <= i < list.len() ==> is_plain(#[trigger] list[i]),
    ensures
        words(spaced(list)) == list,
    decreases list.len(),
{
    if list.len() == 0 {
        assert(words(spaced(list)) =~= list);
    } else {
        let rest = if list.len() == 1 {
            Seq::<char>::empty()
        } else {
            seq![' '] + spaced(list.skip(1))
        };
        assert(spaced(list) =~= list[0] + rest);
        lemma_word_of_plain(list[0], rest);
        assert forall|i: int| 0 <= i < list.skip(1).len() implies is_plain(
            #[trigger] list.skip(1)[i],
        ) by {
            assert(list.skip(1)[i] == list[i + 1]);
        }
        plain_arguments_come_back(list.skip(1));
        if list.len() > 1 {
            assert(rest.skip(1) =~= spaced(list.skip(1)));
        } else {
            assert(list.skip(1) =~= seq![]);
        }
        assert(words(rest) == list.skip(1));
        assert((list[0] + rest)[0] == list[0][0]);
        assert(list =~= seq![list[0]] + list.skip(1));
    }
}

/// Blanks, tabs and line ends separate words alike, and more of them than one
/// make no difference.
pub proof fn every_blank_separates(c: char, text: Seq<char>, s: Seq<char>)
    requires
        c == ' ' || c == '\t' || c == '\n' || c == '\r',
        is_plain(text),
    ensures
        words(seq![c] + s) == words(s),
        words(text + (seq![c] + s)) == seq![text] + words(s),
        words(text) == seq![text],
{
    assert((seq![c] + s).skip(1) =~= s);
    lemma_word_of_plain(text, seq![c] + s);
    let all = text + (seq![c] + s);
    assert(all[0] == text[0]);
    assert(words(seq![c] + s) == words(s));
    assert(words(all) == seq![word(all).0] + words(word(all).1));
    lemma_word_of_plain(text, seq![]);
    assert(text + Seq::<char>::empty() =~= text);
    assert(words(seq![]) =~= seq![]);
    assert(words(text) =~= seq![text]);
}

/// A backslash outside quotes takes the character behind it as it is, a blank
/// or a quote included; at the very end it stands for itself.
pub proof fn a_backslash_takes_the_next_character(c: char, s: Seq<char>)
    ensures
        piece(seq!['\\', c] + s) == (seq![c], s),
        piece(seq!['\\']) == (seq!['\\'], Seq::<char>::empty()),
{
    assert((seq!['\\', c] + s).skip(2) =~= s);
    assert(seq!['\\'].skip(1) =~= seq![]);
}

/// Inside double quotes a backslash takes only a quote or another backslash; in
/// front of anything else it stands for itself.
pub proof fn a_backslash_in_quotes_takes_quotes_and_backslashes(c: char, s: Seq<char>)
    requires
        c != '"',
        c != '\\',
    ensures
        double_quoted(seq!['\\', '"'] + s).0 == seq!['"'] + double_quoted(s).0,
        double_quoted(seq!['\\', '\\'] + s).0 == seq!['\\'] + double_quoted(s).0,
        double_quoted(seq!['\\', c] + s).0 == seq!['\\', c] + double_quoted(s).0,
        double_quoted(seq!['\\', c] + s).1 == double_quoted(s).1,
{
    assert((seq!['\\', '"'] + s).skip(2) =~= s);
    assert((seq!['\\', '\\'] + s).skip(2) =~= s);
    let t = seq!['\\', c] + s;
    assert(t.skip(1) =~= seq![c] + s);
    assert((seq![c] + s).skip(1) =~= s);
    assert(double_quoted(seq![c] + s).0 == seq![c] + double_quoted(s).0);
    assert(double_quoted(t).0 =~= seq!['\\', c] + double_quoted(s).0);
}

/// A quote that is never closed reaches to the end.
pub proof fn an_open_quote_reaches_to_the_end(text: Seq<char>)
    requires
        !text.contains('\''),
    ensures
        words(seq!['\''] + text) == seq![text],
{
    let s = seq!['\''] + text;
    lemma_open_single(text);
    assert(s.skip(1) =~= text);
    assert(piece(s) == (text, Seq::<char>::empty()));
    assert(word(Seq::<char>::empty()) == (Seq::<char>::empty(), Seq::<char>::empty()));
    assert(text + Seq::<char>::empty() =~= text);
    assert(words(seq![]) =~= seq![]);
    assert(words(s) =~= seq![text]);
}

proof fn lemma_open_single(text: Seq<char>)
    requires
        !text.contains('\''),
    ensures
        single_quoted(text) == (text, Seq::<char>::empty()),
    decreases text.len(),
{
    if text.len() == 0 {
        assert(text =~= seq![]);
    } else {
        assert(text.contains(text[0]));
        assert forall|c: char| text.skip(1).contains(c) implies text.contains(c) by {
            let i = choose|i: int| 0 <= i < text.skip(1).len() && text.skip(1)[i] == c;
            assert(text[i + 1] == c);
        }
        lemma_open_single(text.skip(1));
        assert(text =~= seq![text[0]] + text.skip(1));
    }
}

/// Pieces that stand next to each other are one word: a plain text and a quoted
/// one without a blank between them belong together.
pub proof fn adjacent_pieces_are_one_word(a: Seq<char>, b: Seq<char>)
    requires
        is_plain(a),
        !b.contains('\''),
    ensures
        words(a + single_quotes(b)) == seq![a + b],
{
    let q = single_quotes(b);
    lemma_word_of_single_quotes(b, seq![]);
    assert(q + Seq::<char>::empty() =~= q);
    lemma_plain_goes_on(a, q);
    assert((a + q)[0] == a[0]);
    assert(words(seq![]) =~= seq![]);
    assert(words(a + q) =~= seq![a + b]);
}

proof fn lemma_plain_goes_on(a: Seq<char>, s: Seq<char>)
    requires
        forall|i: int|
            0 <= i < a.len() ==> !is_blank(#[trigger] a[i]) && a[i] != '\'' && a[i] != '"' && a[i]
                != '\\',
    ensures
        word(a + s) == (a + word(s).0, word(s).1),
    decreases a.len(),
{
    if a.len() == 0 {
        assert(a + s =~= s);
        assert(a + word(s).0 =~= word(s).0);
    } else {
        let t = a + s;
        assert(t[0] == a[0]);
        assert(t.skip(1) =~= a.skip(1) + s);
        assert(piece(t) == (seq![a[0]], a.skip(1) + s));
        lemma_plain_goes_on(a.skip(1), s);
        assert(seq![a[0]] + (a.skip(1) + word(s).0) =~= a + word(s).0);
    }
}

} // verus!
