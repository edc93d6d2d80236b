//! The language of the user interface.
//!
//! It follows the language of the system: `zh-CN` when the system speaks a
//! Chinese dialect, `en` otherwise.

use vstd::prelude::*;
use crate::text::{chars_of, same, slice_of};

verus! {

/// The language tag that the system reports, read by `sys_locale::get_locale`:
/// a BCP 47 tag such as `zh-CN`, or nothing. It depends on the machine, so
/// nothing is claimed of it.
#[verifier::external_body]
fn system_locale() -> (r: Option<String>) {
    sys_locale::get_locale()
}

/// The end of the primary subtag: the first `-` or `_`.
pub open spec fn subtag_end(tag: Seq<char>, i: int) -> int
    decreases tag.len() - i,
{
    if 0 <= i < tag.len() && tag[i] != '-' && tag[i] != '_' {
        subtag_end(tag, i + 1)
    } else {
        i
    }
}

/// An ASCII letter in lower case; other characters as they are.
pub open spec fn lower(c: char) -> char {
    if 'A' <= c && c <= 'Z' {
        (c as u8 + 32) as char
    } else {
        c
    }
}

/// The primary subtag of a language tag, in lower case.
pub open spec fn language(tag: Seq<char>) -> Seq<char> {
    tag.take(subtag_end(tag, 0)).map_values(|c: char| lower(c))
}

/// The shipped locale for a language tag: Chinese for the Chinese languages,
/// English for every other one and for none.
pub open spec fn locale_text(tag: Seq<char>) -> Seq<char> {
    if language(tag) == "zh"@ || language(tag) == "cmn"@ {
        "zh-CN"@
    } else {
        "en"@
    }
}

fn lowered(c: char) -> (r: char)
    ensures
        r == lower(c),
{
    if 'A' <= c && c <= 'Z' {
        (c as u8 + 32) as char
    } else {
        c
    }
}

/// The shipped locale for a language tag.
pub fn locale_for(tag: &str) -> (r: &'static str)
    ensures
        r@ == locale_text(tag@),
{
    let v = chars_of(tag);
    let mut lang: Vec<char> = Vec::new();
    let mut i: usize = 0;
    while i < v.len() && v[i] != '-' && v[i] != '_'
        invariant
            0 <= i <= v@.len(),
            v@ == tag@,
            subtag_end(tag@, 0) == subtag_end(tag@, i as int),
            lang@ == tag@.take(i as int).map_values(|c: char| lower(c)),
        decreases v@.len() - i,
    {
        lang.push(lowered(v[i]));
        i += 1;
        assert(lang@ =~= tag@.take(i as int).map_values(|c: char| lower(c)));
    }
    let text = slice_of(&lang, 0, lang.len());
    assert(text@ =~= language(tag@));
    if same(text.as_str(), "zh") || same(text.as_str(), "cmn") {
        "zh-CN"
    } else {
        "en"
    }
}

/// The locale for what the system reports; nothing counts as an empty tag.
pub fn locale_for_system(tag: &Option<String>) -> (r: &'static str)
    ensures
        r@ == (match tag {
            Some(t) => locale_text(t@),
            None => locale_text(seq![]),
        }),
{
    match tag {
        Some(t) => locale_for(t.as_str()),
        None => {
            let empty = String::new();
            locale_for(empty.as_str())
        },
    }
}

/// The locale currently in use (`"zh-CN"` or `"en"`).
///
/// It is chosen once, by the language that the system has at the first call,
/// and kept in its slot: a language that changes later changes nothing.
pub fn locale(slot: &mut Option<&'static str>) -> (r: &'static str)
    ensures
        *final(slot) == Some(r),
        *old(slot) is Some ==> *final(slot) == *old(slot),
        *old(slot) is None ==> r@ == "zh-CN"@ || r@ == "en"@,
{
    match *slot {
        Some(chosen) => chosen,
        None => {
            let chosen = locale_for_system(&system_locale());
            *slot = Some(chosen);
            chosen
        },
    }
}

/// Chooses the locale at startup, before any message is rendered.
pub fn init(slot: &mut Option<&'static str>)
    ensures
        *final(slot) is Some,
        *old(slot) is Some ==> *final(slot) == *old(slot),
        *old(slot) is None ==> (*final(slot))->0@ == "zh-CN"@ || (*final(slot))->0@ == "en"@,
{
    locale(slot);
}

// ---- laws ----------------------------------------------------------------

proof fn lemma_subtag_end(tag: Seq<char>, n: int, i: int)
    requires
        0 <= i <= n <= tag.len(),
        forall|j: int| i <= j < n ==> #[trigger] tag[j] != '-' && tag[j] != '_',
        n == tag.len() || tag[n] == '-' || tag[n] == '_',
    ensures
        subtag_end(tag, i) == n,
    decreases n - i,
{
    if i < n {
        lemma_subtag_end(tag, n, i + 1);
    }
}

/// Only the primary subtag of a tag matters: what stands behind its first
/// hyphen or underscore changes nothing.
pub proof fn only_the_primary_subtag_matters(primary: Seq<char>, sep: char, rest: Seq<char>)
    requires
        forall|j: int| 0 <= j < primary.len() ==> #[trigger] primary[j] != '-' && primary[j] != '_',
        sep == '-' || sep == '_',
    ensures
        language(primary + seq![sep] + rest) == language(primary),
        locale_text(primary + seq![sep] + rest) == locale_text(primary),
        language(primary).len() == primary.len(),
{
    let tag = primary + seq![sep] + rest;
    let n = primary.len() as int;
    assert(forall|j: int| 0 <= j < n ==> #[trigger] tag[j] == primary[j]);
    assert(tag[n] == sep);
    lemma_subtag_end(tag, n, 0);
    lemma_subtag_end(primary, n, 0);
    assert(tag.take(n) =~= primary);
    assert(primary.take(n) =~= primary);
}

/// The interface is Chinese exactly for the languages `zh` and `cmn`, in upper
/// or lower case, and English for every other one and for none.
pub proof fn the_interface_is_chinese_for_chinese(primary: Seq<char>)
    requires
        forall|j: int| 0 <= j < primary.len() ==> #[trigger] primary[j] != '-' && primary[j] != '_',
    ensures
        ({
            let zh = primary.len() == 2 && (primary[0] == 'z' || primary[0] == 'Z') && (primary[1]
                == 'h' || primary[1] == 'H');
            let cmn = primary.len() == 3 && (primary[0] == 'c' || primary[0] == 'C') && (primary[1]
                == 'm' || primary[1] == 'M') && (primary[2] == 'n' || primary[2] == 'N');
            &&& zh || cmn ==> locale_text(primary) == "zh-CN"@
            &&& !zh && !cmn ==> locale_text(primary) == "en"@
        }),
{
    let n = primary.len() as int;
    lemma_subtag_end(primary, n, 0);
    assert(primary.take(n) =~= primary);
    let l = language(primary);
    reveal_strlit("zh");
    reveal_strlit("cmn");
    assert(lower('Z') == 'z' && lower('H') == 'h');
    assert(lower('C') == 'c' && lower('M') == 'm' && lower('N') == 'n');
    assert forall|i: int| 0 <= i < n implies #[trigger] l[i] == lower(primary[i]) by {}
    if n == 2 {
        if l[0] == 'z' && l[1] == 'h' {
            assert(l =~= "zh"@);
        }
        lemma_lower(primary[0], 'Z');
        lemma_lower(primary[1], 'H');
    }
    if n == 3 {
        if l[0] == 'c' && l[1] == 'm' && l[2] == 'n' {
            assert(l =~= "cmn"@);
        }
        lemma_lower(primary[0], 'C');
        lemma_lower(primary[1], 'M');
        lemma_lower(primary[2], 'N');
    }
    assert("zh"@.len() == 2 && "zh"@[0] == 'z' && "zh"@[1] == 'h');
    assert("cmn"@.len() == 3 && "cmn"@[0] == 'c' && "cmn"@[1] == 'm' && "cmn"@[2] == 'n');
}

proof fn lemma_lower(c: char, capital: char)
    requires
        'A' <= capital && capital <= 'Z',
    ensures
        lower(c) == lower(capital) <==> c == capital || c == lower(capital),
{
}

} // verus!
