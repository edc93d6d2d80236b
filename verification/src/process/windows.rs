//! What a process start on Windows takes: one command line for all arguments,
//! one block for the environment, both in UTF-16.

use vstd::prelude::*;
use vstd::string::*;
use super::command::{pair_views, Cmd};
use crate::text::{chars_of, is_white, is_whitespace, same, views};

verus! {

// ---- arguments -----------------------------------------------------------

/// A run of backslashes.
pub open spec fn backslashes(n: nat) -> Seq<char> {
    Seq::new(n, |i: int| '\\')
}

/// Arguments that cannot stand in a command line as they are.
pub open spec fn needs_quotes(arg: Seq<char>) -> bool {
    arg.len() == 0 || exists|i: int|
        0 <= i < arg.len() && (is_white(#[trigger] arg[i]) || arg[i] == '"')
}

/// The inside of a quoted argument, behind `n` backslashes that wait for what
/// follows them: they are doubled before a quote and at the end, and stay as
/// they are before anything else.
pub open spec fn quoted_from(arg: Seq<char>, n: nat) -> Seq<char>
    decreases arg.len(),
{
    if arg.len() == 0 {
        backslashes(2 * n)
    } else if arg[0] == '\\' {
        quoted_from(arg.skip(1), n + 1)
    } else if arg[0] == '"' {
        backslashes(2 * n + 1) + seq!['"'] + quoted_from(arg.skip(1), 0)
    } else {
        backslashes(n) + seq![arg[0]] + quoted_from(arg.skip(1), 0)
    }
}

/// An argument as it stands in a command line.
pub open spec fn quote(arg: Seq<char>) -> Seq<char> {
    if needs_quotes(arg) {
        seq!['"'] + quoted_from(arg, 0) + seq!['"']
    } else {
        arg
    }
}

fn has_white_or_quote(v: &Vec<char>) -> (r: bool)
    ensures
        r == exists|i: int| 0 <= i < v@.len() && (is_white(#[trigger] v@[i]) || v@[i] == '"'),
{
    let mut i: usize = 0;
    while i < v.len()
        invariant
            0 <= i <= v@.len(),
            forall|j: int| 0 <= j < i ==> !is_white(#[trigger] v@[j]) && v@[j] != '"',
        decreases v@.len() - i,
    {
        if is_whitespace(v[i]) || v[i] == '"' {
            assert(is_white(v@[i as int]) || v@[i as int] == '"');
            return true;
        }
        i += 1;
    }
    false
}

fn push_backslashes(s: &mut String, n: usize)
    ensures
        final(s)@ == old(s)@ + backslashes(n as nat),
{
    let mut i: usize = 0;
    assert(s@ =~= old(s)@ + backslashes(0));
    while i < n
        invariant
            0 <= i <= n,
            s@ == old(s)@ + backslashes(i as nat),
        decreases n - i,
    {
        s.push('\\');
        i += 1;
        assert(s@ =~= old(s)@ + backslashes(i as nat));
    }
}

/// Quotes one argument for a command line.
pub fn quote_arg(arg: &str) -> (r: String)
    ensures
        r@ == quote(arg@),
{
    let v = chars_of(arg);
    if v.len() > 0 && !has_white_or_quote(&v) {
        return arg.to_owned();
    }
    let mut s = String::new();
    s.push('"');
    let mut pending: usize = 0;
    let mut i: usize = 0;
    assert(v@.skip(0) =~= v@);
    assert(s@ + quoted_from(v@, 0) =~= seq!['"'] + quoted_from(arg@, 0));
    while i < v.len()
        invariant
            0 <= i <= v@.len(),
            v@ == arg@,
            pending <= i,
            s@ + quoted_from(v@.skip(i as int), pending as nat) == seq!['"'] + quoted_from(
                arg@,
                0,
            ),
        decreases v@.len() - i,
    {
        let ghost here = v@.skip(i as int);
        let ghost before = s@;
        assert(here.skip(1) =~= v@.skip(i + 1));
        let c = v[i];
        if c == '\\' {
            pending += 1;
        } else if c == '"' {
            // Twice, for the doubling, and one more to escape the quote.
            push_backslashes(&mut s, pending);
            push_backslashes(&mut s, pending);
            s.push('\\');
            s.push('"');
            assert(s@ =~= before + backslashes(2 * (pending as nat) + 1) + seq!['"']);
            assert(s@ + quoted_from(here.skip(1), 0) =~= before + quoted_from(
                here,
                pending as nat,
            ));
            pending = 0;
        } else {
            push_backslashes(&mut s, pending);
            s.push(c);
            assert(s@ + quoted_from(here.skip(1), 0) =~= before + quoted_from(
                here,
                pending as nat,
            ));
            pending = 0;
        }
        i += 1;
    }
    let ghost before = s@;
    push_backslashes(&mut s, pending);
    push_backslashes(&mut s, pending);
    assert(s@ =~= before + backslashes(2 * (pending as nat)));
    s.push('"');
    assert(s@ =~= quote(arg@));
    s
}

/// Arguments, each behind a space.
pub open spec fn quoted_args(args: Seq<Seq<char>>) -> Seq<char>
    decreases args.len(),
{
    if args.len() == 0 {
        seq![]
    } else {
        quoted_args(args.drop_last()) + seq![' '] + quote(args.last())
    }
}

/// The command line of a program and its arguments.
pub open spec fn command_line(program: Seq<char>, args: Seq<Seq<char>>) -> Seq<char> {
    quote(program) + quoted_args(args)
}

/// The command line of a command, in UTF-16.
pub fn build_cmdline(cmd: &Cmd) -> (r: Vec<u16>)
    ensures
        r@ == wide_text(command_line(cmd@.program, cmd@.args)),
{
    let mut s = quote_arg(cmd.program.as_str());
    let ghost all = views(cmd.args@);
    let mut i: usize = 0;
    assert(s@ =~= quote(cmd@.program) + quoted_args(all.take(0)));
    while i < cmd.args.len()
        invariant
            0 <= i <= cmd.args@.len(),
            all == views(cmd.args@),
            s@ == quote(cmd@.program) + quoted_args(all.take(i as int)),
        decreases cmd.args@.len() - i,
    {
        let ghost before = s@;
        s.push(' ');
        s.append(quote_arg(cmd.args[i].as_str()).as_str());
        assert(all.take(i + 1).drop_last() =~= all.take(i as int));
        assert(all.take(i + 1).last() == cmd.args@[i as int]@);
        i += 1;
        assert(s@ =~= quote(cmd@.program) + quoted_args(all.take(i as int)));
    }
    assert(all.take(i as int) =~= all);
    wide(s.as_str())
}

// ---- UTF-16 --------------------------------------------------------------

/// One character in UTF-16.
pub open spec fn utf16_char(c: char) -> Seq<u16> {
    let n = c as u32;
    if n < 0x10000 {
        seq![n as u16]
    } else {
        seq![
            (0xd800 + (n - 0x10000) / 0x400) as u16,
            (0xdc00 + (n - 0x10000) % 0x400) as u16,
        ]
    }
}

/// A text in UTF-16.
pub open spec fn utf16(s: Seq<char>) -> Seq<u16>
    decreases s.len(),
{
    if s.len() == 0 {
        seq![]
    } else {
        utf16(s.drop_last()) + utf16_char(s.last())
    }
}

/// A text in UTF-16 with the zero at its end that the system wants.
pub open spec fn wide_text(s: Seq<char>) -> Seq<u16> {
    utf16(s).push(0)
}

fn push_utf16(out: &mut Vec<u16>, s: &str)
    ensures
        final(out)@ == old(out)@ + utf16(s@),
{
    let v = chars_of(s);
    let mut i: usize = 0;
    assert(out@ =~= old(out)@ + utf16(v@.take(0)));
    while i < v.len()
        invariant
            0 <= i <= v@.len(),
            out@ == old(out)@ + utf16(v@.take(i as int)),
        decreases v@.len() - i,
    {
        let ghost before = out@;
        let n: u32 = v[i] as u32;
        if n < 0x10000 {
            out.push(n as u16);
        } else {
            let m: u32 = n - 0x10000;
            out.push((0xd800 + m / 0x400) as u16);
            out.push((0xdc00 + m % 0x400) as u16);
        }
        assert(out@ =~= before + utf16_char(v@[i as int]));
        assert(v@.take(i + 1).drop_last() =~= v@.take(i as int));
        i += 1;
        assert(out@ =~= old(out)@ + utf16(v@.take(i as int)));
    }
    assert(v@.take(i as int) =~= s@);
}

/// A text in UTF-16, with a zero at its end.
pub fn wide(s: &str) -> (r: Vec<u16>)
    ensures
        r@ == wide_text(s@),
{
    let mut out: Vec<u16> = Vec::new();
    push_utf16(&mut out, s);
    assert(out@ =~= utf16(s@));
    out.push(0);
    out
}

// ---- environment ---------------------------------------------------------

/// The value of a variable in a list: the last one counts.
pub open spec fn lookup(env: Seq<(Seq<char>, Seq<char>)>, key: Seq<char>) -> Option<Seq<char>>
    decreases env.len(),
{
    if env.len() == 0 {
        None
    } else if env.last().0 == key {
        Some(env.last().1)
    } else {
        lookup(env.drop_last(), key)
    }
}

/// No variable stands twice in a list.
pub open spec fn distinct_keys(env: Seq<(Seq<char>, Seq<char>)>) -> bool {
    forall|i: int, j: int| 0 <= i < j < env.len() ==> (#[trigger] env[i]).0 != (#[trigger] env[j]).0
}

/// The list `env` with the variable `key` set, in its old place if it has one.
pub open spec fn with_var(
    env: Seq<(Seq<char>, Seq<char>)>,
    key: Seq<char>,
    value: Seq<char>,
) -> Seq<(Seq<char>, Seq<char>)>
    decreases env.len(),
{
    if env.len() == 0 {
        seq![(key, value)]
    } else if env[0].0 == key {
        seq![(key, value)] + env.skip(1)
    } else {
        seq![env[0]] + with_var(env.skip(1), key, value)
    }
}

/// The list `env` with all variables of `sets` set, in their order.
pub open spec fn with_vars(
    env: Seq<(Seq<char>, Seq<char>)>,
    sets: Seq<(Seq<char>, Seq<char>)>,
) -> Seq<(Seq<char>, Seq<char>)>
    decreases sets.len(),
{
    if sets.len() == 0 {
        env
    } else {
        with_var(with_vars(env, sets.drop_last()), sets.last().0, sets.last().1)
    }
}

fn set_var(env: &mut Vec<(String, String)>, key: &str, value: &str)
    ensures
        pair_views(final(env)@) == with_var(pair_views(old(env)@), key@, value@),
{
    let ghost all = pair_views(old(env)@);
    let mut i: usize = 0;
    assert(all.skip(0) =~= all);
    assert(all.take(0) + with_var(all, key@, value@) =~= with_var(all, key@, value@));
    while i < env.len()
        invariant
            0 <= i <= env@.len(),
            env@ == old(env)@,
            all == pair_views(old(env)@),
            all.take(i as int) + with_var(all.skip(i as int), key@, value@) == with_var(
                all,
                key@,
                value@,
            ),
        decreases env@.len() - i,
    {
        let ghost here = all.skip(i as int);
        assert(here[0] == all[i as int]);
        assert(here.skip(1) =~= all.skip(i + 1));
        if same(env[i].0.as_str(), key) {
            env.set(i, (key.to_owned(), value.to_owned()));
            assert(pair_views(env@) =~= all.take(i as int) + with_var(here, key@, value@));
            return;
        }
        assert(all.take(i + 1) + with_var(here.skip(1), key@, value@) =~= all.take(i as int)
            + with_var(here, key@, value@));
        i += 1;
    }
    env.push((key.to_owned(), value.to_owned()));
    assert(pair_views(env@) =~= all.take(i as int) + with_var(all.skip(i as int), key@, value@));
}

/// The environment of a command: the inherited one, with what the command
/// sets.
pub fn merged_env(inherited: Vec<(String, String)>, cmd: &Cmd) -> (r: Vec<(String, String)>)
    ensures
        pair_views(r@) == with_vars(pair_views(inherited@), cmd@.envs),
{
    let mut env = inherited;
    let ghost sets = pair_views(cmd.envs@);
    let mut i: usize = 0;
    assert(sets.take(0) =~= seq![]);
    while i < cmd.envs.len()
        invariant
            0 <= i <= cmd.envs@.len(),
            sets == pair_views(cmd.envs@),
            pair_views(env@) == with_vars(pair_views(inherited@), sets.take(i as int)),
        decreases cmd.envs@.len() - i,
    {
        assert(sets.take(i + 1).drop_last() =~= sets.take(i as int));
        assert(sets.take(i + 1).last() == sets[i as int]);
        set_var(&mut env, cmd.envs[i].0.as_str(), cmd.envs[i].1.as_str());
        i += 1;
    }
    assert(sets.take(i as int) =~= sets);
    env
}

/// An environment as one block: each variable as `key=value` with a zero
/// behind it, and one more zero.
pub open spec fn env_block(env: Seq<(Seq<char>, Seq<char>)>) -> Seq<u16> {
    env_entries(env).push(0)
}

pub open spec fn env_entries(env: Seq<(Seq<char>, Seq<char>)>) -> Seq<u16>
    decreases env.len(),
{
    if env.len() == 0 {
        seq![]
    } else {
        env_entries(env.drop_last()) + utf16(env.last().0) + seq!['=' as u16] + utf16(
            env.last().1,
        ) + seq![0u16]
    }
}

/// The environment of a command as one block.
pub fn build_env_block(inherited: Vec<(String, String)>, cmd: &Cmd) -> (r: Vec<u16>)
    ensures
        r@ == env_block(with_vars(pair_views(inherited@), cmd@.envs)),
{
    let env = merged_env(inherited, cmd);
    let ghost all = pair_views(env@);
    let mut block: Vec<u16> = Vec::new();
    let mut i: usize = 0;
    assert(block@ =~= env_entries(all.take(0)));
    while i < env.len()
        invariant
            0 <= i <= env@.len(),
            all == pair_views(env@),
            block@ == env_entries(all.take(i as int)),
        decreases env@.len() - i,
    {
        assert(all.take(i + 1).drop_last() =~= all.take(i as int));
        assert(all.take(i + 1).last() == all[i as int]);
        push_utf16(&mut block, env[i].0.as_str());
        block.push(0x3d);
        push_utf16(&mut block, env[i].1.as_str());
        block.push(0);
        i += 1;
        assert(block@ =~= env_entries(all.take(i as int)));
    }
    assert(all.take(i as int) =~= all);
    block.push(0);
    block
}

// ---- laws ----------------------------------------------------------------

/// The characters that separate arguments outside quotes.
pub open spec fn separates(c: char) -> bool {
    c == ' ' || c == '\t'
}

/// How the system reads an argument: the text of it, and what follows it.
///
/// `n` backslashes have been read already, inside quotes or not. An even run
/// of backslashes before a quote stands for half of them and leaves the quote
/// its meaning; an odd run makes the quote a character of the argument.
pub open spec fn read_arg(s: Seq<char>, n: nat, in_quotes: bool) -> (Seq<char>, Seq<char>)
    decreases s.len(),
{
    if s.len() == 0 {
        (backslashes(n), seq![])
    } else if s[0] == '\\' {
        read_arg(s.skip(1), n + 1, in_quotes)
    } else if s[0] == '"' && n % 2 == 0 {
        let (text, rest) = read_arg(s.skip(1), 0, !in_quotes);
        (backslashes(n / 2) + text, rest)
    } else if s[0] == '"' {
        let (text, rest) = read_arg(s.skip(1), 0, in_quotes);
        (backslashes(n / 2) + seq!['"'] + text, rest)
    } else if !in_quotes && separates(s[0]) {
        (backslashes(n), s)
    } else {
        let (text, rest) = read_arg(s.skip(1), 0, in_quotes);
        (backslashes(n) + seq![s[0]] + text, rest)
    }
}

proof fn lemma_read_arg_shrinks(s: Seq<char>, n: nat, in_quotes: bool)
    ensures
        read_arg(s, n, in_quotes).1.len() <= s.len(),
        s.len() > 0 && !(!in_quotes && separates(s[0])) ==> read_arg(s, n, in_quotes).1.len()
            < s.len(),
    decreases s.len(),
{
    if s.len() > 0 {
        lemma_read_arg_shrinks(s.skip(1), n + 1, in_quotes);
        lemma_read_arg_shrinks(s.skip(1), 0, in_quotes);
        lemma_read_arg_shrinks(s.skip(1), 0, !in_quotes);
    }
}

/// How the system reads the arguments of a command line.
pub open spec fn read_args(s: Seq<char>) -> Seq<Seq<char>>
    decreases s.len(),
    via read_args_terminates
{
    if s.len() == 0 {
        seq![]
    } else if separates(s[0]) {
        read_args(s.skip(1))
    } else {
        seq![read_arg(s, 0, false).0] + read_args(read_arg(s, 0, false).1)
    }
}

#[via_fn]
proof fn read_args_terminates(s: Seq<char>) {
    lemma_read_arg_shrinks(s, 0, false);
}

proof fn lemma_read_backslashes(k: nat, t: Seq<char>, n: nat, in_quotes: bool)
    ensures
        read_arg(backslashes(k) + t, n, in_quotes) == read_arg(t, n + k, in_quotes),
    decreases k,
{
    if k == 0 {
        assert(backslashes(0) + t =~= t);
    } else {
        let s = backslashes(k) + t;
        assert(s.skip(1) =~= backslashes((k - 1) as nat) + t);
        lemma_read_backslashes((k - 1) as nat, t, n + 1, in_quotes);
    }
}

proof fn lemma_read_quoted_from(arg: Seq<char>, n: nat, rest: Seq<char>)
    requires
        rest.len() == 0 || separates(rest[0]),
    ensures
        read_arg(quoted_from(arg, n) + seq!['"'] + rest, 0, true) == (backslashes(n) + arg, rest),
    decreases arg.len(),
{
    let end = seq!['"'] + rest;
    let s = quoted_from(arg, n) + seq!['"'] + rest;
    if arg.len() == 0 {
        assert(s =~= backslashes(2 * n) + end);
        lemma_read_backslashes(2 * n, end, 0, true);
        assert(end.skip(1) =~= rest);
        assert(read_arg(rest, 0, false) == (backslashes(0), rest)) by {
            if rest.len() == 0 {
                assert(rest =~= seq![]);
            }
        }
        assert(backslashes(n) + backslashes(0) =~= backslashes(n) + arg);
    } else {
        let tail = arg.skip(1);
        assert(arg =~= seq![arg[0]] + tail);
        if arg[0] == '\\' {
            lemma_read_quoted_from(tail, n + 1, rest);
            assert(backslashes(n + 1) + tail =~= backslashes(n) + arg);
        } else if arg[0] == '"' {
            lemma_read_quoted_from(tail, 0, rest);
            let t = quoted_from(tail, 0) + seq!['"'] + rest;
            let u = seq!['"'] + t;
            assert(s =~= backslashes(2 * n + 1) + u);
            lemma_read_backslashes(2 * n + 1, u, 0, true);
            assert(u.skip(1) =~= t);
            assert(backslashes(n) + seq!['"'] + (backslashes(0) + tail) =~= backslashes(n) + arg);
        } else {
            lemma_read_quoted_from(tail, 0, rest);
            let t = quoted_from(tail, 0) + seq!['"'] + rest;
            let u = seq![arg[0]] + t;
            assert(s =~= backslashes(n) + u);
            lemma_read_backslashes(n, u, 0, true);
            assert(u.skip(1) =~= t);
            assert(backslashes(n) + seq![arg[0]] + (backslashes(0) + tail) =~= backslashes(n)
                + arg);
        }
    }
}

proof fn lemma_read_plain(arg: Seq<char>, n: nat, rest: Seq<char>)
    requires
        rest.len() == 0 || separates(rest[0]),
        forall|i: int| 0 <= i < arg.len() ==> !is_white(#[trigger] arg[i]) && arg[i] != '"',
    ensures
        read_arg(arg + rest, n, false) == (backslashes(n) + arg, rest),
    decreases arg.len(),
{
    let s = arg + rest;
    if arg.len() == 0 {
        assert(s =~= rest);
        assert(backslashes(n) + arg =~= backslashes(n));
        if rest.len() == 0 {
            assert(rest =~= seq![]);
        }
    } else {
        let tail = arg.skip(1);
        assert(arg =~= seq![arg[0]] + tail);
        assert(s.skip(1) =~= tail + rest);
        assert(s[0] == arg[0]);
        assert forall|i: int| 0 <= i < tail.len() implies !is_white(#[trigger] tail[i]) && tail[i]
            != '"' by {
            assert(tail[i] == arg[i + 1]);
        }
        if arg[0] == '\\' {
            lemma_read_plain(tail, n + 1, rest);
            assert(backslashes(n + 1) + tail =~= backslashes(n) + arg);
        } else {
            lemma_read_plain(tail, 0, rest);
            assert(backslashes(n) + seq![arg[0]] + (backslashes(0) + tail) =~= backslashes(n)
                + arg);
        }
    }
}

proof fn lemma_read_quote(arg: Seq<char>, rest: Seq<char>)
    requires
        rest.len() == 0 || separates(rest[0]),
    ensures
        read_arg(quote(arg) + rest, 0, false) == (arg, rest),
        quote(arg).len() > 0,
        !separates(quote(arg)[0]),
{
    let s = quote(arg) + rest;
    if needs_quotes(arg) {
        lemma_read_quoted_from(arg, 0, rest);
        assert(s.skip(1) =~= quoted_from(arg, 0) + seq!['"'] + rest);
        assert(backslashes(0) + arg =~= arg);
        assert(backslashes(0) + (backslashes(0) + arg) =~= arg);
    } else {
        assert forall|i: int| 0 <= i < arg.len() implies !is_white(#[trigger] arg[i]) && arg[i]
            != '"' by {}
        lemma_read_plain(arg, 0, rest);
        assert(backslashes(0) + arg =~= arg);
        assert(!is_white(arg[0]));
    }
}

proof fn lemma_quoted_args_front(args: Seq<Seq<char>>)
    requires
        args.len() > 0,
    ensures
        quoted_args(args) == seq![' '] + quote(args[0]) + quoted_args(args.skip(1)),
    decreases args.len(),
{
    if args.len() == 1 {
        assert(args.drop_last() =~= seq![]);
        assert(args.skip(1) =~= seq![]);
        assert(quoted_args(args) =~= seq![' '] + quote(args[0]) + quoted_args(args.skip(1)));
    } else {
        lemma_quoted_args_front(args.drop_last());
        assert(args.drop_last().skip(1) =~= args.skip(1).drop_last());
        assert(quoted_args(args) =~= seq![' '] + quote(args[0]) + quoted_args(args.skip(1)));
    }
}

/// Every program gets the arguments that it was started with: the system reads
/// them out of the command line unchanged, whatever is in them.
pub proof fn arguments_survive_the_command_line(args: Seq<Seq<char>>)
    ensures
        read_args(quoted_args(args)) == args,
    decreases args.len(),
{
    if args.len() == 0 {
        assert(read_args(quoted_args(args)) =~= args);
    } else {
        lemma_quoted_args_front(args);
        let rest = quoted_args(args.skip(1));
        if args.len() > 1 {
            lemma_quoted_args_front(args.skip(1));
        }
        lemma_read_quote(args[0], rest);
        let line = quoted_args(args);
        let s = quote(args[0]) + rest;
        assert(line.skip(1) =~= s);
        assert(s[0] == quote(args[0])[0]);
        arguments_survive_the_command_line(args.skip(1));
        assert(read_args(s) == seq![args[0]] + read_args(rest));
        assert(args =~= seq![args[0]] + args.skip(1));
    }
}

/// The text that a UTF-16 sequence stands for.
pub open spec fn from_utf16(w: Seq<u16>) -> Seq<char>
    decreases w.len(),
{
    if w.len() == 0 {
        seq![]
    } else if w.len() >= 2 && 0xd800 <= w[w.len() - 2] < 0xdc00 {
        from_utf16(w.take(w.len() - 2)).push(
            (0x10000 + (w[w.len() - 2] - 0xd800) * 0x400 + (w[w.len() - 1] - 0xdc00)) as char,
        )
    } else {
        from_utf16(w.drop_last()).push(w.last() as char)
    }
}

proof fn lemma_utf16_last(s: Seq<char>)
    requires
        s.len() > 0,
    ensures
        utf16(s).len() > 0,
        !(0xd800 <= utf16(s).last() < 0xdc00),
{
    let c = s.last();
    let n = c as u32;
    vstd::utf8::char_is_scalar(c);
    if n >= 0x10000 {
        let m = n - 0x10000;
        assert(m < 0x100000);
        assert(utf16(s).last() == 0xdc00 + m % 0x400);
    } else {
        assert(utf16(s).last() == n);
    }
}

/// A text in UTF-16 stands for the same text again.
pub proof fn wide_text_comes_back(s: Seq<char>)
    ensures
        from_utf16(utf16(s)) == s,
    decreases s.len(),
{
    let w = utf16(s);
    if s.len() > 0 {
        let head = s.drop_last();
        let c = s.last();
        let n = c as u32;
        vstd::utf8::char_is_scalar(c);
        vstd::utf8::char_u32_cast(c, n);
        wide_text_comes_back(head);
        if head.len() > 0 {
            lemma_utf16_last(head);
        }
        assert(s =~= head.push(c));
        if n >= 0x10000 {
            let m = n - 0x10000;
            assert(m < 0x100000);
            assert(w.take(w.len() - 2) =~= utf16(head));
            assert(w[w.len() - 2] == 0xd800 + m / 0x400);
            assert(w[w.len() - 1] == 0xdc00 + m % 0x400);
            assert(0x10000 + (m / 0x400) * 0x400 + m % 0x400 == n);
        } else {
            assert(w.drop_last() =~= utf16(head));
            assert(w.last() == n);
            if w.len() >= 2 {
                assert(w[w.len() - 2] == utf16(head).last());
            }
        }
    }
}

proof fn lemma_with_var(
    env: Seq<(Seq<char>, Seq<char>)>,
    key: Seq<char>,
    value: Seq<char>,
    k: Seq<char>,
)
    requires
        distinct_keys(env),
    ensures
        distinct_keys(with_var(env, key, value)),
        lookup(with_var(env, key, value), k) == (if k == key {
            Some(value)
        } else {
            lookup(env, k)
        }),
        forall|i: int|
            0 <= i < with_var(env, key, value).len() ==> (#[trigger] with_var(env, key, value)[i]).0
                == key || exists|j: int|
                0 <= j < env.len() && with_var(env, key, value)[i].0 == (#[trigger] env[j]).0,
    decreases env.len(),
{
    let r = with_var(env, key, value);
    if env.len() == 0 {
        assert(r.drop_last() =~= seq![]);
        assert(lookup(r.drop_last(), k) is None);
    } else {
        let tail = env.skip(1);
        assert(env =~= seq![env[0]] + tail);
        assert(distinct_keys(tail)) by {
            assert forall|i: int, j: int| 0 <= i < j < tail.len() implies (#[trigger] tail[i]).0
                != (#[trigger] tail[j]).0 by {
                assert(tail[i] == env[i + 1]);
                assert(tail[j] == env[j + 1]);
            }
        }
        lemma_lookup_front(env, k);
        if env[0].0 == key {
            lemma_lookup_front(r, k);
            assert(r.skip(1) =~= tail);
            assert forall|i: int, j: int| 0 <= i < j < r.len() implies (#[trigger] r[i]).0 != (
            #[trigger] r[j]).0 by {
                assert(r[j] == env[j]);
                assert(r[i].0 == env[i].0);
            }
            assert forall|i: int| 0 <= i < r.len() implies (#[trigger] r[i]).0 == key || exists|
                j: int,
            | 0 <= j < env.len() && r[i].0 == (#[trigger] env[j]).0 by {
                assert(r[i].0 == env[i].0);
            }
            if k == key {
                lemma_lookup_absent(tail, k);
            }
        } else {
            lemma_with_var(tail, key, value, k);
            let t = with_var(tail, key, value);
            lemma_lookup_front(r, k);
            assert(r.skip(1) =~= t);
            assert forall|i: int| 0 <= i < r.len() implies (#[trigger] r[i]).0 == key || exists|
                j: int,
            | 0 <= j < env.len() && r[i].0 == (#[trigger] env[j]).0 by {
                if i == 0 {
                    assert(r[0].0 == env[0].0);
                } else {
                    assert(r[i] == t[i - 1]);
                    if t[i - 1].0 != key {
                        let j = choose|j: int| 0 <= j < tail.len() && t[i - 1].0 == (
                        #[trigger] tail[j]).0;
                        assert(tail[j] == env[j + 1]);
                        assert(r[i].0 == env[j + 1].0);
                    }
                }
            }
            assert forall|i: int, j: int| 0 <= i < j < r.len() implies (#[trigger] r[i]).0 != (
            #[trigger] r[j]).0 by {
                assert(r[j] == t[j - 1]);
                if i > 0 {
                    assert(r[i] == t[i - 1]);
                } else if t[j - 1].0 != key {
                    let m = choose|m: int| 0 <= m < tail.len() && t[j - 1].0 == (
                    #[trigger] tail[m]).0;
                    assert(tail[m] == env[m + 1]);
                }
            }
        }
    }
}

proof fn lemma_lookup_front(env: Seq<(Seq<char>, Seq<char>)>, k: Seq<char>)
    requires
        env.len() > 0,
    ensures
        lookup(env, k) == (match lookup(env.skip(1), k) {
            Some(v) => Some(v),
            None => if env[0].0 == k {
                Some(env[0].1)
            } else {
                None
            },
        }),
    decreases env.len(),
{
    if env.len() == 1 {
        assert(env.skip(1) =~= seq![]);
        assert(env.drop_last() =~= seq![]);
        assert(lookup(env.drop_last(), k) is None);
    } else {
        lemma_lookup_front(env.drop_last(), k);
        assert(env.drop_last().skip(1) =~= env.skip(1).drop_last());
    }
}

proof fn lemma_lookup_absent(env: Seq<(Seq<char>, Seq<char>)>, k: Seq<char>)
    requires
        forall|i: int| 0 <= i < env.len() ==> (#[trigger] env[i]).0 != k,
    ensures
        lookup(env, k) is None,
    decreases env.len(),
{
    if env.len() > 0 {
        assert(env.last() == env[env.len() - 1]);
        assert forall|i: int| 0 <= i < env.drop_last().len() implies (
        #[trigger] env.drop_last()[i]).0 != k by {
            assert(env.drop_last()[i] == env[i]);
        }
        lemma_lookup_absent(env.drop_last(), k);
    }
}

/// A command's environment is the inherited one, except that a variable which
/// the command sets has the value that it was set to last; and no variable
/// stands in it twice.
pub proof fn set_variables_win(
    inherited: Seq<(Seq<char>, Seq<char>)>,
    sets: Seq<(Seq<char>, Seq<char>)>,
    key: Seq<char>,
)
    requires
        distinct_keys(inherited),
    ensures
        distinct_keys(with_vars(inherited, sets)),
        lookup(with_vars(inherited, sets), key) == (match lookup(sets, key) {
            Some(v) => Some(v),
            None => lookup(inherited, key),
        }),
    decreases sets.len(),
{
    if sets.len() > 0 {
        set_variables_win(inherited, sets.drop_last(), key);
        lemma_with_var(
            with_vars(inherited, sets.drop_last()),
            sets.last().0,
            sets.last().1,
            key,
        );
    }
}

/// An argument without white space and quotes stands in the command line as it
/// is; every other one stands in quotes.
pub proof fn plain_arguments_stand_as_they_are(arg: Seq<char>, i: int)
    ensures
        arg.len() > 0 && (forall|j: int|
            0 <= j < arg.len() ==> !is_white(#[trigger] arg[j]) && arg[j] != '"') ==> quote(arg)
            == arg,
        arg.len() == 0 ==> quote(arg) == seq!['"', '"'],
        0 <= i < arg.len() && (is_white(arg[i]) || arg[i] == '"') ==> quote(arg).len() >= 2
            && quote(arg)[0] == '"' && quote(arg).last() == '"',
{
    if arg.len() == 0 {
        assert(backslashes(0) =~= seq![]);
        assert(quote(arg) =~= seq!['"', '"']);
    }
}

/// The whole command line is read as the program and its arguments.
pub proof fn a_command_line_is_read_as_the_command(program: Seq<char>, args: Seq<Seq<char>>)
    ensures
        read_args(command_line(program, args)) == seq![program] + args,
{
    let all = seq![program] + args;
    lemma_quoted_args_front(all);
    assert(all.skip(1) =~= args);
    arguments_survive_the_command_line(all);
    let line = quoted_args(all);
    assert(line =~= seq![' '] + command_line(program, args));
    assert(line.skip(1) =~= command_line(program, args));
}

proof fn lemma_utf16_concat(a: Seq<char>, b: Seq<char>)
    ensures
        utf16(a + b) == utf16(a) + utf16(b),
    decreases b.len(),
{
    if b.len() == 0 {
        assert(a + b =~= a);
        assert(utf16(a) + utf16(b) =~= utf16(a));
    } else {
        lemma_utf16_concat(a, b.drop_last());
        assert((a + b).drop_last() =~= a + b.drop_last());
        assert((a + b).last() == b.last());
        assert(utf16(a + b) =~= utf16(a) + utf16(b));
    }
}

/// A block holds its variables one after the other, each as the text
/// `key=value` with its zero, and ends with one more zero.
pub proof fn a_block_holds_its_variables(
    env: Seq<(Seq<char>, Seq<char>)>,
    key: Seq<char>,
    value: Seq<char>,
)
    ensures
        env_block(seq![]) == seq![0u16],
        env_block(env).last() == 0,
        env_block(env.push((key, value))) == env_block(env).drop_last() + wide_text(
            key + seq!['='] + value,
        ) + seq![0u16],
        wide_text(key).last() == 0,
        from_utf16(wide_text(key).drop_last()) == key,
{
    let more = env.push((key, value));
    assert(more.drop_last() =~= env);
    lemma_utf16_concat(key + seq!['='], value);
    lemma_utf16_concat(key, seq!['=']);
    assert(seq!['='].drop_last() =~= seq![]);
    assert(utf16(seq!['=']) =~= seq!['=' as u16]) by {
        assert(utf16(Seq::<char>::empty()) =~= seq![]);
        reveal_with_fuel(utf16, 2);
    }
    assert(env_block(env).drop_last() =~= env_entries(env));
    assert(env_block(more) =~= env_block(env).drop_last() + wide_text(key + seq!['='] + value)
        + seq![0u16]);
    assert(env_block(seq![]) =~= seq![0u16]);
    assert(wide_text(key).drop_last() =~= utf16(key));
    wide_text_comes_back(key);
}

/// A variable that is set stands once, in its old place where it had one, and
/// all others keep their places.
pub proof fn a_variable_keeps_its_place(
    before: Seq<(Seq<char>, Seq<char>)>,
    key: Seq<char>,
    old_value: Seq<char>,
    value: Seq<char>,
    after: Seq<(Seq<char>, Seq<char>)>,
)
    requires
        forall|i: int| 0 <= i < before.len() ==> (#[trigger] before[i]).0 != key,
    ensures
        with_var(before + seq![(key, old_value)] + after, key, value) == before + seq![(key, value)]
            + after,
        with_var(before, key, value) == before.push((key, value)),
    decreases before.len(),
{
    let all = before + seq![(key, old_value)] + after;
    if before.len() == 0 {
        assert(all[0] == (key, old_value));
        assert(all.skip(1) =~= after);
        assert(with_var(all, key, value) =~= before + seq![(key, value)] + after);
        assert(with_var(before, key, value) =~= before.push((key, value)));
    } else {
        let rest = before.skip(1);
        assert forall|i: int| 0 <= i < rest.len() implies (#[trigger] rest[i]).0 != key by {
            assert(rest[i] == before[i + 1]);
        }
        a_variable_keeps_its_place(rest, key, old_value, value, after);
        assert(all[0] == before[0]);
        assert(all.skip(1) =~= rest + seq![(key, old_value)] + after);
        assert(with_var(all, key, value) =~= before + seq![(key, value)] + after);
        assert(with_var(before, key, value) =~= before.push((key, value)));
    }
}

} // verus!
