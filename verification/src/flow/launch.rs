//! The last flow: what to make of the output of a starting dsh, until it
//! prints its URL, and of the way it ends.

use vstd::prelude::*;
use vstd::string::*;
use crate::message::{code_text, note1, note2, write_code, Message, MessageView};
use crate::platform::paths::{path_in2, Host};
use crate::platform::{cache_dir, join};
use crate::text::{
    all_white, chars_of, dec, dec_value, decimal, decimal_comes_back, is_white, occurs_at, opt_view,
    slice_of, trim, trimmed, white_space_around_a_text_is_trimmed,
};

verus! {

/// How long to wait for dsh to print its web URL, in milliseconds.
pub const URL_TIMEOUT: u64 = 120000;

/// How long to wait for a line before dsh is asked for whether it still lives,
/// in milliseconds.
pub const POLL_TICK: u64 = 500;

/// Path of the per-run dsh log file (truncated on every launch).
pub fn log_path(host: &Host) -> (r: String)
    ensures
        r@ == crate::platform::paths::path_in2(host.os, host@.cache_dir(), "dshl"@, "dsh.log"@),
{
    join(host.os, join(host.os, cache_dir(host).as_str(), "dshl").as_str(), "dsh.log")
}

// ---- the URL -------------------------------------------------------------

/// The part of a text that a regular expression matches: what
/// `regex::Regex::find` gives for the expression `pattern` on `text`, and
/// nothing for an expression that is not well formed.
pub uninterp spec fn regex_match(pattern: Seq<char>, text: Seq<char>) -> Option<Seq<char>>;

/// `regex::Regex::new` and `find` of the expression that it gives.
///
/// The result is a function of the two texts, named by [`regex_match`]: the
/// leftmost match. A match is a part of the text that was searched. What a
/// given expression matches is left to the regex crate.
#[verifier::external_body]
fn regex_find(pattern: &str, text: &str) -> (r: Option<String>)
    ensures
        opt_view(r) == regex_match(pattern@, text@),
        r matches Some(m) ==> exists|i: int| occurs_at(text@, m@, i),
{
    regex::Regex::new(pattern).ok()?.find(text).map(|m| m.as_str().to_string())
}

/// The expression for URLs with a port.
pub const URL_PATTERN: &'static str = "https?://[^\\s\"'<>]+:\\d+";

/// The first URL with a port in a line.
pub fn find_url(line: &str) -> (r: Option<String>)
    ensures
        opt_view(r) == regex_match(URL_PATTERN@, line@),
        r matches Some(url) ==> exists|i: int| occurs_at(line@, url@, i),
{
    regex_find(URL_PATTERN, line)
}

// ---- waiting for the URL -------------------------------------------------

/// The first characters of a detail, with an ellipsis where some are missing.
pub open spec fn truncated(detail: Seq<char>) -> Seq<char> {
    if detail.len() <= 200 {
        detail
    } else {
        detail.take(200).push('\u{2026}')
    }
}

/// Cap the echoed output tail so a pathological line cannot blow up the
/// startup-page error banner.
pub fn truncate_detail(detail: &str) -> (r: String)
    ensures
        r@ == truncated(detail@),
{
    let v = chars_of(detail);
    if v.len() <= 200 {
        detail.to_owned()
    } else {
        let mut r = slice_of(&v, 0, 200);
        assert(r@ =~= detail@.take(200));
        r.push('\u{2026}');
        r
    }
}

/// The exit code in words.
pub open spec fn exit_text(code: Option<i32>) -> Seq<char> {
    match code {
        Some(c) => code_text(c),
        None => "unknown"@,
    }
}

/// The error of a dsh that exited without printing a URL: its exit code, and
/// the last thing it said, if anything.
pub open spec fn early_exit(code: Option<i32>, last_line: Option<Seq<char>>) -> MessageView {
    match last_line {
        Some(detail) => note2(
            "flow.launch.early_exit_detail"@,
            "code"@,
            exit_text(code),
            "detail"@,
            truncated(detail),
        ),
        None => note1("flow.launch.early_exit"@, "code"@, exit_text(code)),
    }
}

/// The error of a dsh that lives but did not print a URL in time.
pub open spec fn url_timeout(budget: u64) -> MessageView {
    note1("flow.launch.url_timeout"@, "secs"@, dec((budget / 1000) as nat))
}

/// The wait for the URL: how long it may take, in milliseconds, and the last
/// line of output that was not blank.
#[derive(Debug)]
pub struct UrlWait {
    pub budget: u64,
    pub last_line: Option<String>,
}

/// How the wait goes on.
#[derive(Debug)]
pub enum Wait {
    /// Wait for the next line.
    Continue,
    /// dsh serves this URL.
    Ready(String),
    /// dsh failed to start.
    Failed(Message),
}

/// A wait as plain texts.
#[verifier::ext_equal]
pub enum WaitView {
    Continue,
    Ready(Seq<char>),
    Failed(MessageView),
}

impl View for Wait {
    type V = WaitView;

    open spec fn view(&self) -> WaitView {
        match self {
            Wait::Continue => WaitView::Continue,
            Wait::Ready(url) => WaitView::Ready(url@),
            Wait::Failed(message) => WaitView::Failed(message@),
        }
    }
}

/// The last thing that was said, after a line: blank lines say nothing.
pub open spec fn last_after(last: Option<Seq<char>>, line: Seq<char>) -> Option<Seq<char>> {
    if trimmed(line).len() > 0 {
        Some(trimmed(line))
    } else {
        last
    }
}

/// How the wait goes on after a line in which `url` is the URL, if there is
/// one: a URL ends the wait, whatever the time.
pub open spec fn after_line(url: Option<Seq<char>>, elapsed: u64, budget: u64) -> WaitView {
    match url {
        Some(u) => WaitView::Ready(u),
        None => if elapsed > budget {
            WaitView::Failed(url_timeout(budget))
        } else {
            WaitView::Continue
        },
    }
}

/// Whether the wait ends for lack of time, or goes on.
pub open spec fn is_timed(w: Wait, elapsed: u64, budget: u64) -> bool {
    if elapsed > budget {
        w matches Wait::Failed(m) && m@ == url_timeout(budget)
    } else {
        w is Continue
    }
}

impl UrlWait {
    /// A wait that has just begun.
    pub fn new(budget: u64) -> (r: UrlWait)
        ensures
            r.budget == budget,
            r.last_line is None,
    {
        UrlWait { budget, last_line: None }
    }

    fn failure(&self, code: Option<i32>) -> (r: Message)
        ensures
            r@ == early_exit(code, opt_view(self.last_line)),
    {
        let text = match code {
            Some(c) => write_code(c),
            None => "unknown".to_owned(),
        };
        match &self.last_line {
            Some(detail) => Message::with2(
                "flow.launch.early_exit_detail",
                "code",
                text.as_str(),
                "detail",
                truncate_detail(detail.as_str()).as_str(),
            ),
            None => Message::with1("flow.launch.early_exit", "code", text.as_str()),
        }
    }

    fn timed(&self, elapsed: u64) -> (r: Wait)
        ensures
            is_timed(r, elapsed, self.budget),
    {
        if elapsed > self.budget {
            Wait::Failed(
                Message::with1(
                    "flow.launch.url_timeout",
                    "secs",
                    decimal(self.budget / 1000).as_str(),
                ),
            )
        } else {
            Wait::Continue
        }
    }

    /// Takes in a line of output in which `url` is the URL, if there is one.
    ///
    /// What goes into the log is the line without the white space around it,
    /// unless it is blank. A URL ends the wait, whatever the time.
    pub fn take_line(&mut self, line: &str, url: Option<String>, elapsed: u64) -> (r: (
        Option<String>,
        Wait,
    ))
        ensures
            final(self).budget == old(self).budget,
            opt_view(r.0) == (if trimmed(line@).len() > 0 {
                Some(trimmed(line@))
            } else {
                None
            }),
            opt_view(final(self).last_line) == last_after(opt_view(old(self).last_line), line@),
            r.1@ == after_line(opt_view(url), elapsed, old(self).budget),
    {
        let text = trim(line);
        let said = if text.as_str().is_empty() {
            None
        } else {
            self.last_line = Some(text.clone());
            Some(text)
        };
        match url {
            Some(u) => (said, Wait::Ready(u)),
            None => {
                let w = self.timed(elapsed);
                (said, w)
            },
        }
    }

    /// Takes in a line of output.
    pub fn line(&mut self, line: &str, elapsed: u64) -> (r: (Option<String>, Wait))
        ensures
            final(self).budget == old(self).budget,
            opt_view(r.0) == (if trimmed(line@).len() > 0 {
                Some(trimmed(line@))
            } else {
                None
            }),
            opt_view(final(self).last_line) == last_after(opt_view(old(self).last_line), line@),
            r.1@ == after_line(regex_match(URL_PATTERN@, line@), elapsed, old(self).budget),
    {
        let url = find_url(line);
        self.take_line(line, url, elapsed)
    }

    /// The output is at its end: dsh exited without printing a URL.
    pub fn ended(&self, code: Option<i32>) -> (r: Wait)
        ensures
            r matches Wait::Failed(m) && m@ == early_exit(code, opt_view(self.last_line)),
    {
        Wait::Failed(self.failure(code))
    }

    /// No line came during a tick. Once the exit of dsh was noticed, the rest
    /// of its output is all there is to wait for. A dsh that is dead without
    /// that has failed, even though its output has not come to its end; one
    /// that lives is waited for until the time is up.
    pub fn quiet(&self, exited: bool, alive: bool, code: Option<i32>, elapsed: u64) -> (r: Wait)
        ensures
            if exited {
                r is Continue
            } else if !alive {
                r matches Wait::Failed(m) && m@ == early_exit(code, opt_view(self.last_line))
            } else {
                is_timed(r, elapsed, self.budget)
            },
    {
        if exited {
            Wait::Continue
        } else if !alive {
            Wait::Failed(self.failure(code))
        } else {
            self.timed(elapsed)
        }
    }
}

/// The wait never hangs: an outcome that depends on the time, be it of a line
/// or of a tick without one, is a failure once the time is up.
pub proof fn wait_for_the_url_ends(w: Wait, elapsed: u64, budget: u64)
    requires
        is_timed(w, elapsed, budget),
        elapsed > budget,
    ensures
        w is Failed,
        after_line(None, elapsed, budget) is Failed,
{
}

/// A run of lines, each with the time at which it came: what was said last, and
/// how the wait stands after the line that ended it, or after all of them.
pub open spec fn wait_of(
    lines: Seq<(Seq<char>, u64)>,
    last: Option<Seq<char>>,
    budget: u64,
) -> (Option<Seq<char>>, WaitView)
    decreases lines.len(),
{
    if lines.len() == 0 {
        (last, WaitView::Continue)
    } else {
        let line = lines[0].0;
        let outcome = after_line(regex_match(URL_PATTERN@, line), lines[0].1, budget);
        if outcome is Continue {
            wait_of(lines.skip(1), last_after(last, line), budget)
        } else {
            (last_after(last, line), outcome)
        }
    }
}

/// The last of some lines that is not blank, without the white space around it.
pub open spec fn last_said(lines: Seq<(Seq<char>, u64)>, last: Option<Seq<char>>) -> Option<
    Seq<char>,
>
    decreases lines.len(),
{
    if lines.len() == 0 {
        last
    } else if trimmed(lines.last().0).len() > 0 {
        Some(trimmed(lines.last().0))
    } else {
        last_said(lines.drop_last(), last)
    }
}

proof fn lemma_last_said(lines: Seq<(Seq<char>, u64)>, last: Option<Seq<char>>)
    requires
        lines.len() > 0,
    ensures
        last_said(lines, last) == last_said(lines.skip(1), last_after(last, lines[0].0)),
    decreases lines.len(),
{
    if lines.len() == 1 {
        reveal_with_fuel(last_said, 2);
        assert(lines.skip(1) =~= seq![]);
        assert(lines.drop_last() =~= seq![]);
    } else {
        assert(lines.skip(1).last() == lines.last());
        assert(lines.skip(1).drop_last() =~= lines.drop_last().skip(1));
        lemma_last_said(lines.drop_last(), last);
    }
}

/// Whether none of some lines holds a URL, and all came in time.
pub open spec fn all_without_url(lines: Seq<(Seq<char>, u64)>, budget: u64) -> bool {
    forall|i: int|
        0 <= i < lines.len() ==> regex_match(URL_PATTERN@, #[trigger] lines[i].0) is None
            && lines[i].1 <= budget
}

proof fn lemma_lines_without_url(
    lines: Seq<(Seq<char>, u64)>,
    more: Seq<(Seq<char>, u64)>,
    last: Option<Seq<char>>,
    budget: u64,
)
    requires
        all_without_url(lines, budget),
    ensures
        wait_of(lines + more, last, budget) == wait_of(more, last_said(lines, last), budget),
    decreases lines.len(),
{
    if lines.len() == 0 {
        assert(lines + more =~= more);
    } else {
        let whole = lines + more;
        let rest = lines.skip(1);
        assert(whole[0] == lines[0]);
        assert(whole.skip(1) =~= rest + more);
        assert forall|i: int| 0 <= i < rest.len() implies regex_match(
            URL_PATTERN@,
            #[trigger] rest[i].0,
        ) is None && rest[i].1 <= budget by {
            assert(rest[i] == lines[i + 1]);
        }
        lemma_lines_without_url(rest, more, last_after(last, lines[0].0), budget);
        lemma_last_said(lines, last);
    }
}

/// The first line with a URL ends the wait with that URL, whatever follows it
/// and however late it comes. The lines before it, if they came in time, leave
/// nothing behind but the last of them that is not blank.
pub proof fn the_first_url_ends_the_wait(
    before: Seq<(Seq<char>, u64)>,
    line: (Seq<char>, u64),
    after: Seq<(Seq<char>, u64)>,
    budget: u64,
)
    requires
        all_without_url(before, budget),
        regex_match(URL_PATTERN@, line.0) is Some,
    ensures
        wait_of(before, None, budget) == (last_said(before, None), WaitView::Continue),
        wait_of(before + (seq![line] + after), None, budget).1 == WaitView::Ready(
            regex_match(URL_PATTERN@, line.0)->0,
        ),
{
    let rest = seq![line] + after;
    lemma_lines_without_url(before, rest, None, budget);
    assert(rest[0] == line);
    lemma_lines_without_url(before, seq![], None, budget);
    assert(before + Seq::<(Seq<char>, u64)>::empty() =~= before);
}

/// The banner stays short: an echoed detail has at most one character more
/// than the cap, and a short one is echoed unchanged.
pub proof fn details_are_capped(detail: Seq<char>)
    ensures
        truncated(detail).len() <= 201,
        detail.len() <= 200 ==> truncated(detail) == detail,
        detail.len() > 200 ==> truncated(detail).take(200) == detail.take(200),
{
    if detail.len() > 200 {
        assert(truncated(detail).take(200) =~= detail.take(200));
    }
}

/// The message of the finished step.
pub fn ready_text(url: &str) -> (r: String)
    ensures
        r@ == "dsh web: "@ + url@,
{
    "dsh web: ".to_owned().concat(url)
}

// ---- the end of dsh ------------------------------------------------------

/// How the supervised dsh process ended.
#[derive(Debug, Clone, Copy, PartialEq, Eq, Structural)]
pub enum DshExit {
    /// dsh exited cleanly (code 0): the launcher shuts down as before.
    Clean,
    /// dsh exited unexpectedly: a non-zero exit code (e.g. a panic or an OS
    /// crash), or `-1` when it was killed by a signal / the code is unknown.
    Crash(i32),
}

/// How a supervised dsh ended, by its exit code.
pub open spec fn exit_kind(code: Option<i32>) -> DshExit {
    match code {
        Some(c) => if c == 0 {
            DshExit::Clean
        } else {
            DshExit::Crash(c)
        },
        None => DshExit::Crash((-1) as i32),
    }
}

/// How a supervised dsh ended, by its exit code. It has printed its URL before
/// that, so the exit code alone tells a clean end from a crash.
pub fn supervise(code: Option<i32>) -> (r: DshExit)
    ensures
        r == exit_kind(code),
{
    match code {
        Some(c) => if c == 0 {
            DshExit::Clean
        } else {
            DshExit::Crash(c)
        },
        None => DshExit::Crash(-1),
    }
}

// ---- laws ----------------------------------------------------------------

/// A line with a URL makes dsh ready with that URL at any time; a line without
/// one fails exactly where the time is over.
pub proof fn only_the_time_ends_a_wait_without_url(url: Seq<char>, elapsed: u64, budget: u64)
    ensures
        after_line(Some(url), elapsed, budget) == WaitView::Ready(url),
        elapsed <= budget ==> after_line(None, elapsed, budget) == WaitView::Continue,
        elapsed > budget ==> after_line(None, elapsed, budget) == WaitView::Failed(
            url_timeout(budget),
        ),
{
}

/// The time that is named when it is over is the whole seconds of the budget.
pub proof fn the_time_is_named_in_seconds(seconds: u64, rest: u64, budget: u64)
    requires
        rest < 1000,
        budget == 1000 * seconds + rest,
    ensures
        url_timeout(budget).key == "flow.launch.url_timeout"@,
        url_timeout(budget).args == seq![("secs"@, dec(seconds as nat))],
        dec_value(url_timeout(budget).args[0].1) == seconds,
{
    decimal_comes_back(seconds as nat);
    assert(budget / 1000 == seconds);
}

/// The last thing that was said is the last line that is not blank, without
/// the white space around it.
pub proof fn blank_lines_say_nothing(
    last: Option<Seq<char>>,
    before: Seq<char>,
    text: Seq<char>,
    after: Seq<char>,
)
    requires
        all_white(before),
        all_white(after),
        text.len() > 0 ==> !is_white(text[0]) && !is_white(text.last()),
    ensures
        last_after(last, before + text + after) == (if text.len() > 0 {
            Some(text)
        } else {
            last
        }),
{
    white_space_around_a_text_is_trimmed(before, text, after);
}

/// A dsh that exits early is reported with its exit code, and with the last
/// thing that it said, if there is one.
pub proof fn an_early_exit_is_explained(code: i32, detail: Seq<char>)
    ensures
        early_exit(Some(code), None).key == "flow.launch.early_exit"@,
        early_exit(Some(code), None).args == seq![("code"@, code_text(code))],
        early_exit(None, None).args == seq![("code"@, "unknown"@)],
        early_exit(Some(code), Some(detail)).key == "flow.launch.early_exit_detail"@,
        early_exit(Some(code), Some(detail)).args.contains(("code"@, code_text(code))),
        detail.len() <= 200 ==> early_exit(Some(code), Some(detail)).args.contains(
            ("detail"@, detail),
        ),
        detail.len() > 200 ==> ({
            let said = early_exit(Some(code), Some(detail)).args[1].1;
            &&& said.len() == 201
            &&& said.last() == '\u{2026}'
            &&& said.take(200) == detail.take(200)
        }),
        early_exit(None, Some(detail)).args.contains(("code"@, "unknown"@)),
{
    let full = early_exit(Some(code), Some(detail)).args;
    assert(full[0] == ("code"@, code_text(code)));
    assert(full[1] == ("detail"@, truncated(detail)));
    assert(early_exit(None, Some(detail)).args[0] == ("code"@, "unknown"@));
    details_are_capped(detail);
}

/// Only the exit code zero is a clean end; a crash is reported with its code,
/// and with -1 where there is none.
pub proof fn only_zero_is_a_clean_end(code: i32)
    ensures
        exit_kind(Some(0)) == DshExit::Clean,
        code != 0 ==> exit_kind(Some(code)) == DshExit::Crash(code),
        exit_kind(None) == DshExit::Crash((-1) as i32),
{
}

/// A wait that depends on the time goes on exactly as long as the budget is not
/// exceeded.
pub proof fn a_wait_goes_on_within_its_budget(w: Wait, m: Message, elapsed: u64, budget: u64)
    ensures
        is_timed(Wait::Continue, elapsed, budget) <==> elapsed <= budget,
        is_timed(Wait::Failed(m), elapsed, budget) <==> elapsed > budget && m@ == url_timeout(
            budget,
        ),
        is_timed(w, elapsed, budget) ==> !(w is Ready),
        is_timed(w, elapsed, budget) ==> w@ == after_line(None, elapsed, budget),
{
}

} // verus!
