//! The output of a running child: lines that wait to be read, and when there
//! will be no more of them.
//!
//! Completion is driven by the exit of the process, not by the end of its
//! pipes: a detached grandchild can inherit the write ends of the pipes and
//! keep them open after the process itself has exited.

use std::collections::VecDeque;
use vstd::prelude::*;
use crate::text::{trim_end, trimmed_end};

verus! {

/// One line of process output.
#[derive(Debug, PartialEq, Eq)]
pub enum Output {
    Stdout(String),
    Stderr(String),
}

/// A line as plain text, with whether it came from stdout.
pub struct OutputView {
    pub stdout: bool,
    pub line: Seq<char>,
}

impl View for Output {
    type V = OutputView;

    open spec fn view(&self) -> OutputView {
        match self {
            Output::Stdout(s) => OutputView { stdout: true, line: s@ },
            Output::Stderr(s) => OutputView { stdout: false, line: s@ },
        }
    }
}

impl Output {
    /// The text of the line.
    pub fn line(&self) -> (r: &str)
        ensures
            r@ == self@.line,
    {
        match self {
            Output::Stdout(s) => s.as_str(),
            Output::Stderr(s) => s.as_str(),
        }
    }
}

/// How long to keep waiting for the end of the pipes after the process has
/// exited before declaring the output finished anyway, in milliseconds.
///
/// Normal children close their pipes within milliseconds of exiting. What a
/// lingering grandchild writes is not the process's output.
pub const STREAM_GRACE: u64 = 1500;

/// The output of one child.
#[derive(Debug)]
pub struct Stream {
    lines: VecDeque<Output>,
    /// Exit code (`None` while running, or when there is none).
    code: Option<i32>,
    /// When the process exited, in milliseconds (`None` while running).
    exited_at: Option<u64>,
    /// The pipes that have not been read to their end.
    open: u8,
}

/// The output of one child, as plain texts.
#[verifier::ext_equal]
pub struct StreamView {
    pub lines: Seq<OutputView>,
    pub code: Option<i32>,
    pub exited_at: Option<u64>,
    pub open: nat,
}

/// What a reader gets.
#[derive(Debug, PartialEq, Eq)]
pub enum Polled {
    /// The next line.
    Line(Output),
    /// The process exited and all of its output has been read.
    Finished,
    /// Nothing yet.
    Pending,
}

impl StreamView {
    /// A child that has just been started.
    pub open spec fn fresh() -> StreamView {
        StreamView { lines: seq![], code: None, exited_at: None, open: 2 }
    }

    /// Whether no more output is to come at the time `now`: the process has
    /// exited, and its pipes are at their end or had their grace.
    pub open spec fn done(self, now: int) -> bool {
        match self.exited_at {
            None => false,
            Some(at) => self.open == 0 || now - at >= STREAM_GRACE,
        }
    }
}

/// What one event does to the output of a child.
pub enum StreamEvent {
    Line(OutputView),
    PipeEnd,
    Exit(Option<i32>, u64),
    /// The reader polls.
    Poll,
}

impl StreamView {
    /// The output after an event.
    pub open spec fn after(self, event: StreamEvent) -> StreamView {
        match event {
            StreamEvent::Line(l) => StreamView { lines: self.lines.push(l), ..self },
            StreamEvent::PipeEnd => StreamView {
                open: if self.open == 0 {
                    0
                } else {
                    (self.open - 1) as nat
                },
                ..self
            },
            StreamEvent::Exit(code, at) => StreamView { code, exited_at: Some(at), ..self },
            StreamEvent::Poll => if self.lines.len() > 0 {
                StreamView { lines: self.lines.skip(1), ..self }
            } else {
                self
            },
        }
    }
}

/// The contents of a list of output lines.
pub open spec fn output_views(list: Seq<Output>) -> Seq<OutputView> {
    list.map_values(|o: Output| o@)
}

impl Stream {
    pub closed spec fn parts(self) -> (Seq<OutputView>, Option<i32>, Option<u64>, nat) {
        (output_views(self.lines@), self.code, self.exited_at, self.open as nat)
    }
}

impl View for Stream {
    type V = StreamView;

    open spec fn view(&self) -> StreamView {
        let (lines, code, exited_at, open) = self.parts();
        StreamView { lines, code, exited_at, open }
    }
}

impl Stream {
    /// The output of a child that has just been started, with its two pipes.
    pub fn new() -> (r: Stream)
        ensures
            r@ == StreamView::fresh(),
    {
        let r = Stream { lines: VecDeque::new(), code: None, exited_at: None, open: 2 };
        assert(r@ =~= StreamView::fresh());
        r
    }

    /// Takes in one line as it was read, its line end included.
    pub fn feed_line(&mut self, line: &str, is_stdout: bool)
        ensures
            final(self)@ == old(self)@.after(
                StreamEvent::Line(OutputView { stdout: is_stdout, line: trimmed_end(line@) }),
            ),
    {
        let text = trim_end(line);
        let out = if is_stdout {
            Output::Stdout(text)
        } else {
            Output::Stderr(text)
        };
        self.lines.push_back(out);
        assert(self@.lines =~= old(self)@.lines.push(
            OutputView { stdout: is_stdout, line: trimmed_end(line@) },
        ));
    }

    /// One pipe is at its end.
    pub fn stream_done(&mut self)
        ensures
            final(self)@ == old(self)@.after(StreamEvent::PipeEnd),
    {
        if self.open > 0 {
            self.open = self.open - 1;
        }
    }

    /// The process exited at the time `now`.
    pub fn process_done(&mut self, code: Option<i32>, now: u64)
        ensures
            final(self)@ == old(self)@.after(StreamEvent::Exit(code, now)),
    {
        self.code = code;
        self.exited_at = Some(now);
    }

    /// Whether no more output is to come at the time `now`.
    pub fn done(&self, now: u64) -> (r: bool)
        ensures
            r == self@.done(now as int),
    {
        match self.exited_at {
            None => false,
            Some(at) => self.open == 0 || (now >= at && now - at >= STREAM_GRACE),
        }
    }

    /// The next line, in the order in which the lines came. The end of the
    /// output is reported only when all lines have been read.
    pub fn poll(&mut self, now: u64) -> (r: Polled)
        ensures
            final(self)@ == old(self)@.after(StreamEvent::Poll),
            if old(self)@.lines.len() > 0 {
                r matches Polled::Line(o) && o@ == old(self)@.lines[0]
            } else {
                r == (if old(self)@.done(now as int) {
                    Polled::Finished
                } else {
                    Polled::Pending
                })
            },
    {
        match self.lines.pop_front() {
            Some(line) => {
                assert(old(self)@.lines[0] == line@);
                assert(self@.lines =~= old(self)@.lines.skip(1));
                Polled::Line(line)
            },
            None => {
                assert(self@ =~= old(self)@);
                if self.done(now) {
                    Polled::Finished
                } else {
                    Polled::Pending
                }
            },
        }
    }

    /// Exit code once the process has finished (`None` while running).
    pub fn exit_code(&self) -> (r: Option<i32>)
        ensures
            r == self@.code,
    {
        self.code
    }

    /// True once the process itself has exited. Its output pipes may still be
    /// open, so this is weaker than the end of the output.
    pub fn has_exited(&self) -> (r: bool)
        ensures
            r == (self@.exited_at is Some),
    {
        self.exited_at.is_some()
    }
}

/// The lines that came in during some events, in their order.
pub open spec fn lines_in(events: Seq<StreamEvent>) -> Seq<OutputView>
    decreases events.len(),
{
    if events.len() == 0 {
        seq![]
    } else {
        let before = lines_in(events.drop_last());
        match events.last() {
            StreamEvent::Line(l) => before.push(l),
            _ => before,
        }
    }
}

/// The output of a fresh child after some events, and the lines that its
/// reader got during them.
pub open spec fn history(events: Seq<StreamEvent>) -> (StreamView, Seq<OutputView>)
    decreases events.len(),
{
    if events.len() == 0 {
        (StreamView::fresh(), seq![])
    } else {
        let (s, read) = history(events.drop_last());
        (
            s.after(events.last()),
            if events.last() is Poll && s.lines.len() > 0 {
                read.push(s.lines[0])
            } else {
                read
            },
        )
    }
}

/// No line is lost, doubled or moved: whatever happens to a child, what its
/// reader got so far, followed by what still waits, is what came in.
pub proof fn every_line_is_delivered_in_order(events: Seq<StreamEvent>)
    ensures
        history(events).1 + history(events).0.lines == lines_in(events),
    decreases events.len(),
{
    if events.len() > 0 {
        every_line_is_delivered_in_order(events.drop_last());
        let (s, read) = history(events.drop_last());
        let (t, got) = history(events);
        match events.last() {
            StreamEvent::Line(l) => {
                assert(got + t.lines =~= (read + s.lines).push(l));
            },
            StreamEvent::Poll => {
                if s.lines.len() > 0 {
                    assert(got + t.lines =~= read + s.lines);
                }
            },
            _ => {},
        }
    } else {
        assert(history(events).1 + history(events).0.lines =~= seq![]);
    }
}

/// A process that has exited is finished after the grace at the latest, even
/// if a grandchild keeps its pipes open; a running one never is.
pub proof fn output_ends_with_the_process(s: StreamView, now: int)
    ensures
        s.exited_at is None ==> !s.done(now),
        s.exited_at matches Some(at) ==> (now >= at + STREAM_GRACE ==> s.done(now)),
        s.exited_at is Some && s.open == 0 ==> s.done(now),
{
}

// ---- graceful stop -------------------------------------------------------

/// How long to wait before the stop signal is sent again, in milliseconds.
pub const RESEND_STOP: u64 = 5000;

/// How long (ms) dsh may take to stop before the launcher exits without it.
pub const EXIT_GRACE_MS: u64 = 30_000;

/// How long (ms) dsh may take to stop before it is started again.
pub const RETRY_GRACE_MS: u64 = 10_000;

/// A graceful stop under way: the child got the stop signal and has until the
/// end of its grace to exit by itself.
///
/// The child is never killed by force here: it commits its session log during
/// shutdown, and a forced kill could interrupt that write.
#[derive(Debug, Clone, Copy, PartialEq, Eq, Structural)]
pub struct GracefulStop {
    pub start: u64,
    pub last_stop: u64,
    pub grace: u64,
}

/// What to do next for a child that is being stopped.
#[derive(Debug, Clone, Copy, PartialEq, Eq, Structural)]
pub enum StopAction {
    /// The child has exited.
    Exited,
    /// The grace is over and the child still runs: it is left running.
    LeftRunning,
    /// Look again in half a second, after another stop signal if `resend`.
    Wait { resend: bool },
}

/// The time since `at`, none if the clock went back.
pub open spec fn since(now: u64, at: u64) -> int {
    if now >= at {
        now - at
    } else {
        0
    }
}

fn elapsed(now: u64, at: u64) -> (r: u64)
    ensures
        r == since(now, at),
{
    if now >= at {
        now - at
    } else {
        0
    }
}

impl GracefulStop {
    /// A stop whose first signal is sent at the time `now`.
    pub fn new(now: u64, grace_ms: u64) -> (r: GracefulStop)
        ensures
            r == (GracefulStop { start: now, last_stop: now, grace: grace_ms }),
    {
        GracefulStop { start: now, last_stop: now, grace: grace_ms }
    }

    pub open spec fn action(self, now: u64, alive: bool) -> StopAction {
        if !alive {
            StopAction::Exited
        } else if since(now, self.start) < self.grace {
            StopAction::Wait { resend: since(now, self.last_stop) >= RESEND_STOP }
        } else {
            StopAction::LeftRunning
        }
    }

    /// What to do at the time `now`, when the child is alive or not.
    pub fn tick(&mut self, now: u64, alive: bool) -> (r: StopAction)
        ensures
            r == old(self).action(now, alive),
            *final(self) == (GracefulStop {
                last_stop: if r == (StopAction::Wait { resend: true }) {
                    now
                } else {
                    old(self).last_stop
                },
                ..*old(self)
            }),
    {
        if !alive {
            return StopAction::Exited;
        }
        if elapsed(now, self.start) < self.grace {
            let resend = elapsed(now, self.last_stop) >= RESEND_STOP;
            if resend {
                self.last_stop = now;
            }
            StopAction::Wait { resend }
        } else {
            StopAction::LeftRunning
        }
    }
}

/// A stop does not wait forever: once the grace is over, or the child is gone,
/// it is decided.
pub proof fn a_stop_ends_with_the_grace(stop: GracefulStop, now: u64, alive: bool)
    requires
        !alive || since(now, stop.start) >= stop.grace,
    ensures
        stop.action(now, alive) == (if alive {
            StopAction::LeftRunning
        } else {
            StopAction::Exited
        }),
{
}

/// A child that lives is asked again: at the first look that comes as long as
/// the resend interval, or longer, after the last stop signal.
pub proof fn a_live_child_is_asked_again(stop: GracefulStop, now: u64)
    requires
        since(now, stop.start) < stop.grace,
        since(now, stop.last_stop) >= RESEND_STOP,
    ensures
        stop.action(now, true) == (StopAction::Wait { resend: true }),
{
}

/// The output of a process that has exited ends when both pipes are at their
/// end, and otherwise exactly one and a half seconds after the exit.
pub proof fn the_output_has_a_grace(s: StreamView, at: u64, code: Option<i32>, now: int)
    ensures
        s.after(StreamEvent::Exit(code, at)).open > 0 ==> (s.after(
            StreamEvent::Exit(code, at),
        ).done(now) <==> now >= at + 1500),
        StreamView::fresh().after(StreamEvent::PipeEnd).after(StreamEvent::PipeEnd).after(
            StreamEvent::Exit(code, at),
        ).done(now),
        !StreamView::fresh().after(StreamEvent::PipeEnd).after(
            StreamEvent::Exit(code, at),
        ).done(at as int),
{
}

/// An event changes what it is about and nothing else: a line adds itself, an
/// exit its code and time, the end of a pipe closes one, and a poll takes the
/// oldest line.
pub proof fn events_change_what_they_are_about(
    s: StreamView,
    l: OutputView,
    code: Option<i32>,
    at: u64,
)
    ensures
        ({
            let t = s.after(StreamEvent::Line(l));
            t.lines == s.lines.push(l) && t.code == s.code && t.exited_at == s.exited_at && t.open
                == s.open
        }),
        ({
            let t = s.after(StreamEvent::Exit(code, at));
            t.lines == s.lines && t.code == code && t.exited_at == Some(at) && t.open == s.open
        }),
        ({
            let t = s.after(StreamEvent::PipeEnd);
            &&& t.lines == s.lines && t.code == s.code && t.exited_at == s.exited_at
            &&& s.open > 0 ==> t.open == s.open - 1
            &&& s.open == 0 ==> t.open == 0
        }),
        ({
            let t = s.after(StreamEvent::Poll);
            &&& t.code == s.code && t.exited_at == s.exited_at && t.open == s.open
            &&& s.lines.len() > 0 ==> seq![s.lines[0]] + t.lines == s.lines
            &&& s.lines.len() == 0 ==> t.lines == s.lines
        }),
        StreamView::fresh().lines.len() == 0,
        StreamView::fresh().code is None,
        StreamView::fresh().exited_at is None,
        StreamView::fresh().open == 2,
{
    if s.lines.len() > 0 {
        assert(seq![s.lines[0]] + s.after(StreamEvent::Poll).lines =~= s.lines);
    }
}

/// A child that lives within its grace is waited for, and asked again exactly
/// where five seconds have passed since the last time; a clock that went back
/// lets no time pass.
pub proof fn a_live_child_is_waited_for(stop: GracefulStop, now: u64)
    requires
        stop.start <= now,
        now - stop.start < stop.grace,
    ensures
        stop.action(now, true) is Wait,
        stop.action(now, true) == (StopAction::Wait { resend: true }) <==> now >= stop.last_stop
            && now - stop.last_stop >= 5000,
        stop.action(now, false) == StopAction::Exited,
        forall|earlier: u64| #[trigger] since(earlier, now) >= 0 && (earlier <= now ==> since(
            earlier,
            now,
        ) == 0),
        since(now, stop.start) == now - stop.start,
{
}

} // verus!
