//! Progress and status of the start-up, as the startup page shows them.
//!
//! The flow writes into a [`State`]; the user interface reads it back.

use std::collections::VecDeque;
use vstd::prelude::*;
use crate::process::command::pair_views;
use crate::text::{opt_view, same, views};

verus! {

/// Status of a single startup step.
#[derive(Debug, Clone, Copy, PartialEq, Eq, Structural)]
pub enum StepStatus {
    Pending,
    Running,
    Done,
    Error,
    Skipped,
}

#[derive(Debug)]
pub struct Step {
    pub id: String,
    pub title: String,
    pub status: StepStatus,
    pub message: String,
}

/// Crash-recovery banner: while dsh exited unexpectedly and an auto-restart is
/// pending, the seconds until it restarts.
#[derive(Debug, Clone, Copy, PartialEq, Eq, Structural)]
pub struct CrashState {
    pub code: i32,
    pub countdown: u8,
}

/// Full UI snapshot.
#[derive(Debug)]
pub struct State {
    pub steps: Vec<Step>,
    pub logs: VecDeque<String>,
    pub error: Option<String>,
    pub url: Option<String>,
    pub config_path: String,
    pub config_json: String,
    pub config_error: Option<String>,
    /// PID of a stale dsh awaiting the user's confirmation to force-kill.
    pub stale_pid: Option<u32>,
    /// Crash-recovery banner (dsh exited unexpectedly, auto-restart pending).
    pub crash: Option<CrashState>,
}

/// The number of log lines that are kept.
pub const LOG_CAP: usize = 500;

/// A step as plain texts.
pub struct StepView {
    pub id: Seq<char>,
    pub title: Seq<char>,
    pub status: StepStatus,
    pub message: Seq<char>,
}

impl View for Step {
    type V = StepView;

    open spec fn view(&self) -> StepView {
        StepView { id: self.id@, title: self.title@, status: self.status, message: self.message@ }
    }
}

/// The contents of a list of steps.
pub open spec fn step_views(list: Seq<Step>) -> Seq<StepView> {
    list.map_values(|s: Step| s@)
}

/// A state as plain texts.
#[verifier::ext_equal]
pub struct StateView {
    pub steps: Seq<StepView>,
    pub logs: Seq<Seq<char>>,
    pub error: Option<Seq<char>>,
    pub url: Option<Seq<char>>,
    pub config_path: Seq<char>,
    pub config_json: Seq<char>,
    pub config_error: Option<Seq<char>>,
    pub stale_pid: Option<u32>,
    pub crash: Option<CrashState>,
}

impl View for State {
    type V = StateView;

    open spec fn view(&self) -> StateView {
        StateView {
            steps: step_views(self.steps@),
            logs: views(self.logs@),
            error: opt_view(self.error),
            url: opt_view(self.url),
            config_path: self.config_path@,
            config_json: self.config_json@,
            config_error: opt_view(self.config_error),
            stale_pid: self.stale_pid,
            crash: self.crash,
        }
    }
}

impl StateView {
    /// No more lines are kept than the cap allows.
    pub open spec fn wf(self) -> bool {
        self.logs.len() <= LOG_CAP
    }

    /// A state in which nothing has happened.
    pub open spec fn blank() -> StateView {
        StateView {
            steps: seq![],
            logs: seq![],
            error: None,
            url: None,
            config_path: seq![],
            config_json: seq![],
            config_error: None,
            stale_pid: None,
            crash: None,
        }
    }

    /// The state after a reset to the steps `(id, title)`: only what is known
    /// of the configuration stays.
    pub open spec fn after_reset(self, steps: Seq<(Seq<char>, Seq<char>)>) -> StateView {
        StateView {
            steps: steps.map_values(
                |p: (Seq<char>, Seq<char>)|
                    StepView {
                        id: p.0,
                        title: p.1,
                        status: StepStatus::Pending,
                        message: Seq::<char>::empty(),
                    },
            ),
            config_path: self.config_path,
            config_json: self.config_json,
            config_error: self.config_error,
            ..StateView::blank()
        }
    }
}

/// A step after the step `id` got a new status: changed if it is that step.
pub open spec fn step_after(
    step: StepView,
    id: Seq<char>,
    status: StepStatus,
    message: Seq<char>,
) -> StepView {
    if step.id == id {
        StepView { status, message, ..step }
    } else {
        step
    }
}

/// The log after one more line: the oldest line makes room at the cap.
pub open spec fn log_after(logs: Seq<Seq<char>>, line: Seq<char>) -> Seq<Seq<char>> {
    if logs.len() >= LOG_CAP {
        logs.skip(1).push(line)
    } else {
        logs.push(line)
    }
}

impl Default for State {
    fn default() -> (r: State)
        ensures
            r@ == StateView::blank(),
    {
        let r = State {
            steps: Vec::new(),
            logs: VecDeque::with_capacity(LOG_CAP),
            error: None,
            url: None,
            config_path: String::new(),
            config_json: String::new(),
            config_error: None,
            stale_pid: None,
            crash: None,
        };
        assert(r@ =~= StateView::blank());
        r
    }
}

/// Initialise the step list (id, title) and clear transient state.
pub fn reset(state: &mut State, steps: &Vec<(String, String)>)
    ensures
        final(state)@ == old(state)@.after_reset(pair_views(steps@)),
        final(state)@.wf(),
{
    let ghost want = old(state)@.after_reset(pair_views(steps@)).steps;
    let mut list: Vec<Step> = Vec::new();
    let mut i: usize = 0;
    while i < steps.len()
        invariant
            0 <= i <= steps@.len(),
            want == old(state)@.after_reset(pair_views(steps@)).steps,
            step_views(list@) == want.take(i as int),
        decreases steps@.len() - i,
    {
        let ghost before = list@;
        let step = Step {
            id: steps[i].0.clone(),
            title: steps[i].1.clone(),
            status: StepStatus::Pending,
            message: String::new(),
        };
        list.push(step);
        assert(pair_views(steps@)[i as int] == (steps@[i as int].0@, steps@[i as int].1@));
        assert(step@ == want[i as int]);
        assert(step_views(list@) =~= step_views(before).push(step@));
        i += 1;
        assert(step_views(list@) =~= want.take(i as int));
    }
    assert(want.take(i as int) =~= want);
    state.steps = list;
    state.logs.clear();
    state.error = None;
    state.url = None;
    state.stale_pid = None;
    state.crash = None;
    assert(state@ =~= old(state)@.after_reset(pair_views(steps@)));
}

/// Update a step's status/message.
pub fn step(state: &mut State, id: &str, status: StepStatus, message: &str)
    ensures
        final(state)@ == (StateView {
            steps: old(state)@.steps.map_values(|s: StepView| step_after(s, id@, status, message@)),
            ..old(state)@
        }),
{
    let ghost first = old(state)@.steps;
    let ghost want = first.map_values(|s: StepView| step_after(s, id@, status, message@));
    let mut i: usize = 0;
    while i < state.steps.len()
        invariant
            0 <= i <= state.steps@.len(),
            first == old(state)@.steps,
            want == first.map_values(|s: StepView| step_after(s, id@, status, message@)),
            state.steps@.len() == first.len(),
            forall|j: int| 0 <= j < i ==> #[trigger] state.steps@[j]@ == want[j],
            forall|j: int| i <= j < first.len() ==> #[trigger] state.steps@[j]@ == first[j],
            state@ == (StateView { steps: state@.steps, ..old(state)@ }),
        decreases state.steps@.len() - i,
    {
        let ghost now = *state;
        assert(state.steps@[i as int]@ == first[i as int]);
        if same(state.steps[i].id.as_str(), id) {
            let title = state.steps[i].title.clone();
            let changed = Step { id: id.to_owned(), title, status, message: message.to_owned() };
            assert(changed@ == want[i as int]);
            state.steps.set(i, changed);
            assert(state@ =~= (StateView { steps: state@.steps, ..now@ }));
        } else {
            assert(state.steps@[i as int]@ == want[i as int]);
        }
        i += 1;
    }
    assert(state@.steps =~= want);
}

/// Append a log line (capped).
pub fn log(state: &mut State, line: &str)
    ensures
        final(state)@ == (StateView { logs: log_after(old(state)@.logs, line@), ..old(state)@ }),
        old(state)@.wf() ==> final(state)@.wf(),
{
    if state.logs.len() >= LOG_CAP {
        let _ = state.logs.pop_front();
    }
    state.logs.push_back(line.to_owned());
    assert(state@.logs =~= log_after(old(state)@.logs, line@));
}

/// Set a fatal/blocking error (rendered prominently in the UI).
pub fn set_error(state: &mut State, message: &str)
    ensures
        final(state)@ == (StateView { error: Some(message@), ..old(state)@ }),
{
    state.error = Some(message.to_owned());
}

/// Record the PID of a stale dsh awaiting user confirmation to force-kill.
pub fn set_stale_pid(state: &mut State, pid: Option<u32>)
    ensures
        final(state)@ == (StateView { stale_pid: pid, ..old(state)@ }),
{
    state.stale_pid = pid;
}

/// Set the crash-recovery banner: dsh exited unexpectedly and will be
/// auto-restarted after `countdown` seconds (unless the user cancels).
pub fn set_crash(state: &mut State, code: i32, countdown: u8)
    ensures
        final(state)@ == (StateView {
            crash: Some(CrashState { code, countdown }),
            ..old(state)@
        }),
{
    state.crash = Some(CrashState { code, countdown });
}

/// The banner with a new countdown; without one it ends.
pub open spec fn crash_after(crash: Option<CrashState>, countdown: Option<u8>) -> Option<
    CrashState,
> {
    match (crash, countdown) {
        (Some(c), Some(secs)) => Some(CrashState { countdown: secs, ..c }),
        _ => None,
    }
}

/// Update the remaining countdown (`None` ends the banner).
pub fn set_crash_countdown(state: &mut State, countdown: Option<u8>)
    ensures
        final(state)@ == (StateView {
            crash: crash_after(old(state)@.crash, countdown),
            ..old(state)@
        }),
{
    if let Some(crash) = state.crash {
        state.crash = match countdown {
            Some(secs) => Some(CrashState { code: crash.code, countdown: secs }),
            None => None,
        };
    }
}

pub fn clear_error(state: &mut State)
    ensures
        final(state)@ == (StateView { error: None, ..old(state)@ }),
{
    state.error = None;
}

pub fn set_url(state: &mut State, url: &str)
    ensures
        final(state)@ == (StateView { url: Some(url@), ..old(state)@ }),
{
    state.url = Some(url.to_owned());
}

/// Clear the dsh URL (e.g. when dsh exited: nothing is "running" anymore).
pub fn clear_url(state: &mut State)
    ensures
        final(state)@ == (StateView { url: None, ..old(state)@ }),
{
    state.url = None;
}

/// Record the resolved config for display / config control.
pub fn set_config(state: &mut State, config_json: String, path: String, error: Option<String>)
    ensures
        final(state)@ == (StateView {
            config_json: config_json@,
            config_path: path@,
            config_error: opt_view(error),
            ..old(state)@
        }),
{
    state.config_json = config_json;
    state.config_path = path;
    state.config_error = error;
}

fn clone_opt(s: &Option<String>) -> (r: Option<String>)
    ensures
        opt_view(r) == opt_view(*s),
{
    match s {
        Some(s) => Some(s.clone()),
        None => None,
    }
}

fn clone_steps(steps: &Vec<Step>) -> (r: Vec<Step>)
    ensures
        step_views(r@) == step_views(steps@),
{
    let ghost all = step_views(steps@);
    let mut out: Vec<Step> = Vec::new();
    let mut i: usize = 0;
    while i < steps.len()
        invariant
            0 <= i <= steps@.len(),
            all == step_views(steps@),
            step_views(out@) == all.take(i as int),
        decreases steps@.len() - i,
    {
        let ghost before = out@;
        let s = &steps[i];
        let copy = Step {
            id: s.id.clone(),
            title: s.title.clone(),
            status: s.status,
            message: s.message.clone(),
        };
        assert(copy@ == all[i as int]);
        out.push(copy);
        assert(step_views(out@) =~= step_views(before).push(copy@));
        i += 1;
        assert(step_views(out@) =~= all.take(i as int));
    }
    assert(all.take(i as int) =~= all);
    out
}

/// Clone the current state.
pub fn snapshot(state: &State) -> (r: State)
    ensures
        r@ == state@,
{
    let r = State {
        steps: clone_steps(&state.steps),
        logs: state.logs.clone(),
        error: clone_opt(&state.error),
        url: clone_opt(&state.url),
        config_path: state.config_path.clone(),
        config_json: state.config_json.clone(),
        config_error: clone_opt(&state.config_error),
        stale_pid: state.stale_pid,
        crash: state.crash,
    };
    assert(r@.logs =~= state@.logs);
    r
}

/// The log after several more lines, in their order.
pub open spec fn log_after_all(logs: Seq<Seq<char>>, lines: Seq<Seq<char>>) -> Seq<Seq<char>>
    decreases lines.len(),
{
    if lines.len() == 0 {
        logs
    } else {
        log_after(log_after_all(logs, lines.drop_last()), lines.last())
    }
}

/// The log keeps the newest lines: of everything that was ever logged, in its
/// order, the last ones up to the cap.
pub proof fn log_keeps_the_newest_lines(logs: Seq<Seq<char>>, lines: Seq<Seq<char>>)
    requires
        logs.len() <= LOG_CAP,
    ensures
        ({
            let all = logs + lines;
            log_after_all(logs, lines) == if all.len() > LOG_CAP {
                all.skip(all.len() - LOG_CAP)
            } else {
                all
            }
        }),
    decreases lines.len(),
{
    let all = logs + lines;
    if lines.len() == 0 {
        assert(all =~= logs);
    } else {
        log_keeps_the_newest_lines(logs, lines.drop_last());
        let before = logs + lines.drop_last();
        assert(all =~= before.push(lines.last()));
        if all.len() > LOG_CAP {
            assert(log_after_all(logs, lines) =~= all.skip(all.len() - LOG_CAP));
        } else {
            assert(log_after_all(logs, lines) =~= all);
        }
    }
}

/// A retry starts from a clean page: after a reset no step is under way, and
/// neither an error, a URL, a stale process nor a crash is left.
pub proof fn reset_clears_what_a_run_left(before: StateView, steps: Seq<(Seq<char>, Seq<char>)>)
    ensures
        before.after_reset(steps).error is None,
        before.after_reset(steps).url is None,
        before.after_reset(steps).stale_pid is None,
        before.after_reset(steps).crash is None,
        before.after_reset(steps).logs.len() == 0,
        forall|i: int|
            0 <= i < steps.len() ==> (#[trigger] before.after_reset(steps).steps[i]).status
                == StepStatus::Pending,
{
}

/// The log never holds more than 500 lines, and the newest one is its last.
pub proof fn the_newest_line_is_the_last(logs: Seq<Seq<char>>, line: Seq<char>)
    requires
        logs.len() <= 500,
    ensures
        log_after(logs, line).last() == line,
        log_after(logs, line).len() <= 500,
        logs.len() < 500 ==> log_after(logs, line).drop_last() == logs,
        logs.len() == 500 ==> log_after(logs, line).drop_last() == logs.skip(1),
{
    if logs.len() < 500 {
        assert(log_after(logs, line).drop_last() =~= logs);
    } else {
        assert(log_after(logs, line).drop_last() =~= logs.skip(1));
    }
}

/// A new status changes the step that it is for and nothing of it but the
/// status and the message; all other steps stay as they are.
pub proof fn a_status_is_that_of_its_step(
    step: StepView,
    id: Seq<char>,
    status: StepStatus,
    message: Seq<char>,
)
    ensures
        ({
            let after = step_after(step, id, status, message);
            &&& after.id == step.id
            &&& after.title == step.title
            &&& step.id == id ==> after.status == status && after.message == message
            &&& step.id != id ==> after == step
        }),
{
}

/// A reset keeps what is known of the configuration and lists the given steps
/// under their names.
pub proof fn reset_keeps_the_configuration(before: StateView, steps: Seq<(Seq<char>, Seq<char>)>)
    ensures
        ({
            let after = before.after_reset(steps);
            &&& after.config_path == before.config_path
            &&& after.config_json == before.config_json
            &&& after.config_error == before.config_error
            &&& after.steps.len() == steps.len()
            &&& forall|i: int|
                0 <= i < steps.len() ==> (#[trigger] after.steps[i]).id == steps[i].0
                    && after.steps[i].title == steps[i].1 && after.steps[i].message.len() == 0
        }),
{
}

/// A new countdown keeps the exit code, no countdown ends the banner, and a
/// countdown alone starts none.
pub proof fn a_countdown_keeps_the_exit_code(crash: CrashState, seconds: u8)
    ensures
        crash_after(Some(crash), Some(seconds)) == Some(
            CrashState { code: crash.code, countdown: seconds },
        ),
        crash_after(Some(crash), None) is None,
        crash_after(None, Some(seconds)) is None,
{
}

/// A blank state holds nothing.
pub proof fn a_blank_state_is_empty()
    ensures
        StateView::blank().wf(),
        StateView::blank().steps.len() == 0,
        StateView::blank().logs.len() == 0,
        StateView::blank().error is None,
        StateView::blank().url is None,
        StateView::blank().config_path.len() == 0,
        StateView::blank().config_json.len() == 0,
        StateView::blank().config_error is None,
        StateView::blank().stale_pid is None,
        StateView::blank().crash is None,
{
}

} // verus!
