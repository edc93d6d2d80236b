//! What becomes of the launcher when a supervised dsh ends: it ends with it,
//! or it counts down and starts dsh again.

use vstd::prelude::*;
use super::launch::DshExit;
use crate::progress;
use crate::progress::{CrashState, State, StateView};

verus! {

/// The seconds until a crashed dsh is started again.
pub const CRASH_COUNTDOWN: u8 = 5;

/// The state after a supervised dsh ended: nothing is served any more, and
/// after a crash the page shows the banner.
pub open spec fn after_exit(state: StateView, exit: DshExit) -> StateView {
    match exit {
        DshExit::Clean => StateView { url: None, ..state },
        DshExit::Crash(code) => StateView {
            url: None,
            crash: Some(CrashState { code, countdown: CRASH_COUNTDOWN }),
            ..state
        },
    }
}

/// Takes the end of a supervised dsh: whether the launcher ends with it. It
/// does after a clean exit; after a crash the countdown begins.
pub fn ended(state: &mut State, exit: DshExit) -> (r: bool)
    ensures
        r == (exit == DshExit::Clean),
        final(state)@ == after_exit(old(state)@, exit),
{
    progress::clear_url(state);
    match exit {
        DshExit::Clean => true,
        DshExit::Crash(code) => {
            progress::set_crash(state, code, CRASH_COUNTDOWN);
            false
        },
    }
}

/// What the user does about the banner.
#[derive(Debug, Clone, Copy, PartialEq, Eq, Structural)]
pub enum Choice {
    /// Nothing.
    Wait,
    /// Restart now.
    Restart,
    /// Cancel the restart.
    Cancel,
}

/// How the recovery goes on.
#[derive(Debug, Clone, Copy, PartialEq, Eq, Structural)]
pub enum Recovery {
    /// Ask again in a second.
    Counting,
    /// Go through the whole start-up again.
    Restart,
    /// Stay on the startup page.
    Stopped,
}

/// The banner after one more second, and how the recovery goes on.
pub open spec fn after_second(crash: Option<CrashState>, choice: Choice) -> (
    Option<CrashState>,
    Recovery,
) {
    match crash {
        None => (None, Recovery::Stopped),
        Some(c) => match choice {
            Choice::Cancel => (None, Recovery::Stopped),
            Choice::Restart => (None, Recovery::Restart),
            Choice::Wait => if c.countdown > 1 {
                (
                    Some(CrashState { code: c.code, countdown: (c.countdown - 1) as u8 }),
                    Recovery::Counting,
                )
            } else {
                (None, Recovery::Restart)
            },
        },
    }
}

/// Lets one second of the countdown pass.
pub fn tick(state: &mut State, choice: Choice) -> (r: Recovery)
    ensures
        r == after_second(old(state)@.crash, choice).1,
        final(state)@ == (StateView {
            crash: after_second(old(state)@.crash, choice).0,
            ..old(state)@
        }),
{
    match state.crash {
        None => Recovery::Stopped,
        Some(c) => match choice {
            Choice::Cancel => {
                progress::set_crash_countdown(state, None);
                Recovery::Stopped
            },
            Choice::Restart => {
                progress::set_crash_countdown(state, None);
                Recovery::Restart
            },
            Choice::Wait => if c.countdown > 1 {
                progress::set_crash_countdown(state, Some(c.countdown - 1));
                Recovery::Counting
            } else {
                progress::set_crash_countdown(state, None);
                Recovery::Restart
            },
        },
    }
}

/// What the second number `n`, counted from one, brings when the user does
/// nothing.
pub open spec fn outcome(crash: Option<CrashState>, n: nat) -> Recovery
    decreases n,
{
    if n <= 1 {
        after_second(crash, Choice::Wait).1
    } else {
        outcome(after_second(crash, Choice::Wait).0, (n - 1) as nat)
    }
}

/// A crashed dsh is started again when the countdown is over, and not before.
pub proof fn a_crash_restarts_when_the_countdown_is_over(crash: CrashState, n: nat)
    requires
        crash.countdown >= 1,
        1 <= n <= crash.countdown,
    ensures
        outcome(Some(crash), n) == (if n == crash.countdown {
            Recovery::Restart
        } else {
            Recovery::Counting
        }),
    decreases n,
{
    if n > 1 {
        a_crash_restarts_when_the_countdown_is_over(
            CrashState { code: crash.code, countdown: (crash.countdown - 1) as u8 },
            (n - 1) as nat,
        );
    }
}

/// A restart that was cancelled does not come: the banner is gone, and
/// nothing that follows restarts dsh.
pub proof fn a_cancelled_restart_does_not_come(crash: Option<CrashState>, choice: Choice)
    ensures
        after_second(crash, Choice::Cancel) == (None::<CrashState>, Recovery::Stopped),
        after_second(after_second(crash, Choice::Cancel).0, choice).1 == Recovery::Stopped,
{
}

/// A clean exit is no crash: no banner appears where none was.
pub proof fn a_clean_exit_shows_no_banner(state: StateView)
    ensures
        after_exit(state, DshExit::Clean).crash == state.crash,
        after_exit(state, DshExit::Clean).url is None,
{
}

/// A crash shows the banner with its exit code and five seconds to go, and
/// nothing is served any more.
pub proof fn a_crash_shows_its_code(state: StateView, code: i32)
    ensures
        ({
            let after = after_exit(state, DshExit::Crash(code));
            &&& after.crash == Some(CrashState { code, countdown: 5 })
            &&& after.url is None
            &&& after.steps == state.steps
            &&& after.logs == state.logs
            &&& after.error == state.error
        }),
        after_exit(state, DshExit::Clean).steps == state.steps,
        after_exit(state, DshExit::Clean).logs == state.logs,
{
}

/// A second that passes takes one off the countdown and keeps the exit code;
/// the user can restart at once.
pub proof fn a_second_takes_one_off_the_countdown(crash: CrashState)
    ensures
        crash.countdown > 1 ==> (after_second(Some(crash), Choice::Wait).0 matches Some(c)
            && c.code == crash.code && c.countdown + 1 == crash.countdown),
        crash.countdown <= 1 ==> after_second(Some(crash), Choice::Wait) == (
            None::<CrashState>,
            Recovery::Restart,
        ),
        after_second(Some(crash), Choice::Restart) == (None::<CrashState>, Recovery::Restart),
        after_second(None, Choice::Restart).1 == Recovery::Stopped,
        after_second(None, Choice::Wait).1 == Recovery::Stopped,
{
}

} // verus!
