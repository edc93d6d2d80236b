//! The start-up flows, in the order in which they run:
//!
//! 1. [`system`]: OS / architecture.
//! 2. [`runtime_env`]: node/bun (and fnm/cargo/nvm) with the fallback chain.
//! 3. [`mirror_check`]: domestic-mirror decision (already resolved, reported here).
//! 4. [`prepare`]: make sure `dsh` is available (global or cache install) and
//!    build its launch command.
//! 5. [`launch`]: spawn `dsh` (managed), capture its URL.
//!
//! [`recovery`] is what follows when the `dsh` that was launched ends.

use vstd::prelude::*;
use crate::process::command::pair_views;
use crate::progress;
use crate::progress::{step_after, State, StateView, StepStatus, StepView};
use crate::text::views;

pub mod args;
pub mod launch;
pub mod mirror_check;
pub mod prepare;
pub mod recovery;
pub mod runtime_env;
pub mod system;

verus! {

/// One flow of the start-up.
#[derive(Debug, Clone, Copy, PartialEq, Eq, Structural)]
pub enum Flow {
    System,
    Runtime,
    Mirror,
    Dsh,
    Launch,
}

impl Flow {
    /// The id of the flow's step on the startup page.
    pub open spec fn name(self) -> Seq<char> {
        match self {
            Flow::System => "system"@,
            Flow::Runtime => "runtime"@,
            Flow::Mirror => "mirror"@,
            Flow::Dsh => "dsh"@,
            Flow::Launch => "launch"@,
        }
    }

    /// The flow that runs next; nothing follows the launch.
    pub open spec fn following(self) -> Option<Flow> {
        match self {
            Flow::System => Some(Flow::Runtime),
            Flow::Runtime => Some(Flow::Mirror),
            Flow::Mirror => Some(Flow::Dsh),
            Flow::Dsh => Some(Flow::Launch),
            Flow::Launch => None,
        }
    }

    /// The id of the flow's step on the startup page.
    pub fn id(self) -> (r: &'static str)
        ensures
            r@ == self.name(),
    {
        match self {
            Flow::System => "system",
            Flow::Runtime => "runtime",
            Flow::Mirror => "mirror",
            Flow::Dsh => "dsh",
            Flow::Launch => "launch",
        }
    }

    /// The flow that runs next.
    pub fn next(self) -> (r: Option<Flow>)
        ensures
            r == self.following(),
    {
        match self {
            Flow::System => Some(Flow::Runtime),
            Flow::Runtime => Some(Flow::Mirror),
            Flow::Mirror => Some(Flow::Dsh),
            Flow::Dsh => Some(Flow::Launch),
            Flow::Launch => None,
        }
    }
}

/// The steps of the startup page, in their order: the id and the key of the
/// title.
pub open spec fn step_list() -> Seq<(Seq<char>, Seq<char>)> {
    seq![
        ("system"@, "flow.steps.system"@),
        ("runtime"@, "flow.steps.runtime"@),
        ("mirror"@, "flow.steps.mirror"@),
        ("dsh"@, "flow.steps.dsh"@),
        ("launch"@, "flow.steps.launch"@),
    ]
}

/// Canonical step list shown in the startup UI (id, translation key).
pub fn steps() -> (r: Vec<(&'static str, &'static str)>)
    ensures
        r@.map_values(|p: (&'static str, &'static str)| (p.0@, p.1@)) == step_list(),
{
    let r = vec![
        ("system", "flow.steps.system"),
        ("runtime", "flow.steps.runtime"),
        ("mirror", "flow.steps.mirror"),
        ("dsh", "flow.steps.dsh"),
        ("launch", "flow.steps.launch"),
    ];
    assert(r@.map_values(|p: (&'static str, &'static str)| (p.0@, p.1@)) =~= step_list());
    r
}

/// The steps under their translated titles.
pub open spec fn titled(titles: Seq<Seq<char>>) -> Seq<(Seq<char>, Seq<char>)> {
    Seq::new(step_list().len(), |i: int| (step_list()[i].0, titles[i]))
}

/// Starts a run: all steps pending under their translated titles, and nothing
/// left of an earlier run.
pub fn begin(state: &mut State, titles: &Vec<String>)
    requires
        titles@.len() == 5,
    ensures
        final(state)@ == old(state)@.after_reset(titled(views(titles@))),
        final(state)@.wf(),
{
    let list = steps();
    let ghost named = list@.map_values(|p: (&'static str, &'static str)| (p.0@, p.1@));
    assert(named == step_list());
    let mut out: Vec<(String, String)> = Vec::new();
    let mut i: usize = 0;
    while i < list.len()
        invariant
            0 <= i <= list@.len(),
            list@.len() == 5,
            titles@.len() == 5,
            named == list@.map_values(|p: (&'static str, &'static str)| (p.0@, p.1@)),
            named == step_list(),
            pair_views(out@) == titled(views(titles@)).take(i as int),
        decreases list@.len() - i,
    {
        let ghost before = out@;
        assert(named[i as int].0 == list@[i as int].0@);
        let ghost step = (list@[i as int].0@, titles@[i as int]@);
        assert(titled(views(titles@))[i as int] == step);
        out.push((list[i].0.to_owned(), titles[i].clone()));
        assert(pair_views(out@) =~= pair_views(before).push(step));
        i += 1;
        assert(pair_views(out@) =~= titled(views(titles@)).take(i as int));
    }
    assert(titled(views(titles@)).take(i as int) =~= titled(views(titles@)));
    progress::reset(state, &out);
    progress::clear_error(state);
}

/// The state after a flow failed: its step shows the error, and so does the
/// page.
pub open spec fn failed(state: StateView, flow: Flow, error: Seq<char>) -> StateView {
    StateView {
        steps: state.steps.map_values(
            |s: StepView| step_after(s, flow.name(), StepStatus::Error, error),
        ),
        error: Some(error),
        ..state
    }
}

/// Takes the outcome of a flow: the flow to run next, or none when the launch
/// was the last or the flow failed.
///
/// A failed launch is reported by whoever supervises `dsh`; the page is left
/// as it is.
pub fn after(state: &mut State, flow: Flow, error: &Option<String>) -> (r: Option<Flow>)
    ensures
        error is None ==> r == flow.following() && final(state)@ == old(state)@,
        error is Some ==> r is None,
        error matches Some(e) ==> final(state)@ == (if flow == Flow::Launch {
            old(state)@
        } else {
            failed(old(state)@, flow, e@)
        }),
{
    match error {
        None => flow.next(),
        Some(e) => {
            match flow {
                Flow::Launch => {},
                Flow::System | Flow::Runtime | Flow::Mirror | Flow::Dsh => {
                    progress::step(state, flow.id(), StepStatus::Error, e.as_str());
                    progress::set_error(state, e.as_str());
                },
            }
            None
        },
    }
}

/// The flows that a run goes through from `flow` on, when none of them fails.
pub open spec fn flows_from(flow: Option<Flow>, fuel: nat) -> Seq<Flow>
    decreases fuel,
{
    match flow {
        Some(f) if fuel > 0 => seq![f] + flows_from(f.following(), (fuel - 1) as nat),
        _ => seq![],
    }
}

/// A run without failures goes through every step of the startup page once, in
/// the order in which the page shows them.
pub proof fn flows_run_in_the_order_of_the_steps(fuel: nat)
    requires
        fuel >= 5,
    ensures
        flows_from(Some(Flow::System), fuel).map_values(|f: Flow| f.name())
            == step_list().map_values(|p: (Seq<char>, Seq<char>)| p.0),
{
    reveal_with_fuel(flows_from, 6);
    assert(flows_from(None, (fuel - 5) as nat) =~= seq![]);
    assert(flows_from(Some(Flow::System), fuel) =~= seq![
        Flow::System,
        Flow::Runtime,
        Flow::Mirror,
        Flow::Dsh,
        Flow::Launch,
    ]);
    assert(flows_from(Some(Flow::System), fuel).map_values(|f: Flow| f.name())
        =~= step_list().map_values(|p: (Seq<char>, Seq<char>)| p.0));
}

/// A failed flow ends the run, and its error is what the page shows.
pub proof fn a_failure_is_shown(state: StateView, flow: Flow, error: Seq<char>, i: int)
    requires
        0 <= i < state.steps.len(),
        state.steps[i].id == flow.name(),
    ensures
        failed(state, flow, error).error == Some(error),
        failed(state, flow, error).steps[i].status == StepStatus::Error,
        failed(state, flow, error).steps[i].message == error,
        failed(state, flow, error).logs == state.logs,
{
}

/// A run shows its five steps under the given titles, each for its flow.
pub proof fn steps_are_shown_under_their_titles(titles: Seq<Seq<char>>, i: int)
    requires
        0 <= i < 5,
    ensures
        step_list().len() == 5,
        titled(titles).len() == 5,
        titled(titles)[i].0 == step_list()[i].0,
        titled(titles)[i].1 == titles[i],
        step_list()[i].1 == "flow.steps."@ + step_list()[i].0,
        step_list()[0].0 == Flow::System.name(),
        step_list()[1].0 == Flow::Runtime.name(),
        step_list()[2].0 == Flow::Mirror.name(),
        step_list()[3].0 == Flow::Dsh.name(),
        step_list()[4].0 == Flow::Launch.name(),
{
    reveal_strlit("flow.steps.");
    reveal_strlit("system");
    reveal_strlit("runtime");
    reveal_strlit("mirror");
    reveal_strlit("dsh");
    reveal_strlit("launch");
    reveal_strlit("flow.steps.system");
    reveal_strlit("flow.steps.runtime");
    reveal_strlit("flow.steps.mirror");
    reveal_strlit("flow.steps.dsh");
    reveal_strlit("flow.steps.launch");
    assert("flow.steps.system"@ =~= "flow.steps."@ + "system"@);
    assert("flow.steps.runtime"@ =~= "flow.steps."@ + "runtime"@);
    assert("flow.steps.mirror"@ =~= "flow.steps."@ + "mirror"@);
    assert("flow.steps.dsh"@ =~= "flow.steps."@ + "dsh"@);
    assert("flow.steps.launch"@ =~= "flow.steps."@ + "launch"@);
}

/// The flows are told apart by their names, and follow each other: the system,
/// the runtime, the mirrors, dsh, and its launch.
pub proof fn flows_follow_each_other(a: Flow, b: Flow)
    ensures
        a.name() == b.name() <==> a == b,
        Flow::System.following() == Some(Flow::Runtime),
        Flow::Runtime.following() == Some(Flow::Mirror),
        Flow::Mirror.following() == Some(Flow::Dsh),
        Flow::Dsh.following() == Some(Flow::Launch),
        Flow::Launch.following() is None,
{
    reveal_strlit("system");
    reveal_strlit("runtime");
    reveal_strlit("mirror");
    reveal_strlit("dsh");
    reveal_strlit("launch");
    assert("system"@[0] == 's' && "mirror"@[0] == 'm' && "launch"@[0] == 'l');
    assert("system"@.len() == 6 && "mirror"@.len() == 6 && "launch"@.len() == 6);
    assert("runtime"@.len() == 7 && "dsh"@.len() == 3);
}

/// A failure touches the step of its flow and the error of the page, and
/// nothing else.
pub proof fn a_failure_touches_nothing_else(
    state: StateView,
    flow: Flow,
    error: Seq<char>,
    i: int,
)
    requires
        0 <= i < state.steps.len(),
        state.steps[i].id != flow.name(),
    ensures
        ({
            let after = failed(state, flow, error);
            &&& after.steps.len() == state.steps.len()
            &&& after.steps[i] == state.steps[i]
            &&& after.url == state.url
            &&& after.crash == state.crash
            &&& after.stale_pid == state.stale_pid
            &&& after.config_path == state.config_path
            &&& after.config_json == state.config_json
            &&& after.config_error == state.config_error
        }),
{
}

} // verus!
