//! The second flow: check the JS/TS runtime (node/bun/nub) and assemble
//! whatever is missing.
//!
//! * The existing environment is respected: a system node that is recent
//!   enough is used as it is and never reinstalled.
//! * With `pm = "nub"` and a configured npm mirror, nub provides node first;
//!   if that fails, the chain of [`crate::install::node`] takes over.
//! * Otherwise that chain is used directly.

use vstd::prelude::*;
use vstd::string::*;
use crate::config::{Config, MirrorMode, Pm};
use crate::install::node::{node_min, node_min_version, usable_dir};
use crate::install::runtime::{Runtime, RuntimeView};
use crate::message::{note, note1, Line, LineView, Message};
use crate::mirror::{MirrorConfig, MirrorView};
use crate::platform::path::{lists, lists_path, same_path};
use crate::platform::paths::{dir_of, or_empty, parent, path_in3, Host, HostView};
use crate::platform::{bin_dir, cache_dir, join, Os};
use crate::probe::Tool;
use crate::text::{chars_of, extend, opt_view, trim, trimmed, views};
use crate::version::core_less;

verus! {

/// A tool in words: its version, or what it printed, or that it is unknown, and
/// where it is.
pub open spec fn description(t: Tool) -> LineView {
    let place = " @ "@ + or_empty(opt_view(t.path));
    if !t.found {
        LineView::Note(note("flow.runtime.not_installed"@))
    } else {
        match t.version {
            Some(v) => LineView::Text(v.text() + place),
            None => if t.raw@.len() > 0 {
                LineView::Text("("@ + trimmed(t.raw@) + ")"@ + place)
            } else {
                LineView::Around(
                    Seq::<char>::empty(),
                    note("flow.runtime.version_unknown"@),
                    place,
                )
            },
        }
    }
}

/// A tool in words.
pub fn describe(t: &Tool) -> (r: Line)
    ensures
        r@ == description(*t),
{
    if !t.found {
        return Line::Note(Message::new("flow.runtime.not_installed"));
    }
    let mut place = " @ ".to_owned();
    if let Some(path) = &t.path {
        place.append(path.as_str());
    }
    assert(place@ =~= " @ "@ + or_empty(opt_view(t.path)));
    let r = match t.version {
        Some(v) => Line::Text(v.to_text().concat(place.as_str())),
        None => if !t.raw.as_str().is_empty() {
            let raw = trim(t.raw.as_str());
            Line::Text("(".to_owned().concat(raw.as_str()).concat(")").concat(place.as_str()))
        } else {
            Line::Around(String::new(), Message::new("flow.runtime.version_unknown"), place)
        },
    };
    assert(r@ =~= description(*t));
    r
}

/// A text with spaces behind it, up to a width of five.
pub open spec fn padded(name: Seq<char>) -> Seq<char> {
    if name.len() >= 5 {
        name
    } else {
        name + Seq::new((5 - name.len()) as nat, |i: int| ' ')
    }
}

/// A line with a text in front of it.
pub open spec fn behind(text: Seq<char>, line: LineView) -> LineView {
    match line {
        LineView::Text(t) => LineView::Text(text + t),
        LineView::Note(m) => LineView::Around(text, m, Seq::<char>::empty()),
        LineView::Around(before, m, after) => LineView::Around(text + before, m, after),
    }
}

/// A tool in words under its name, for the log.
pub fn report(t: &Tool) -> (r: Line)
    ensures
        r@ == behind(padded(t.name@) + ": "@, description(*t)),
{
    let mut text = t.name.to_owned();
    let len: usize = chars_of(t.name).len();
    let mut i: usize = len;
    while i < 5
        invariant
            len == t.name@.len(),
            len <= i,
            i <= 5 || i == len,
            text@ == t.name@ + Seq::new((i - len) as nat, |k: int| ' '),
        decreases 5 - i,
    {
        text.push(' ');
        i += 1;
        assert(text@ =~= t.name@ + Seq::new((i - len) as nat, |k: int| ' '));
    }
    assert(text@ =~= padded(t.name@));
    text.append(": ");
    let r = match describe(t) {
        Line::Text(said) => Line::Text(text.concat(said.as_str())),
        Line::Note(message) => Line::Around(text, message, String::new()),
        Line::Around(before, message, after) => Line::Around(
            text.concat(before.as_str()),
            message,
            after,
        ),
    };
    assert(r@ =~= behind(padded(t.name@) + ": "@, description(*t)));
    r
}

/// The tools that are looked for, in the order in which they are reported:
/// pnpm and nub only when the configuration asks for them.
pub open spec fn probed_names(pm: Pm) -> Seq<Seq<char>> {
    seq!["node"@, "bun"@] + (if pm == Pm::Pnpm {
        seq!["pnpm"@]
    } else {
        seq![]
    }) + (if pm == Pm::Nub {
        seq!["nub"@]
    } else {
        seq![]
    }) + seq!["fnm"@, "cargo"@, "nvm"@]
}

/// The tools that are looked for, in the order in which they are reported.
pub fn names(config: &Config) -> (r: Vec<&'static str>)
    ensures
        r@.map_values(|s: &'static str| s@) == probed_names(config.dsh.pm),
{
    let mut v: Vec<&'static str> = Vec::new();
    v.push("node");
    v.push("bun");
    if config.dsh.needs_pnpm() {
        v.push("pnpm");
    }
    if config.dsh.needs_nub() {
        v.push("nub");
    }
    v.push("fnm");
    v.push("cargo");
    v.push("nvm");
    assert(v@.map_values(|s: &'static str| s@) =~= probed_names(config.dsh.pm));
    v
}

// ---- node ----------------------------------------------------------------

/// Where node comes from.
#[derive(Debug)]
pub enum NodeSource {
    /// The system's own, in this directory.
    System(String),
    /// nub is asked to provide it; if it fails, the chain takes over.
    Nub,
    /// The chain of installers.
    Chain,
}

/// Whether node comes from where it should.
pub open spec fn is_node_source(
    r: NodeSource,
    os: Os,
    pm: Pm,
    mirror: MirrorView,
    node: Tool,
    nub_at_hand: bool,
) -> bool {
    match usable_dir(os, node) {
        Some(dir) => r matches NodeSource::System(d) && d@ == dir,
        None => if pm == Pm::Nub && mirror.used(mirror.npm) is Some && nub_at_hand {
            r is Nub
        } else {
            r is Chain
        },
    }
}

/// Where node comes from, given the system's own and whether a nub is at hand:
/// installed by dshl, or the user's own.
pub fn node_source(
    os: Os,
    config: &Config,
    mirror: &MirrorConfig,
    node: &Tool,
    nub_at_hand: bool,
) -> (r: NodeSource)
    ensures
        is_node_source(r, os, config.dsh.pm, mirror@, *node, nub_at_hand),
{
    let mut dir: Option<String> = None;
    if node.found {
        if let Some(v) = node.version {
            if v.at_least(&node_min()) {
                if let Some(path) = &node.path {
                    dir = parent(os, path.as_str());
                }
            }
        }
    }
    match dir {
        Some(d) => NodeSource::System(d),
        None => if config.dsh.needs_nub() && mirror.enabled() && mirror.npm.is_some()
            && nub_at_hand {
            NodeSource::Nub
        } else {
            NodeSource::Chain
        },
    }
}

// ---- assembling ----------------------------------------------------------

/// The directories into which dshl may have installed fnm.
pub open spec fn fnm_dirs_of(host: HostView) -> Seq<Seq<char>> {
    seq![
        path_in3(host.os, host.cache_dir(), "dshl"@, "fnm-cargo"@, "bin"@),
        host.bin_dir(),
    ]
}

/// The directories into which dshl may have installed fnm.
pub fn fnm_dirs(host: &Host) -> (r: Vec<String>)
    ensures
        views(r@) == fnm_dirs_of(host@),
{
    let os = host.os;
    let mut v: Vec<String> = Vec::new();
    let dshl = join(os, cache_dir(host).as_str(), "dshl");
    v.push(join(os, join(os, dshl.as_str(), "fnm-cargo").as_str(), "bin"));
    v.push(bin_dir(host));
    assert(views(v@) =~= fnm_dirs_of(host@));
    v
}

/// A list with the directories that exist and are not in it yet, in their
/// order.
pub open spec fn with_existing(
    os: Os,
    list: Seq<Seq<char>>,
    dirs: Seq<Seq<char>>,
    exists_flags: Seq<bool>,
) -> Seq<Seq<char>>
    decreases dirs.len(),
{
    if dirs.len() == 0 {
        list
    } else {
        let i = dirs.len() - 1;
        let before = with_existing(os, list, dirs.drop_last(), exists_flags);
        if i < exists_flags.len() && exists_flags[i] && !lists_path(os, before, dirs.last()) {
            before.push(dirs.last())
        } else {
            before
        }
    }
}

fn push_existing(os: Os, list: &mut Vec<String>, dirs: &Vec<String>, exists_flags: &Vec<bool>)
    ensures
        views(final(list)@) == with_existing(os, views(old(list)@), views(dirs@), exists_flags@),
{
    let ghost all = views(dirs@);
    let mut i: usize = 0;
    assert(all.take(0) =~= seq![]);
    while i < dirs.len()
        invariant
            0 <= i <= dirs@.len(),
            all == views(dirs@),
            views(list@) == with_existing(os, views(old(list)@), all.take(i as int), exists_flags@),
        decreases dirs@.len() - i,
    {
        let ghost before = list@;
        assert(all.take(i + 1).drop_last() =~= all.take(i as int));
        assert(all.take(i + 1).last() == dirs@[i as int]@);
        if i < exists_flags.len() && exists_flags[i] && !lists(os, list, dirs[i].as_str()) {
            list.push(dirs[i].clone());
            assert(views(list@) =~= views(before).push(dirs@[i as int]@));
        }
        i += 1;
    }
    assert(all.take(i as int) =~= all);
}

/// The runtime: node, bun, and on `PATH` behind them pnpm's directories, nub's
/// own, and those with an fnm of dshl's that exist.
pub open spec fn runtime_of(
    node_dir: Seq<char>,
    bun_dir: Option<Seq<char>>,
    pnpm_dirs: Seq<Seq<char>>,
    nub_dirs: Seq<Seq<char>>,
    host: HostView,
    is_dir: Seq<bool>,
) -> RuntimeView {
    RuntimeView {
        node_dir: Some(node_dir),
        bun_dir,
        extra_path: with_existing(host.os, pnpm_dirs + nub_dirs, fnm_dirs_of(host), is_dir),
    }
}

/// Assembles the runtime; `is_dir` tells which of the [`fnm_dirs`] exist.
pub fn assemble(
    node_dir: String,
    bun_dir: Option<String>,
    pnpm_dirs: Vec<String>,
    nub_dirs: &Vec<String>,
    host: &Host,
    is_dir: &Vec<bool>,
) -> (r: Runtime)
    ensures
        r@ == runtime_of(
            node_dir@,
            opt_view(bun_dir),
            views(pnpm_dirs@),
            views(nub_dirs@),
            host@,
            is_dir@,
        ),
{
    let mut extra_path = pnpm_dirs;
    extend(&mut extra_path, nub_dirs);
    push_existing(host.os, &mut extra_path, &fnm_dirs(host), is_dir);
    Runtime { node_dir: Some(node_dir), bun_dir, extra_path }
}

// ---- the whole flow ------------------------------------------------------

/// Where the flow stands, once the tools have been looked for.
#[derive(Debug, Clone, Copy, PartialEq, Eq, Structural)]
pub enum RuntimeStage {
    /// Make sure of nub, and report it with [`RuntimeFlow::nub`].
    Nub,
    /// Ask nub for node, and report it with [`RuntimeFlow::from_nub`].
    NodeFromNub,
    /// Use the chain of installers for node, and report it with
    /// [`RuntimeFlow::chain`].
    Chain,
    /// Make sure of bun, and report it with [`RuntimeFlow::bun`].
    Bun,
    /// Make sure of pnpm, and report it with [`RuntimeFlow::pnpm`].
    Pnpm,
    /// All is there: [`RuntimeFlow::runtime`] assembles it.
    Ready,
    /// Something is missing that dsh needs.
    Failed,
}

/// The flow: what has been found or installed so far.
#[derive(Debug)]
pub struct RuntimeFlow {
    pub stage: RuntimeStage,
    pub node_dir: Option<String>,
    pub bun_dir: Option<String>,
    pub pnpm_dirs: Vec<String>,
    pub nub_dirs: Vec<String>,
    /// Why the flow failed.
    pub error: Option<String>,
}

/// The stage once it is known where node comes from.
pub open spec fn node_stage(
    os: Os,
    pm: Pm,
    mirror: MirrorView,
    node: Tool,
    nub_at_hand: bool,
) -> RuntimeStage {
    if usable_dir(os, node) is Some {
        RuntimeStage::Bun
    } else if pm == Pm::Nub && mirror.used(mirror.npm) is Some && nub_at_hand {
        RuntimeStage::NodeFromNub
    } else {
        RuntimeStage::Chain
    }
}

/// The stage once nub was asked for node.
pub open spec fn after_from_nub(provided: bool) -> RuntimeStage {
    if provided {
        RuntimeStage::Bun
    } else {
        RuntimeStage::Chain
    }
}

/// The stage after one that the flow cannot do without.
pub open spec fn after_needed(stage: RuntimeStage, went_well: bool) -> RuntimeStage {
    if !went_well {
        RuntimeStage::Failed
    } else {
        match stage {
            RuntimeStage::Chain => RuntimeStage::Bun,
            RuntimeStage::Bun => RuntimeStage::Pnpm,
            _ => RuntimeStage::Ready,
        }
    }
}

impl RuntimeFlow {
    /// Node's directory is known from the stage on that follows it.
    pub open spec fn well_formed(self) -> bool {
        self.stage == RuntimeStage::Bun || self.stage == RuntimeStage::Pnpm || self.stage
            == RuntimeStage::Ready ==> self.node_dir is Some
    }

    fn settle(
        &mut self,
        os: Os,
        config: &Config,
        mirror: &MirrorConfig,
        node: &Tool,
        nub_at_hand: bool,
    )
        ensures
            final(self).well_formed(),
            final(self).stage == node_stage(os, config.dsh.pm, mirror@, *node, nub_at_hand),
            opt_view(final(self).node_dir) == usable_dir(os, *node),
            final(self).bun_dir == old(self).bun_dir,
            final(self).pnpm_dirs == old(self).pnpm_dirs,
            final(self).nub_dirs == old(self).nub_dirs,
            final(self).error == old(self).error,
    {
        self.node_dir = None;
        match node_source(os, config, mirror, node, nub_at_hand) {
            NodeSource::System(dir) => {
                self.node_dir = Some(dir);
                self.stage = RuntimeStage::Bun;
            },
            NodeSource::Nub => {
                self.stage = RuntimeStage::NodeFromNub;
            },
            NodeSource::Chain => {
                self.stage = RuntimeStage::Chain;
            },
        }
    }

    /// The flow, once the system's node was looked for: nub comes first where
    /// the configuration asks for it.
    pub fn start(os: Os, config: &Config, mirror: &MirrorConfig, node: &Tool) -> (r: RuntimeFlow)
        ensures
            r.well_formed(),
            r.stage == (if config.dsh.pm == Pm::Nub {
                RuntimeStage::Nub
            } else {
                node_stage(os, config.dsh.pm, mirror@, *node, false)
            }),
            opt_view(r.node_dir) == (if config.dsh.pm == Pm::Nub {
                None
            } else {
                usable_dir(os, *node)
            }),
            r.bun_dir is None,
            r.pnpm_dirs@.len() == 0,
            r.nub_dirs@.len() == 0,
            r.error is None,
    {
        let mut flow = RuntimeFlow {
            stage: RuntimeStage::Nub,
            node_dir: None,
            bun_dir: None,
            pnpm_dirs: Vec::new(),
            nub_dirs: Vec::new(),
            error: None,
        };
        if !config.dsh.needs_nub() {
            flow.settle(os, config, mirror, node, false);
        }
        flow
    }

    /// Takes in the directories of nub, or why there is none, and says what is
    /// to be said; `own_nub` tells whether the user has one. A nub that could
    /// not be installed is not fatal.
    pub fn nub(
        &mut self,
        os: Os,
        config: &Config,
        mirror: &MirrorConfig,
        node: &Tool,
        own_nub: bool,
        outcome: Result<Vec<String>, String>,
    ) -> (r: Option<Message>)
        requires
            old(self).stage == RuntimeStage::Nub,
        ensures
            final(self).well_formed(),
            match outcome {
                Ok(dirs) => final(self).nub_dirs == dirs && r is None,
                Err(e) => final(self).nub_dirs == old(self).nub_dirs && (r matches Some(m) && m@
                    == note1("flow.runtime.nub_failed"@, "err"@, e@)),
            },
            final(self).stage == node_stage(
                os,
                config.dsh.pm,
                mirror@,
                *node,
                final(self).nub_dirs@.len() > 0 || own_nub,
            ),
            opt_view(final(self).node_dir) == usable_dir(os, *node),
            final(self).bun_dir == old(self).bun_dir,
            final(self).pnpm_dirs == old(self).pnpm_dirs,
            final(self).error == old(self).error,
    {
        let said = match outcome {
            Ok(dirs) => {
                self.nub_dirs = dirs;
                None
            },
            Err(e) => Some(Message::with1("flow.runtime.nub_failed", "err", e.as_str())),
        };
        let at_hand = self.nub_dirs.len() > 0 || own_nub;
        self.settle(os, config, mirror, node, at_hand);
        said
    }

    /// Takes in the directory of the node that nub provides, if it does, and
    /// says what is to be said. Otherwise the chain takes over.
    pub fn from_nub(&mut self, dir: Option<String>) -> (r: Option<Message>)
        requires
            old(self).stage == RuntimeStage::NodeFromNub,
        ensures
            final(self).well_formed(),
            final(self).stage == after_from_nub(dir is Some),
            match dir {
                Some(d) => final(self).node_dir == Some(d) && (r matches Some(m) && m@ == note1(
                    "flow.runtime.node_via_nub"@,
                    "dir"@,
                    d@,
                )),
                None => final(self).node_dir == old(self).node_dir && r is None,
            },
            final(self).bun_dir == old(self).bun_dir,
            final(self).pnpm_dirs == old(self).pnpm_dirs,
            final(self).nub_dirs == old(self).nub_dirs,
            final(self).error == old(self).error,
    {
        match dir {
            Some(d) => {
                let said = Message::with1("flow.runtime.node_via_nub", "dir", d.as_str());
                self.node_dir = Some(d);
                self.stage = RuntimeStage::Bun;
                Some(said)
            },
            None => {
                self.stage = RuntimeStage::Chain;
                None
            },
        }
    }

    /// Takes in the directory of the node that the chain installed, or why it
    /// could not.
    pub fn chain(&mut self, outcome: Result<String, String>)
        requires
            old(self).stage == RuntimeStage::Chain,
        ensures
            final(self).well_formed(),
            final(self).stage == after_needed(RuntimeStage::Chain, outcome is Ok),
            match outcome {
                Ok(d) => final(self).node_dir == Some(d) && final(self).error == old(self).error,
                Err(e) => final(self).node_dir == old(self).node_dir && final(self).error == Some(
                    e,
                ),
            },
            final(self).bun_dir == old(self).bun_dir,
            final(self).pnpm_dirs == old(self).pnpm_dirs,
            final(self).nub_dirs == old(self).nub_dirs,
    {
        match outcome {
            Ok(d) => {
                self.node_dir = Some(d);
                self.stage = RuntimeStage::Bun;
            },
            Err(e) => {
                self.error = Some(e);
                self.stage = RuntimeStage::Failed;
            },
        }
    }

    /// Takes in the directory of bun, if one is needed, or why there is none.
    pub fn bun(&mut self, outcome: Result<Option<String>, String>)
        requires
            old(self).stage == RuntimeStage::Bun,
            old(self).well_formed(),
        ensures
            final(self).well_formed(),
            final(self).stage == after_needed(RuntimeStage::Bun, outcome is Ok),
            match outcome {
                Ok(d) => final(self).bun_dir == d && final(self).error == old(self).error,
                Err(e) => final(self).bun_dir == old(self).bun_dir && final(self).error == Some(e),
            },
            final(self).node_dir == old(self).node_dir,
            final(self).pnpm_dirs == old(self).pnpm_dirs,
            final(self).nub_dirs == old(self).nub_dirs,
    {
        match outcome {
            Ok(d) => {
                self.bun_dir = d;
                self.stage = RuntimeStage::Pnpm;
            },
            Err(e) => {
                self.error = Some(e);
                self.stage = RuntimeStage::Failed;
            },
        }
    }

    /// Takes in the directories of pnpm, if it is needed, or why there is
    /// none.
    pub fn pnpm(&mut self, outcome: Result<Vec<String>, String>)
        requires
            old(self).stage == RuntimeStage::Pnpm,
            old(self).well_formed(),
        ensures
            final(self).well_formed(),
            final(self).stage == after_needed(RuntimeStage::Pnpm, outcome is Ok),
            match outcome {
                Ok(dirs) => final(self).pnpm_dirs == dirs && final(self).error == old(self).error,
                Err(e) => final(self).pnpm_dirs == old(self).pnpm_dirs && final(self).error
                    == Some(e),
            },
            final(self).node_dir == old(self).node_dir,
            final(self).bun_dir == old(self).bun_dir,
            final(self).nub_dirs == old(self).nub_dirs,
    {
        match outcome {
            Ok(dirs) => {
                self.pnpm_dirs = dirs;
                self.stage = RuntimeStage::Ready;
            },
            Err(e) => {
                self.error = Some(e);
                self.stage = RuntimeStage::Failed;
            },
        }
    }

    /// The runtime of a flow that is ready; `is_dir` tells which of the
    /// [`fnm_dirs`] exist.
    pub fn runtime(self, host: &Host, is_dir: &Vec<bool>) -> (r: Runtime)
        requires
            self.stage == RuntimeStage::Ready,
            self.well_formed(),
        ensures
            r@ == runtime_of(
                self.node_dir->0@,
                opt_view(self.bun_dir),
                views(self.pnpm_dirs@),
                views(self.nub_dirs@),
                host@,
                is_dir@,
            ),
    {
        let node_dir = match self.node_dir {
            Some(dir) => dir,
            None => String::new(),
        };
        assemble(node_dir, self.bun_dir, self.pnpm_dirs, &self.nub_dirs, host, is_dir)
    }
}

// ---- laws ----------------------------------------------------------------

/// Any step of nub that fails falls back to the chain: a nub that could not be
/// installed does not end the flow, and one that provides no node gives way to
/// the chain. Nub is asked for node only with a configured npm mirror.
pub proof fn nub_falls_back_to_the_chain(
    os: Os,
    pm: Pm,
    mirror: MirrorView,
    node: Tool,
    nub_at_hand: bool,
)
    ensures
        node_stage(os, pm, mirror, node, nub_at_hand) != RuntimeStage::Failed,
        usable_dir(os, node) is None ==> node_stage(os, pm, mirror, node, false)
            == RuntimeStage::Chain,
        after_from_nub(false) == RuntimeStage::Chain,
        node_stage(os, pm, mirror, node, nub_at_hand) == RuntimeStage::NodeFromNub ==> pm
            == Pm::Nub && mirror.used(mirror.npm) is Some && usable_dir(os, node) is None,
{
}

/// How many reports a stage is away from the end at most.
pub open spec fn runtime_reports_left(stage: RuntimeStage) -> nat {
    match stage {
        RuntimeStage::Nub => 5,
        RuntimeStage::NodeFromNub => 4,
        RuntimeStage::Chain => 3,
        RuntimeStage::Bun => 2,
        RuntimeStage::Pnpm => 1,
        RuntimeStage::Ready | RuntimeStage::Failed => 0,
    }
}

/// Every report brings the flow closer to its end, and only node, bun and pnpm
/// can make it fail.
pub proof fn the_runtime_flow_ends(
    os: Os,
    pm: Pm,
    mirror: MirrorView,
    node: Tool,
    nub_at_hand: bool,
    provided: bool,
    stage: RuntimeStage,
    went_well: bool,
)
    ensures
        runtime_reports_left(node_stage(os, pm, mirror, node, nub_at_hand))
            < runtime_reports_left(RuntimeStage::Nub),
        runtime_reports_left(after_from_nub(provided)) < runtime_reports_left(
            RuntimeStage::NodeFromNub,
        ),
        after_from_nub(provided) != RuntimeStage::Failed,
        stage == RuntimeStage::Chain || stage == RuntimeStage::Bun || stage == RuntimeStage::Pnpm
            ==> runtime_reports_left(after_needed(stage, went_well)) < runtime_reports_left(stage),
        after_needed(stage, went_well) == RuntimeStage::Failed <==> !went_well,
{
}

/// Whatever else is assembled, node's directory is the first of the prefix.
pub proof fn node_comes_first(
    node_dir: Seq<char>,
    bun_dir: Option<Seq<char>>,
    pnpm_dirs: Seq<Seq<char>>,
    nub_dirs: Seq<Seq<char>>,
    host: HostView,
    is_dir: Seq<bool>,
)
    ensures
        runtime_of(node_dir, bun_dir, pnpm_dirs, nub_dirs, host, is_dir).path_prefix().len() > 0,
        runtime_of(node_dir, bun_dir, pnpm_dirs, nub_dirs, host, is_dir).path_prefix()[0]
            == node_dir,
{
}

/// A system node that is recent enough is respected: its directory is used
/// whatever the configuration.
pub proof fn a_recent_system_node_is_respected(os: Os, node: Tool)
    requires
        node.found,
        node.version is Some,
        !core_less(node.version->0, node_min_version()),
        node.path is Some,
        dir_of(os, node.path->0@) is Some,
    ensures
        usable_dir(os, node) == dir_of(os, node.path->0@),
{
}

/// Nub provides node where it is the package manager, is at hand, and has a
/// registry of the mirrors; a node that will do is never replaced.
pub proof fn nub_provides_node_where_it_can(
    os: Os,
    pm: Pm,
    mirror: MirrorView,
    node: Tool,
    nub_at_hand: bool,
)
    ensures
        usable_dir(os, node) is Some ==> node_stage(os, pm, mirror, node, nub_at_hand)
            == RuntimeStage::Bun,
        usable_dir(os, node) is None && pm == Pm::Nub && nub_at_hand && mirror.mode
            != MirrorMode::Off && mirror.npm is Some ==> node_stage(
            os,
            pm,
            mirror,
            node,
            nub_at_hand,
        ) == RuntimeStage::NodeFromNub,
        usable_dir(os, node) is None && (pm != Pm::Nub || !nub_at_hand || mirror.mode
            == MirrorMode::Off || mirror.npm is None) ==> node_stage(
            os,
            pm,
            mirror,
            node,
            nub_at_hand,
        ) == RuntimeStage::Chain,
        after_from_nub(true) == RuntimeStage::Bun,
{
}

/// Behind node come bun and pnpm, and then all is ready.
pub proof fn the_runtime_is_made_sure_of_in_order()
    ensures
        after_needed(RuntimeStage::Chain, true) == RuntimeStage::Bun,
        after_needed(RuntimeStage::Bun, true) == RuntimeStage::Pnpm,
        after_needed(RuntimeStage::Pnpm, true) == RuntimeStage::Ready,
{
}

/// Whether a directory is one of the first `n` that exist.
pub open spec fn exists_among(
    dirs: Seq<Seq<char>>,
    exists_flags: Seq<bool>,
    n: int,
    dir: Seq<char>,
) -> bool {
    exists|i: int| 0 <= i < n && exists_flags[i] && #[trigger] dirs[i] == dir
}

proof fn lemma_with_existing(
    os: Os,
    list: Seq<Seq<char>>,
    dirs: Seq<Seq<char>>,
    exists_flags: Seq<bool>,
)
    requires
        exists_flags.len() == dirs.len(),
    ensures
        ({
            let r = with_existing(os, list, dirs, exists_flags);
            &&& r.len() >= list.len()
            &&& r.take(list.len() as int) == list
            &&& forall|i: int|
                0 <= i < dirs.len() && exists_flags[i] ==> lists_path(os, r, #[trigger] dirs[i])
            &&& forall|k: int|
                list.len() <= k < r.len() ==> exists_among(
                    dirs,
                    exists_flags,
                    dirs.len() as int,
                    #[trigger] r[k],
                )
        }),
    decreases dirs.len(),
{
    if dirs.len() == 0 {
        assert(list.take(list.len() as int) =~= list);
    } else {
        lemma_with_existing_prefix(os, list, dirs, exists_flags, dirs.len() as int);
        assert(dirs.take(dirs.len() as int) =~= dirs);
    }
}

proof fn lemma_with_existing_prefix(
    os: Os,
    list: Seq<Seq<char>>,
    dirs: Seq<Seq<char>>,
    exists_flags: Seq<bool>,
    n: int,
)
    requires
        exists_flags.len() == dirs.len(),
        0 <= n <= dirs.len(),
    ensures
        ({
            let r = with_existing(os, list, dirs.take(n), exists_flags);
            &&& r.len() >= list.len()
            &&& r.take(list.len() as int) == list
            &&& forall|i: int|
                0 <= i < n && exists_flags[i] ==> lists_path(os, r, #[trigger] dirs[i])
            &&& forall|k: int|
                list.len() <= k < r.len() ==> exists_among(
                    dirs,
                    exists_flags,
                    n,
                    #[trigger] r[k],
                )
        }),
    decreases n,
{
    let now = dirs.take(n);
    let r = with_existing(os, list, now, exists_flags);
    if n == 0 {
        assert(r == list);
        assert(list.take(list.len() as int) =~= list);
    } else {
        let before = with_existing(os, list, now.drop_last(), exists_flags);
        assert(now.drop_last() =~= dirs.take(n - 1));
        assert(now.last() == dirs[n - 1]);
        lemma_with_existing_prefix(os, list, dirs, exists_flags, n - 1);
        assert(r.take(list.len() as int) =~= before.take(list.len() as int));
        assert forall|i: int| 0 <= i < n && exists_flags[i] implies lists_path(
            os,
            r,
            #[trigger] dirs[i],
        ) by {
            if i < n - 1 {
                let k = choose|k: int|
                    0 <= k < before.len() && same_path(os, #[trigger] before[k], dirs[i]);
                assert(r[k] == before[k]);
            } else if r.len() > before.len() {
                assert(same_path(os, r[before.len() as int], dirs[i]));
            }
        }
        assert forall|k: int| list.len() <= k < r.len() implies exists_among(
            dirs,
            exists_flags,
            n,
            #[trigger] r[k],
        ) by {
            if k < before.len() {
                assert(r[k] == before[k]);
                assert(exists_among(dirs, exists_flags, n - 1, before[k]));
                let i = choose|i: int|
                    0 <= i < n - 1 && exists_flags[i] && #[trigger] dirs[i] == before[k];
                assert(dirs[i] == r[k]);
            } else {
                assert(dirs[n - 1] == r[k]);
            }
        }
    }
}

/// The runtime holds what was found: node's directory, bun's, then pnpm's and
/// nub's in their order, and behind them only those directories of fnm that
/// exist, each of which is in it.
pub proof fn the_runtime_holds_what_was_found(
    node_dir: Seq<char>,
    bun_dir: Option<Seq<char>>,
    pnpm_dirs: Seq<Seq<char>>,
    nub_dirs: Seq<Seq<char>>,
    host: HostView,
    is_dir: Seq<bool>,
)
    requires
        is_dir.len() == 2,
    ensures
        ({
            let r = runtime_of(node_dir, bun_dir, pnpm_dirs, nub_dirs, host, is_dir);
            let known = pnpm_dirs.len() + nub_dirs.len();
            &&& r.node_dir == Some(node_dir)
            &&& r.bun_dir == bun_dir
            &&& r.extra_path.len() >= known
            &&& r.extra_path.take(pnpm_dirs.len() as int) == pnpm_dirs
            &&& r.extra_path.subrange(pnpm_dirs.len() as int, known as int) == nub_dirs
            &&& is_dir[1] ==> lists_path(host.os, r.extra_path, host.bin_dir())
            &&& is_dir[0] ==> lists_path(
                host.os,
                r.extra_path,
                path_in3(host.os, host.cache_dir(), "dshl"@, "fnm-cargo"@, "bin"@),
            )
            &&& !is_dir[0] && !is_dir[1] ==> r.extra_path == pnpm_dirs + nub_dirs
        }),
{
    let list = pnpm_dirs + nub_dirs;
    let dirs = fnm_dirs_of(host);
    let r = runtime_of(node_dir, bun_dir, pnpm_dirs, nub_dirs, host, is_dir);
    lemma_with_existing(host.os, list, dirs, is_dir);
    assert(dirs[0] == path_in3(host.os, host.cache_dir(), "dshl"@, "fnm-cargo"@, "bin"@));
    assert(dirs[1] == host.bin_dir());
    let head = r.extra_path.take(list.len() as int);
    assert(r.extra_path.take(pnpm_dirs.len() as int) =~= head.take(pnpm_dirs.len() as int));
    assert(list.take(pnpm_dirs.len() as int) =~= pnpm_dirs);
    assert(r.extra_path.subrange(pnpm_dirs.len() as int, list.len() as int) =~= head.skip(
        pnpm_dirs.len() as int,
    ));
    assert(list.skip(pnpm_dirs.len() as int) =~= nub_dirs);
    if !is_dir[0] && !is_dir[1] {
        if r.extra_path.len() > list.len() {
            let k = list.len() as int;
            assert(exists_among(dirs, is_dir, dirs.len() as int, r.extra_path[k]));
            let i = choose|i: int|
                0 <= i < dirs.len() && is_dir[i] && #[trigger] dirs[i] == r.extra_path[k];
            assert(i == 0 || i == 1);
        }
        assert(r.extra_path =~= list);
    }
}

/// The tools that are looked for: node, bun, fnm, cargo and nvm always, pnpm
/// and nub exactly where they are the package manager.
pub proof fn tools_are_looked_for_where_they_are_needed(pm: Pm)
    ensures
        probed_names(pm).contains("node"@),
        probed_names(pm).contains("bun"@),
        probed_names(pm).contains("fnm"@),
        probed_names(pm).contains("cargo"@),
        probed_names(pm).contains("nvm"@),
        probed_names(pm).contains("pnpm"@) <==> pm == Pm::Pnpm,
        probed_names(pm).contains("nub"@) <==> pm == Pm::Nub,
        probed_names(pm)[0] == "node"@,
        probed_names(pm).len() == (if pm == Pm::Pnpm || pm == Pm::Nub {
            6int
        } else {
            5
        }),
{
    reveal_strlit("node");
    reveal_strlit("bun");
    reveal_strlit("pnpm");
    reveal_strlit("nub");
    reveal_strlit("fnm");
    reveal_strlit("cargo");
    reveal_strlit("nvm");
    let p = probed_names(pm);
    let n = p.len() as int;
    assert("node"@.len() == 4 && "pnpm"@.len() == 4 && "cargo"@.len() == 5);
    assert("node"@[0] == 'n' && "pnpm"@[0] == 'p');
    assert("bun"@[0] == 'b' && "nub"@[0] == 'n' && "fnm"@[0] == 'f' && "nvm"@[1] == 'v' && "nub"@[1]
        == 'u');
    assert("bun"@.len() == 3 && "nub"@.len() == 3 && "fnm"@.len() == 3 && "nvm"@.len() == 3);
    assert(p[0] == "node"@ && p[1] == "bun"@);
    assert(p[n - 3] == "fnm"@ && p[n - 2] == "cargo"@ && p[n - 1] == "nvm"@);
    if pm == Pm::Pnpm {
        assert(p[2] == "pnpm"@);
    }
    if pm == Pm::Nub {
        assert(p[2] == "nub"@);
    }
}

/// Names are padded with blanks to a width of five, and longer ones stay.
pub proof fn names_are_padded_to_one_width(name: Seq<char>, i: int)
    ensures
        padded(name).len() == (if name.len() > 5 {
            name.len()
        } else {
            5
        }),
        padded(name).take(name.len() as int) == name,
        name.len() <= i < padded(name).len() ==> padded(name)[i] == ' ',
{
    assert(padded(name).take(name.len() as int) =~= name);
}

/// A tool is described by its version where it has one, by what it printed
/// where it has none, and always by its place; a missing one is called so.
pub proof fn a_tool_is_described_by_its_version_and_place(t: Tool, text: Seq<char>)
    ensures
        !t.found ==> description(t) == LineView::Note(note("flow.runtime.not_installed"@)),
        t.found && t.version is Some && t.path is Some ==> description(t) == LineView::Text(
            t.version->0.text() + (" @ "@ + t.path->0@),
        ),
        t.found && t.version is None && t.raw@.len() > 0 && t.path is Some ==> description(t)
            == LineView::Text("("@ + trimmed(t.raw@) + ")"@ + (" @ "@ + t.path->0@)),
        t.found && t.version is None && t.raw@.len() == 0 && t.path is Some ==> description(t)
            == LineView::Around(
            Seq::<char>::empty(),
            note("flow.runtime.version_unknown"@),
            " @ "@ + t.path->0@,
        ),
        behind(text, LineView::Text(seq!['x'])) == LineView::Text(text.push('x')),
        behind(text, LineView::Note(note("flow.runtime.not_installed"@))) == LineView::Around(
            text,
            note("flow.runtime.not_installed"@),
            seq![],
        ),
{
    assert(text + seq!['x'] =~= text.push('x'));
}

/// Where node comes from and the stage that follows are one decision.
pub proof fn the_source_of_node_decides_the_stage(
    r: NodeSource,
    os: Os,
    pm: Pm,
    mirror: MirrorView,
    node: Tool,
    nub_at_hand: bool,
)
    requires
        is_node_source(r, os, pm, mirror, node, nub_at_hand),
    ensures
        r is System <==> node_stage(os, pm, mirror, node, nub_at_hand) == RuntimeStage::Bun,
        r is Nub <==> node_stage(os, pm, mirror, node, nub_at_hand) == RuntimeStage::NodeFromNub,
        r is Chain <==> node_stage(os, pm, mirror, node, nub_at_hand) == RuntimeStage::Chain,
        r matches NodeSource::System(d) ==> usable_dir(os, node) == Some(d@),
        r is Nub ==> pm == Pm::Nub && nub_at_hand && mirror.mode != MirrorMode::Off
            && mirror.npm is Some,
{
}

} // verus!
