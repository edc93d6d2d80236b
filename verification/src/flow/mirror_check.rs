//! The third flow: report the domestic-mirror decision.
//!
//! The mirrors were resolved up-front (they must be known before any network
//! install), so this step only *presents* the decision and the active mirror
//! addresses.

use vstd::prelude::*;
use crate::config::MirrorMode;
use crate::message::{lines_said, note, note2, Line, LineView, Message};
use crate::mirror::{MirrorConfig, MirrorView};
use crate::process::command::pair_views;

verus! {

pub open spec fn mode_key(mode: MirrorMode) -> Seq<char> {
    match mode {
        MirrorMode::Off => "flow.mirror.off"@,
        MirrorMode::On => "flow.mirror.on"@,
        MirrorMode::Force => "flow.mirror.force"@,
    }
}

pub open spec fn entry_line(entry: (Seq<char>, Seq<char>)) -> LineView {
    LineView::Note(note2("flow.mirror.entry"@, "key"@, entry.0, "value"@, entry.1))
}

pub open spec fn mode_line(mode: MirrorMode) -> LineView {
    LineView::Around("auto-mirror = "@, note(mode_key(mode)), Seq::<char>::empty())
}

/// What is said about the mirrors: the mode, and each active one.
pub open spec fn mirror_lines(mirror: MirrorView) -> Seq<LineView> {
    seq![mode_line(mirror.mode)] + if mirror.summary().len() == 0 {
        seq![LineView::Note(note("flow.mirror.none"@))]
    } else {
        mirror.summary().map_values(|e: (Seq<char>, Seq<char>)| entry_line(e))
    }
}

/// What is said about the mirrors, and the message of the finished step: the
/// mode.
pub fn run(mirror: &MirrorConfig) -> (r: (Vec<Line>, Message))
    ensures
        lines_said(r.0@) == mirror_lines(mirror@),
        r.1@ == note(mode_key(mirror.mode)),
{
    let key = match mirror.mode {
        MirrorMode::Off => "flow.mirror.off",
        MirrorMode::On => "flow.mirror.on",
        MirrorMode::Force => "flow.mirror.force",
    };
    let mut said: Vec<Line> = Vec::new();
    said.push(Line::Around("auto-mirror = ".to_owned(), Message::new(key), String::new()));
    let summary = mirror.summary();
    let ghost all = mirror@.summary();
    let ghost first = seq![mode_line(mirror.mode)];
    assert(said@[0]@ =~= mode_line(mirror.mode));
    assert(lines_said(said@) =~= first);
    if summary.len() == 0 {
        assert(all.len() == 0);
        said.push(Line::Note(Message::new("flow.mirror.none")));
        assert(lines_said(said@) =~= mirror_lines(mirror@));
    } else {
        let ghost want = all.map_values(|e: (Seq<char>, Seq<char>)| entry_line(e));
        let mut i: usize = 0;
        assert(lines_said(said@) =~= first + want.take(0));
        while i < summary.len()
            invariant
                0 <= i <= summary@.len(),
                all == pair_views(summary@),
                want == all.map_values(|e: (Seq<char>, Seq<char>)| entry_line(e)),
                lines_said(said@) == first + want.take(i as int),
            decreases summary@.len() - i,
        {
            let ghost before = said@;
            let m = Line::Note(
                Message::with2(
                    "flow.mirror.entry",
                    "key",
                    summary[i].0.as_str(),
                    "value",
                    summary[i].1.as_str(),
                ),
            );
            assert(all[i as int] == (summary@[i as int].0@, summary@[i as int].1@));
            assert(m@ == want[i as int]);
            said.push(m);
            assert(lines_said(said@) =~= lines_said(before).push(m@));
            i += 1;
            assert(lines_said(said@) =~= first + want.take(i as int));
        }
        assert(want.take(i as int) =~= want);
        assert(all.len() > 0);
    }
    (said, Message::new(key))
}

/// The report names the mode, then every mirror in use with its address, in the
/// order of the summary, or that there is none.
pub proof fn every_mirror_in_use_is_reported(mirror: MirrorView, i: int)
    ensures
        mirror_lines(mirror)[0] == LineView::Around(
            "auto-mirror = "@,
            note(mode_key(mirror.mode)),
            Seq::<char>::empty(),
        ),
        mode_key(MirrorMode::Off) == "flow.mirror.off"@,
        mode_key(MirrorMode::On) == "flow.mirror.on"@,
        mode_key(MirrorMode::Force) == "flow.mirror.force"@,
        0 <= i < mirror.summary().len() ==> mirror_lines(mirror)[i + 1] == LineView::Note(
            note2(
                "flow.mirror.entry"@,
                "key"@,
                mirror.summary()[i].0,
                "value"@,
                mirror.summary()[i].1,
            ),
        ),
        mirror.summary().len() > 0 ==> mirror_lines(mirror).len() == mirror.summary().len() + 1,
        mirror.summary().len() == 0 ==> mirror_lines(mirror).len() == 2 && mirror_lines(mirror)[1]
            == LineView::Note(note("flow.mirror.none"@)),
        mirror.mode == MirrorMode::Off ==> mirror_lines(mirror).len() == 2,
{
    if mirror.mode == MirrorMode::Off {
        crate::mirror::off_redirects_nothing(mirror);
    }
}

} // verus!
