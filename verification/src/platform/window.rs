//! Windows of the desktop: geometry, liveness, focus and discovery, as
//! readings of what the system says of them.

use vstd::prelude::*;
use super::detect::Os;

verus! {

/// The current geometry of a window, plus whether it is maximized/fullscreen.
#[derive(Debug, Clone, Copy, PartialEq, Eq, Structural)]
pub struct WindowRect {
    pub x: i32,
    pub y: i32,
    pub width: u32,
    pub height: u32,
    /// True when the window is maximized or covers the whole screen (such a
    /// state should not be persisted).
    pub maximized: bool,
}

/// The edges of a window on the screen.
#[derive(Debug, Clone, Copy, PartialEq, Eq, Structural)]
pub struct Edges {
    pub left: i32,
    pub top: i32,
    pub right: i32,
    pub bottom: i32,
}

/// A number, or the nearest one that an `i32` holds.
pub open spec fn saturated(n: int) -> int {
    if n < i32::MIN {
        i32::MIN as int
    } else if n > i32::MAX {
        i32::MAX as int
    } else {
        n
    }
}

/// The distance from one edge to the other, as far as an `i32` holds it.
pub open spec fn extent(from: i32, to: i32) -> int {
    saturated(to - from)
}

fn span(from: i32, to: i32) -> (r: i32)
    ensures
        r == extent(from, to),
{
    let d: i64 = (to as i64) - (from as i64);
    if d < -0x8000_0000 {
        i32::MIN
    } else if d > 0x7fff_ffff {
        i32::MAX
    } else {
        d as i32
    }
}

/// The geometry of a window with these edges.
pub open spec fn rect_of(edges: Edges, zoomed: bool, screen: (i32, i32)) -> WindowRect {
    let width = extent(edges.left, edges.right);
    let height = extent(edges.top, edges.bottom);
    WindowRect {
        x: edges.left,
        y: edges.top,
        width: if width > 0 {
            width as u32
        } else {
            0
        },
        height: if height > 0 {
            height as u32
        } else {
            0
        },
        maximized: zoomed || (width >= screen.0 && height >= screen.1),
    }
}

/// A window's position/size and whether it is maximized, from its edges (none
/// when the system does not know the window), whether the system calls it
/// zoomed, and the size of the screen.
///
/// Only windows of Windows have edges that can be asked for.
pub fn window_rect(os: Os, edges: Option<Edges>, zoomed: bool, screen: (i32, i32)) -> (r: Option<
    WindowRect,
>)
    ensures
        r == (match edges {
            Some(edges) if os == Os::Windows => Some(rect_of(edges, zoomed, screen)),
            _ => None,
        }),
{
    if os != Os::Windows {
        return None;
    }
    match edges {
        None => None,
        Some(edges) => {
            let w: i32 = span(edges.left, edges.right);
            let h: i32 = span(edges.top, edges.bottom);
            let width: u32 = if w > 0 {
                w as u32
            } else {
                0
            };
            let height: u32 = if h > 0 {
                h as u32
            } else {
                0
            };
            let maximized = zoomed || (w >= screen.0 && h >= screen.1);
            Some(WindowRect { x: edges.left, y: edges.top, width, height, maximized })
        },
    }
}

/// Whether the window `hwnd` still exists, where `exists` is what the system
/// said of the handle. A handle that was not captured yet counts as alive,
/// and so does everything where there are no handles.
pub fn is_window_alive(os: Os, hwnd: usize, exists: bool) -> (r: bool)
    ensures
        r == (os != Os::Windows || hwnd == 0 || exists),
{
    os != Os::Windows || hwnd == 0 || exists
}

/// One step on the way to the foreground.
#[derive(Debug, Clone, Copy, PartialEq, Eq, Structural)]
pub enum FocusStep {
    /// Restore the minimized window.
    Restore,
    /// Ask for the foreground.
    Foreground,
    /// Share the input of the thread that has the foreground.
    Attach,
    /// Put the window above the others.
    BringToTop,
    /// Stop sharing the input.
    Detach,
    /// Press and release Alt: who just got input may take the foreground.
    TapAlt,
    /// The switch of Alt+Tab, which ignores the foreground lock.
    Switch,
}

/// The first steps to bring a window to the foreground.
pub open spec fn focus_steps(os: Os, iconic: bool) -> Seq<FocusStep> {
    if os != Os::Windows {
        seq![]
    } else if iconic {
        seq![FocusStep::Restore, FocusStep::Foreground]
    } else {
        seq![FocusStep::Foreground]
    }
}

/// Brings an existing window to the foreground (single-instance activation):
/// a minimized window is restored first. Elsewhere than on Windows there is
/// nothing to be done.
pub fn focus_window(os: Os, iconic: bool) -> (r: Vec<FocusStep>)
    ensures
        r@ == focus_steps(os, iconic),
{
    let r = if os != Os::Windows {
        Vec::new()
    } else if iconic {
        vec![FocusStep::Restore, FocusStep::Foreground]
    } else {
        vec![FocusStep::Foreground]
    };
    assert(r@ =~= focus_steps(os, iconic));
    r
}

/// The steps that force a window to the foreground.
pub open spec fn forced_steps(granted: bool, foreground_thread: u32, own_thread: u32) -> Seq<
    FocusStep,
> {
    if granted {
        seq![]
    } else {
        (if foreground_thread != 0 && foreground_thread != own_thread {
            seq![
                FocusStep::Attach,
                FocusStep::BringToTop,
                FocusStep::Foreground,
                FocusStep::Detach,
            ]
        } else {
            seq![]
        }) + seq![FocusStep::TapAlt, FocusStep::Foreground, FocusStep::Switch]
    }
}

/// What is still to be done when the foreground was asked for: nothing if it
/// was granted, else the ways around the foreground lock one after the other.
/// Input can only be shared with another thread that has the foreground.
pub fn force_focus(granted: bool, foreground_thread: u32, own_thread: u32) -> (r: Vec<FocusStep>)
    ensures
        r@ == forced_steps(granted, foreground_thread, own_thread),
{
    let mut r: Vec<FocusStep> = Vec::new();
    if !granted {
        if foreground_thread != 0 && foreground_thread != own_thread {
            r.push(FocusStep::Attach);
            r.push(FocusStep::BringToTop);
            r.push(FocusStep::Foreground);
            r.push(FocusStep::Detach);
        }
        r.push(FocusStep::TapAlt);
        r.push(FocusStep::Foreground);
        r.push(FocusStep::Switch);
    }
    assert(r@ =~= forced_steps(granted, foreground_thread, own_thread));
    r
}

/// Input that was shared is always given back, right after the window asked
/// for the foreground with it.
pub proof fn shared_input_is_given_back(
    granted: bool,
    foreground_thread: u32,
    own_thread: u32,
    i: int,
)
    requires
        0 <= i < forced_steps(granted, foreground_thread, own_thread).len(),
        forced_steps(granted, foreground_thread, own_thread)[i] == FocusStep::Attach,
    ensures
        i + 3 < forced_steps(granted, foreground_thread, own_thread).len(),
        forced_steps(granted, foreground_thread, own_thread)[i + 2] == FocusStep::Foreground,
        forced_steps(granted, foreground_thread, own_thread)[i + 3] == FocusStep::Detach,
{
}

/// A top-level window, as the system lists it.
#[derive(Debug, Clone, Copy, PartialEq, Eq, Structural)]
pub struct Listed {
    pub hwnd: usize,
    pub pid: u32,
    pub visible: bool,
}

/// The first visible window of a process.
pub open spec fn first_visible(windows: Seq<Listed>, pid: u32) -> Option<usize>
    decreases windows.len(),
{
    if windows.len() == 0 {
        None
    } else if windows[0].pid == pid && windows[0].visible {
        Some(windows[0].hwnd)
    } else {
        first_visible(windows.skip(1), pid)
    }
}

/// The visible top-level window owned by `pid`, among those that the system
/// lists.
///
/// Hidden windows are passed over: browser processes own several hidden helper
/// windows, and tracking one of those would persist a degenerate geometry.
pub fn find_hwnd_by_pid(os: Os, windows: &Vec<Listed>, pid: u32) -> (r: Option<usize>)
    ensures
        r == (if os == Os::Windows {
            first_visible(windows@, pid)
        } else {
            None
        }),
{
    if os != Os::Windows {
        return None;
    }
    let mut i: usize = 0;
    assert(windows@.skip(0) =~= windows@);
    while i < windows.len()
        invariant
            0 <= i <= windows@.len(),
            os == Os::Windows,
            first_visible(windows@, pid) == first_visible(windows@.skip(i as int), pid),
        decreases windows@.len() - i,
    {
        assert(windows@.skip(i as int)[0] == windows@[i as int]);
        if windows[i].pid == pid && windows[i].visible {
            return Some(windows[i].hwnd);
        }
        assert(windows@.skip(i as int).skip(1) =~= windows@.skip(i + 1));
        i += 1;
    }
    None
}

/// The size that a display has, or that it is unknown.
pub open spec fn display_size(os: Os, display: Option<(i32, i32)>) -> (u32, u32) {
    match display {
        Some((w, h)) => if os != Os::Macos && w > 0 && h > 0 {
            (w as u32, h as u32)
        } else {
            (0u32, 0u32)
        },
        None => (0u32, 0u32),
    }
}

/// The screen size in physical pixels, or `(0, 0)` when unknown, from what the
/// display says of itself. On macOS it is not asked.
pub fn screen_size(os: Os, display: Option<(i32, i32)>) -> (r: (u32, u32))
    ensures
        r == display_size(os, display),
{
    if os == Os::Macos {
        return (0, 0);
    }
    match display {
        Some((w, h)) => {
            if w > 0 && h > 0 {
                (w as u32, h as u32)
            } else {
                (0, 0)
            }
        },
        None => (0, 0),
    }
}

// ---- laws ----------------------------------------------------------------

/// A window is as wide and high as its edges lie apart, stands at its upper
/// left corner, and is never smaller than nothing.
pub proof fn a_window_is_as_large_as_its_edges(edges: Edges, zoomed: bool, screen: (i32, i32))
    ensures
        ({
            let r = rect_of(edges, zoomed, screen);
            &&& r.x == edges.left
            &&& r.y == edges.top
            &&& 0 <= edges.right - edges.left <= i32::MAX ==> r.width == edges.right - edges.left
            &&& 0 <= edges.bottom - edges.top <= i32::MAX ==> r.height == edges.bottom - edges.top
            &&& edges.right <= edges.left ==> r.width == 0
            &&& edges.bottom <= edges.top ==> r.height == 0
            &&& zoomed ==> r.maximized
        }),
{
}

/// A window counts as maximized where the system says so, or where it covers
/// the whole screen in both directions.
pub proof fn a_window_that_covers_the_screen_is_maximized(
    edges: Edges,
    zoomed: bool,
    screen: (i32, i32),
)
    requires
        0 <= edges.right - edges.left <= i32::MAX,
        0 <= edges.bottom - edges.top <= i32::MAX,
    ensures
        rect_of(edges, zoomed, screen).maximized <==> zoomed || (edges.right - edges.left
            >= screen.0 && edges.bottom - edges.top >= screen.1),
{
}

/// A distance that no `i32` holds is the nearest one that it holds.
pub proof fn distances_are_saturated(from: i32, to: i32)
    ensures
        i32::MIN <= to - from <= i32::MAX ==> extent(from, to) == to - from,
        to - from > i32::MAX ==> extent(from, to) == i32::MAX,
        to - from < i32::MIN ==> extent(from, to) == i32::MIN,
{
}

/// The window of a process is its first visible one: hidden windows and those
/// of other processes are passed over.
pub proof fn the_first_visible_window_is_found(
    before: Seq<Listed>,
    w: Listed,
    after: Seq<Listed>,
    pid: u32,
)
    requires
        w.pid == pid,
        w.visible,
        forall|i: int| 0 <= i < before.len() ==> (#[trigger] before[i]).pid != pid || !before[i].visible,
    ensures
        first_visible(before.push(w) + after, pid) == Some(w.hwnd),
        first_visible(before, pid) is None,
    decreases before.len(),
{
    let all = before.push(w) + after;
    if before.len() == 0 {
        assert(all[0] == w);
    } else {
        let rest = before.skip(1);
        assert(all[0] == before[0]);
        assert(all.skip(1) =~= rest.push(w) + after);
        assert forall|i: int| 0 <= i < rest.len() implies (#[trigger] rest[i]).pid != pid
            || !rest[i].visible by {
            assert(rest[i] == before[i + 1]);
        }
        the_first_visible_window_is_found(rest, w, after, pid);
    }
}

/// A minimized window is restored before it asks for the foreground, and every
/// window asks for it last.
pub proof fn a_minimized_window_is_restored_first(iconic: bool)
    ensures
        focus_steps(Os::Windows, iconic).last() == FocusStep::Foreground,
        focus_steps(Os::Windows, iconic).contains(FocusStep::Restore) <==> iconic,
        iconic ==> focus_steps(Os::Windows, iconic)[0] == FocusStep::Restore,
        focus_steps(Os::Linux, iconic).len() == 0,
        focus_steps(Os::Macos, iconic).len() == 0,
{
    let s = focus_steps(Os::Windows, iconic);
    if iconic {
        assert(s[0] == FocusStep::Restore);
    }
}

/// A foreground that was granted needs nothing more; otherwise input is shared
/// exactly with another thread that has the foreground, and the last resort is
/// the switch.
pub proof fn the_foreground_is_forced_where_it_was_not_granted(foreground: u32, own: u32)
    ensures
        forced_steps(true, foreground, own).len() == 0,
        forced_steps(false, foreground, own).last() == FocusStep::Switch,
        forced_steps(false, foreground, own).contains(FocusStep::Attach) <==> foreground != 0
            && foreground != own,
        forced_steps(false, foreground, own).contains(FocusStep::TapAlt),
        foreground != 0 && foreground != own ==> forced_steps(false, foreground, own).len() == 7
            && forced_steps(false, foreground, own)[1] == FocusStep::BringToTop,
        foreground == 0 || foreground == own ==> forced_steps(false, foreground, own).len() == 3,
{
    let s = forced_steps(false, foreground, own);
    let n = s.len() as int;
    assert(s[n - 3] == FocusStep::TapAlt);
    if foreground != 0 && foreground != own {
        assert(s[0] == FocusStep::Attach);
    }
}

/// The size of the screen is what the display says where it says something
/// sensible, and unknown on macOS.
pub proof fn the_display_tells_its_size(os: Os, w: i32, h: i32)
    ensures
        os != Os::Macos && w > 0 && h > 0 ==> display_size(os, Some((w, h))) == (w as u32, h as u32),
        w <= 0 || h <= 0 ==> display_size(os, Some((w, h))) == (0u32, 0u32),
        display_size(Os::Macos, Some((w, h))) == (0u32, 0u32),
        display_size(os, None) == (0u32, 0u32),
{
}

} // verus!
