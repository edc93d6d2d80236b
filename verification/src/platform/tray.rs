//! The tray icon: what it was asked for, and what its messages mean.
//!
//! Windows has a hidden window that gets the messages of the icon, Linux an
//! indicator with a menu; on macOS there is no tray, and closing the window
//! ends the launcher.

use vstd::prelude::*;
use super::detect::Os;
use super::paths::{path_in2, Host};
use super::theme::{icon_file, icon_path};
use crate::process::windows::{wide, wide_text};
use crate::text::opt_view;

verus! {

/// The message of a chosen menu item.
pub const WM_COMMAND: u32 = 0x0111;

/// The message of the tray icon.
pub const WM_TRAY_CALLBACK: u32 = 0x8001;

/// The message that asks the message loop to end.
pub const WM_TRAY_QUIT: u32 = 0x8002;

/// The left button was released over the icon.
pub const WM_LBUTTONUP: isize = 0x0202;

/// The right button was released over the icon.
pub const WM_RBUTTONUP: isize = 0x0205;

/// Max gap (ms) between two clicks that counts as a double click.
pub const DOUBLE_CLICK_MS: u64 = 400;

/// The menu item that restores the window.
pub const MENU_RESTORE: usize = 1;

/// The menu item that quits.
pub const MENU_QUIT: usize = 2;

/// The state of the tray.
#[derive(Debug, Clone, Copy, PartialEq, Eq, Structural)]
pub struct Tray {
    pub os: Os,
    /// The hidden window of the icon (0 until it is created).
    pub hwnd: usize,
    /// The thread of the icon was started.
    pub started: bool,
    /// The icon is in the notification area.
    pub icon_active: bool,
    /// The icon that is applied (0 until one is).
    pub icon: usize,
    /// The user chose "quit".
    pub quit: bool,
    /// The user chose "restore window", by a double click or from the menu.
    pub restore: bool,
    /// Time (ms) of the last left click (0 before the first).
    pub last_click: u64,
}

/// What is to be done about a message.
#[derive(Debug, Clone, Copy, PartialEq, Eq, Structural)]
pub enum Reaction {
    /// End the message loop.
    EndLoop,
    /// Nothing more.
    Handled,
    /// Show the menu.
    ShowMenu,
    /// What the system does by default.
    Default,
}

/// Whether a click at `now` is the second one of a double click.
pub open spec fn double_click(last: u64, now: u64) -> bool {
    last != 0 && now - last < DOUBLE_CLICK_MS
}

impl Tray {
    /// A tray that was not started.
    pub fn new(os: Os) -> (r: Tray)
        ensures
            r == (Tray {
                os,
                hwnd: 0,
                started: false,
                icon_active: false,
                icon: 0,
                quit: false,
                restore: false,
                last_click: 0,
            }),
    {
        Tray {
            os,
            hwnd: 0,
            started: false,
            icon_active: false,
            icon: 0,
            quit: false,
            restore: false,
            last_click: 0,
        }
    }

    /// The state after a message, and what is to be done about it.
    pub open spec fn after_message(self, msg: u32, wparam: usize, lparam: isize, now: u64) -> (
        Tray,
        Reaction,
    ) {
        if msg == WM_TRAY_QUIT {
            (self, Reaction::EndLoop)
        } else if msg == WM_COMMAND && wparam % 0x10000 == MENU_RESTORE {
            (Tray { restore: true, ..self }, Reaction::Handled)
        } else if msg == WM_COMMAND && wparam % 0x10000 == MENU_QUIT {
            (Tray { quit: true, ..self }, Reaction::Handled)
        } else if msg == WM_TRAY_CALLBACK && lparam == WM_LBUTTONUP {
            (
                Tray {
                    last_click: now,
                    restore: self.restore || double_click(self.last_click, now),
                    ..self
                },
                Reaction::Handled,
            )
        } else if msg == WM_TRAY_CALLBACK && lparam == WM_RBUTTONUP {
            (self, Reaction::ShowMenu)
        } else if msg == WM_TRAY_CALLBACK {
            (self, Reaction::Handled)
        } else {
            (self, Reaction::Default)
        }
    }

    /// Takes a message of the hidden window. In a message of the icon
    /// `lparam` is the mouse message; the item that was chosen in the menu is
    /// the low word of `wparam`. Single clicks do nothing.
    pub fn wnd_proc(&mut self, msg: u32, wparam: usize, lparam: isize, now: u64) -> (r: Reaction)
        ensures
            (*final(self), r) == old(self).after_message(msg, wparam, lparam, now),
    {
        if msg == WM_TRAY_QUIT {
            return Reaction::EndLoop;
        }
        if msg == WM_COMMAND && wparam % 0x10000 == MENU_RESTORE {
            self.restore = true;
            return Reaction::Handled;
        }
        if msg == WM_COMMAND && wparam % 0x10000 == MENU_QUIT {
            self.quit = true;
            return Reaction::Handled;
        }
        if msg == WM_TRAY_CALLBACK {
            if lparam == WM_LBUTTONUP {
                let last: u64 = self.last_click;
                self.last_click = now;
                if last != 0 && now.saturating_sub(last) < DOUBLE_CLICK_MS {
                    self.restore = true;
                }
                return Reaction::Handled;
            }
            if lparam == WM_RBUTTONUP {
                return Reaction::ShowMenu;
            }
            return Reaction::Handled;
        }
        Reaction::Default
    }

    /// Takes the window that the message loop created (0 when that failed):
    /// whether the loop is to run. Without a window the tray can be started
    /// again.
    pub fn window_created(&mut self, hwnd: usize) -> (r: bool)
        ensures
            r == (hwnd != 0),
            *final(self) == (if hwnd != 0 {
                Tray { hwnd, ..*old(self) }
            } else {
                Tray { started: false, ..*old(self) }
            }),
    {
        if hwnd != 0 {
            self.hwnd = hwnd;
        } else {
            self.started = false;
        }
        hwnd != 0
    }

    /// Whether the icon is to be put into the notification area: it is not
    /// there yet.
    pub fn add_icon(&mut self) -> (r: bool)
        ensures
            r == !old(self).icon_active,
            *final(self) == (Tray { icon_active: true, ..*old(self) }),
    {
        let first = !self.icon_active;
        self.icon_active = true;
        first
    }

    /// The icon could not be put there.
    pub fn icon_refused(&mut self)
        ensures
            *final(self) == (Tray { icon_active: false, ..*old(self) }),
    {
        self.icon_active = false;
    }

    /// Whether the icon is to be taken out of the notification area: it is
    /// there.
    pub fn remove_icon(&mut self) -> (r: bool)
        ensures
            r == old(self).icon_active,
            *final(self) == (Tray { icon_active: false, ..*old(self) }),
    {
        let there = self.icon_active;
        self.icon_active = false;
        there
    }

    /// Takes the icon that was loaded for the theme (0 when that failed): the
    /// icon that was applied before and is now to be released.
    pub fn icon_loaded(&mut self, icon: usize) -> (r: Option<usize>)
        ensures
            r == (if icon != 0 && old(self).icon != 0 {
                Some(old(self).icon)
            } else {
                None
            }),
            *final(self) == (if icon != 0 {
                Tray { icon, ..*old(self) }
            } else {
                *old(self)
            }),
    {
        if icon == 0 {
            return None;
        }
        let before: usize = self.icon;
        self.icon = icon;
        if before != 0 {
            Some(before)
        } else {
            None
        }
    }
}

/// Starts the tray: whether its thread is to be started now. Only the first
/// call starts it, later calls do nothing; on macOS there is no tray to start.
pub fn start(tray: &mut Tray) -> (r: bool)
    ensures
        r == (old(tray).os != Os::Macos && !old(tray).started),
        *final(tray) == (if old(tray).os != Os::Macos {
            Tray { started: true, ..*old(tray) }
        } else {
            *old(tray)
        }),
{
    if tray.os == Os::Macos {
        return false;
    }
    let first = !tray.started;
    tray.started = true;
    first
}

/// The desktop has nothing to show an indicator with: the tray can be started
/// again.
pub fn start_failed(tray: &mut Tray)
    ensures
        *final(tray) == (Tray { started: false, ..*old(tray) }),
{
    tray.started = false;
}

/// What is logged when the window closes and the launcher stays in the tray;
/// on macOS nothing is.
///
/// The window closes for real, which frees its memory; the icon is already
/// there, so nothing is left to hide.
pub fn hide_to_tray(tray: &Tray) -> (r: Option<&'static str>)
    ensures
        match tray.os {
            Os::Windows => r is Some && r->0@
                == "tray: window closed, keeping dsh running (close-to-tray)"@,
            Os::Linux => r is Some && r->0@
                == "tray: window closed, keeping dsh running in tray"@,
            Os::Macos => r is None,
        },
{
    match tray.os {
        Os::Windows => Some("tray: window closed, keeping dsh running (close-to-tray)"),
        Os::Linux => Some("tray: window closed, keeping dsh running in tray"),
        Os::Macos => None,
    }
}

/// True when the user chose "quit" from the tray menu.
pub fn quit_requested(tray: &Tray) -> (r: bool)
    ensures
        r == (tray.os != Os::Macos && tray.quit),
{
    tray.os != Os::Macos && tray.quit
}

/// True once when the user chose "restore window" from the tray (double click
/// or menu).
pub fn restore_requested(tray: &mut Tray) -> (r: bool)
    ensures
        r == (old(tray).os != Os::Macos && old(tray).restore),
        *final(tray) == (if old(tray).os == Os::Macos {
            *old(tray)
        } else {
            Tray { restore: false, ..*old(tray) }
        }),
{
    if tray.os == Os::Macos {
        return false;
    }
    let asked = tray.restore;
    tray.restore = false;
    asked
}

/// What is to be done to shut the tray down.
#[derive(Debug, Clone, Copy, PartialEq, Eq, Structural)]
pub struct TrayShutdown {
    /// Take the icon out of the notification area.
    pub remove_icon: bool,
    /// Send the hidden window the message that ends the loop.
    pub end_loop: bool,
}

/// Removes the icon and stops the message loop (on shutdown). The loop of a
/// Linux indicator is left running: the process exits right after.
pub fn shutdown(tray: &mut Tray) -> (r: TrayShutdown)
    ensures
        r == (TrayShutdown {
            remove_icon: old(tray).os == Os::Windows && old(tray).icon_active,
            end_loop: old(tray).os == Os::Windows && old(tray).hwnd != 0,
        }),
        *final(tray) == (if old(tray).os == Os::Windows {
            Tray { icon_active: false, ..*old(tray) }
        } else {
            *old(tray)
        }),
{
    if tray.os != Os::Windows {
        return TrayShutdown { remove_icon: false, end_loop: false };
    }
    let remove_icon = tray.remove_icon();
    TrayShutdown { remove_icon, end_loop: tray.hwnd != 0 }
}

/// Where the icon for the theme is written, when the tray is to show it: it
/// has a window and its icon is in the notification area.
pub fn set_icon(tray: &Tray, host: &Host, dark: bool) -> (r: Option<String>)
    ensures
        opt_view(r) == (if tray.hwnd != 0 && tray.icon_active {
            Some(path_in2(host.os, host@.cache_dir(), "dshl"@, icon_file(dark)))
        } else {
            None
        }),
{
    if tray.hwnd == 0 || !tray.icon_active {
        return None;
    }
    Some(icon_path(host, dark))
}

/// The text that the icon shows under the mouse.
pub const TIP: &'static str = "DSHL · DeepSeek Harness";

/// The room for that text, without the zero at its end.
pub const TIP_UNITS: usize = 127;

/// The text under the mouse as the system takes it, no longer than there is
/// room.
pub fn tip() -> (r: Vec<u16>)
    ensures
        r@ == (if wide_text(TIP@).len() > TIP_UNITS {
            wide_text(TIP@).take(TIP_UNITS as int)
        } else {
            wide_text(TIP@)
        }),
{
    let mut units = wide(TIP);
    if units.len() > TIP_UNITS {
        units.truncate(TIP_UNITS);
        assert(units@ =~= wide_text(TIP@).take(TIP_UNITS as int));
    }
    units
}

/// No message of the icon takes a request back: what the user asked for stays
/// asked for until the launcher has served it.
pub proof fn requests_are_kept(tray: Tray, msg: u32, wparam: usize, lparam: isize, now: u64)
    ensures
        tray.quit ==> tray.after_message(msg, wparam, lparam, now).0.quit,
        tray.restore ==> tray.after_message(msg, wparam, lparam, now).0.restore,
{
}

/// Two clicks within the gap of a double click ask for the window, and a
/// single click of an idle tray does not.
pub proof fn a_double_click_restores(tray: Tray, wparam: usize, first: u64, second: u64)
    requires
        first > 0,
        first <= second,
        !tray.restore,
        tray.last_click == 0,
    ensures
        ({
            let once = tray.after_message(WM_TRAY_CALLBACK, wparam, WM_LBUTTONUP, first).0;
            let twice = once.after_message(WM_TRAY_CALLBACK, wparam, WM_LBUTTONUP, second).0;
            &&& !once.restore
            &&& twice.restore == (second - first < DOUBLE_CLICK_MS)
        }),
{
}

/// What the messages of the icon mean: the first item of the menu restores the
/// window, the second quits, whatever the high word holds; a right click shows
/// the menu, and the message for it ends the loop.
pub proof fn what_the_messages_mean(tray: Tray, high: usize, wparam: usize, lparam: isize, now: u64)
    requires
        high < 0x10000,
    ensures
        ({
            let (after, reaction) = tray.after_message(
                0x0111,
                (high * 0x10000 + 1) as usize,
                lparam,
                now,
            );
            after == (Tray { restore: true, ..tray }) && reaction == Reaction::Handled
        }),
        ({
            let (after, reaction) = tray.after_message(
                0x0111,
                (high * 0x10000 + 2) as usize,
                lparam,
                now,
            );
            after == (Tray { quit: true, ..tray }) && reaction == Reaction::Handled
        }),
        tray.after_message(0x8001, wparam, 0x0205, now) == (tray, Reaction::ShowMenu),
        tray.after_message(0x8002, wparam, lparam, now) == (tray, Reaction::EndLoop),
        ({
            let (after, reaction) = tray.after_message(0x8001, wparam, 0x0202, now);
            &&& after.last_click == now
            &&& after.quit == tray.quit
            &&& after.hwnd == tray.hwnd
            &&& after.started == tray.started
            &&& after.icon_active == tray.icon_active
            &&& reaction == Reaction::Handled
        }),
{
    let r: int = high * 0x10000 + 1;
    let q: int = high * 0x10000 + 2;
    assert(0 <= r <= u32::MAX && 0 <= q <= u32::MAX);
    assert(r % 0x10000 == 1);
    assert(q % 0x10000 == 2);
}

/// Other messages change nothing: those of the icon are handled, and the rest
/// is left to the system.
pub proof fn other_messages_change_nothing(
    tray: Tray,
    msg: u32,
    wparam: usize,
    lparam: isize,
    now: u64,
)
    ensures
        msg != 0x0111 && msg != 0x8001 && msg != 0x8002 ==> tray.after_message(
            msg,
            wparam,
            lparam,
            now,
        ) == (tray, Reaction::Default),
        lparam != 0x0202 && lparam != 0x0205 ==> tray.after_message(0x8001, wparam, lparam, now)
            == (tray, Reaction::Handled),
        wparam == 0 ==> tray.after_message(0x0111, wparam, lparam, now) == (
            tray,
            Reaction::Default,
        ),
{
}

/// Two clicks are a double click where less than 400 ms lie between them.
pub proof fn two_quick_clicks_are_a_double_click(first: u64, second: u64)
    requires
        0 < first <= second,
    ensures
        double_click(first, second) <==> second - first < 400,
        !double_click(0, second),
{
}

} // verus!
