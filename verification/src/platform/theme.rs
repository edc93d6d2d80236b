//! OS theme detection (dark mode) and window theming.

use vstd::prelude::*;
use super::detect::Os;
use super::paths::{cache_dir, join, path_in2, Host};
use crate::text::{
    all_white, is_white, opt_view, same, trim, trimmed, white_space_around_a_text_is_trimmed,
};

verus! {

/// Whether the system is in dark mode.
pub open spec fn dark(
    os: Os,
    apps_light: Option<u32>,
    system_light: Option<u32>,
    style: Option<Seq<char>>,
) -> bool {
    match os {
        Os::Windows => match apps_light {
            Some(light) => light == 0,
            None => system_light == Some(0u32),
        },
        Os::Macos => match style {
            Some(style) => trimmed(style) == "Dark"@,
            None => false,
        },
        Os::Linux => false,
    }
}

/// True when the OS is in dark mode.
///
/// Windows: the first of the registry values `AppsUseLightTheme` and
/// `SystemUsesLightTheme` that exists is 0. macOS: the global
/// `AppleInterfaceStyle` default, as `defaults` prints it, is `Dark`. Others:
/// false.
pub fn is_dark_mode(
    os: Os,
    apps_light: Option<u32>,
    system_light: Option<u32>,
    style: &Option<String>,
) -> (r: bool)
    ensures
        r == dark(os, apps_light, system_light, opt_view(*style)),
{
    match os {
        Os::Windows => win_dark_mode(apps_light, system_light),
        Os::Macos => macos_dark_mode(style),
        Os::Linux => false,
    }
}

fn win_dark_mode(apps_light: Option<u32>, system_light: Option<u32>) -> (r: bool)
    ensures
        r == dark(Os::Windows, apps_light, system_light, None),
{
    match apps_light {
        Some(light) => light == 0,
        None => match system_light {
            Some(light) => light == 0,
            None => false,
        },
    }
}

fn macos_dark_mode(style: &Option<String>) -> (r: bool)
    ensures
        r == dark(Os::Macos, None, None, opt_view(*style)),
{
    match style {
        Some(style) => same(trim(style.as_str()).as_str(), "Dark"),
        None => false,
    }
}

/// The attributes of a window that make its titlebar dark or light, and their
/// value.
pub open spec fn titlebar(os: Os, dark: bool) -> Seq<(u32, i32)> {
    let value = if dark {
        1i32
    } else {
        0i32
    };
    if os == Os::Windows {
        seq![(20u32, value), (19u32, value)]
    } else {
        seq![]
    }
}

/// The attributes that give a window the OS dark titlebar when `dark` is true:
/// both the one of newer and the one of older systems, each of which ignores
/// the other.
pub fn set_dark_titlebar(os: Os, dark: bool) -> (r: Vec<(u32, i32)>)
    ensures
        r@ == titlebar(os, dark),
{
    let value: i32 = if dark {
        1
    } else {
        0
    };
    let r: Vec<(u32, i32)> = if os == Os::Windows {
        vec![(20u32, value), (19u32, value)]
    } else {
        Vec::new()
    };
    assert(r@ =~= titlebar(os, dark));
    r
}

/// Whether the icon of a window was replaced: the icon file could be loaded,
/// and the system is one whose windows take it.
pub fn set_window_icon(os: Os, loaded: bool) -> (r: bool)
    ensures
        r == (os == Os::Windows && loaded),
{
    os == Os::Windows && loaded
}

/// The file name of the icon for a theme: the white icon at night, the black
/// one by day.
pub open spec fn icon_file(dark: bool) -> Seq<char> {
    if dark {
        "dsh-white.ico"@
    } else {
        "dsh.ico"@
    }
}

/// Where the icon for a theme is written.
pub fn icon_path(host: &Host, dark: bool) -> (r: String)
    ensures
        r@ == path_in2(host.os, host@.cache_dir(), "dshl"@, icon_file(dark)),
{
    let name = if dark {
        "dsh-white.ico"
    } else {
        "dsh.ico"
    };
    let dir = join(host.os, cache_dir(host).as_str(), "dshl");
    join(host.os, dir.as_str(), name)
}

/// The look that a window gets.
#[derive(Debug)]
pub struct WindowTheme {
    /// Whether the titlebar is dark and the icon the white one.
    pub dark: bool,
    /// Where the icon is written and loaded from, if there is one.
    pub icon: Option<String>,
}

/// The OS-theme look of a window: a dark titlebar when the system is in dark
/// mode, and the matching icon. Nothing is done to a window without a handle,
/// nor elsewhere than on Windows; a theme whose icon is empty keeps the icon.
pub fn apply_window_theme(
    host: &Host,
    hwnd: usize,
    dark: bool,
    black_icon: &Vec<u8>,
    white_icon: &Vec<u8>,
) -> (r: Option<WindowTheme>)
    ensures
        r is Some == (host.os == Os::Windows && hwnd != 0),
        r matches Some(t) ==> t.dark == dark && opt_view(t.icon) == ({
            let bytes = if dark {
                white_icon@
            } else {
                black_icon@
            };
            if bytes.len() > 0 {
                Some(path_in2(host.os, host@.cache_dir(), "dshl"@, icon_file(dark)))
            } else {
                None
            }
        }),
{
    if host.os != Os::Windows || hwnd == 0 {
        return None;
    }
    let len: usize = if dark {
        white_icon.len()
    } else {
        black_icon.len()
    };
    let icon = if len > 0 {
        Some(icon_path(host, dark))
    } else {
        None
    };
    Some(WindowTheme { dark, icon })
}

// ---- laws ----------------------------------------------------------------

/// On Windows the setting of the applications decides, and the one of the
/// system where that is missing; 0 means dark. The style of macOS decides there,
/// and elsewhere nothing is dark.
pub proof fn the_setting_of_the_system_decides(
    apps: u32,
    system: Option<u32>,
    before: Seq<char>,
    style: Seq<char>,
    after: Seq<char>,
)
    requires
        all_white(before),
        all_white(after),
        style.len() > 0,
        !is_white(style[0]),
        !is_white(style.last()),
    ensures
        dark(Os::Windows, Some(apps), system, None) <==> apps == 0,
        dark(Os::Windows, None, system, None) <==> system == Some(0u32),
        dark(Os::Macos, None, None, Some(before + style + after)) <==> style == "Dark"@,
        !dark(Os::Macos, Some(0), Some(0), None),
        !dark(Os::Linux, Some(0), Some(0), Some("Dark"@)),
{
    white_space_around_a_text_is_trimmed(before, style, after);
}

/// A dark window has a dark titlebar under both attributes and the white icon,
/// a light one neither.
pub proof fn a_dark_window_has_the_white_icon(os: Os, night: bool, i: int)
    ensures
        icon_file(true) == "dsh-white.ico"@,
        icon_file(false) == "dsh.ico"@,
        os != Os::Windows ==> titlebar(os, night).len() == 0,
        os == Os::Windows ==> titlebar(os, night).len() == 2 && titlebar(os, night)[0].0 == 20
            && titlebar(os, night)[1].0 == 19,
        0 <= i < titlebar(os, true).len() ==> titlebar(os, true)[i].1 == 1,
        0 <= i < titlebar(os, false).len() ==> titlebar(os, false)[i].1 == 0,
{
}

} // verus!
