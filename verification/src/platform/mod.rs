//! Everything that differs between Windows, Linux and macOS.
//!
//! Nothing here asks the machine: the host is described by a [`Host`] value.

pub mod actions;
pub mod detect;
pub mod path;
pub mod paths;
pub mod process;
pub mod single_instance;
pub mod theme;
pub mod tray;
pub mod window;

pub use detect::{
    arch, arch_name, distro, os, os_name, shell, shell_command, Arch, Distro, Os, Shell,
    ARCH_RELEASE,
};
pub use paths::{
    bin_dir, cache_dir, config_dir, default_pnpm_bin_dir, executable_ext, home_dir, join,
    known_tool_dirs, parent, tool, which, which_in, with_ext, Host,
};
