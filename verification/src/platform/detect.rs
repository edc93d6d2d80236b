//! Operating system, architecture and shell of the host.

use vstd::prelude::*;
use crate::process::command::{plain, Cmd};
use crate::text::same;

verus! {

#[derive(Debug, Clone, Copy, PartialEq, Eq, Structural)]
pub enum Os {
    Windows,
    Linux,
    Macos,
}

#[derive(Debug, Clone, Copy, PartialEq, Eq, Structural)]
pub enum Arch {
    X86_64,
    Aarch64,
    Other,
}

/// The distributions that are told apart.
#[derive(Debug, Clone, Copy, PartialEq, Eq, Structural)]
pub enum Distro {
    /// Arch Linux, which manages its packages with pacman.
    Arch,
    Other,
}

#[derive(Debug, Clone, Copy, PartialEq, Eq, Structural)]
pub enum Shell {
    /// `powershell -NoProfile -Command`
    PowerShell,
    /// `cmd /C`
    Cmd,
    /// `bash -lc`
    Bash,
    /// `sh -c`
    Sh,
}

/// The system that a name stands for.
pub open spec fn os_of(target: Seq<char>) -> Os {
    if target == "windows"@ {
        Os::Windows
    } else if target == "macos"@ {
        Os::Macos
    } else {
        Os::Linux
    }
}

/// The architecture that a name stands for.
pub open spec fn arch_of(name: Seq<char>) -> Arch {
    if name == "x86_64"@ {
        Arch::X86_64
    } else if name == "aarch64"@ {
        Arch::Aarch64
    } else {
        Arch::Other
    }
}

/// The host OS, from the name of the target that the program was built for.
/// Other unix-likes are treated as Linux.
pub fn os(target: &str) -> (r: Os)
    ensures
        r == os_of(target@),
{
    if same(target, "windows") {
        Os::Windows
    } else if same(target, "macos") {
        Os::Macos
    } else {
        Os::Linux
    }
}

/// The host CPU architecture, from its name.
pub fn arch(name: &str) -> (r: Arch)
    ensures
        r == arch_of(name@),
{
    if same(name, "x86_64") {
        Arch::X86_64
    } else if same(name, "aarch64") {
        Arch::Aarch64
    } else {
        Arch::Other
    }
}

/// The file that only Arch Linux has.
pub const ARCH_RELEASE: &'static str = "/etc/arch-release";

/// The distribution of the host, given whether it has the [`ARCH_RELEASE`]
/// file.
pub fn distro(os: Os, arch_release: bool) -> (r: Distro)
    ensures
        r == (if os == Os::Linux && arch_release {
            Distro::Arch
        } else {
            Distro::Other
        }),
{
    if os == Os::Linux && arch_release {
        Distro::Arch
    } else {
        Distro::Other
    }
}

pub open spec fn os_text(os: Os) -> Seq<char> {
    match os {
        Os::Windows => "windows"@,
        Os::Linux => "linux"@,
        Os::Macos => "macos"@,
    }
}

/// The name of an OS.
pub fn os_name(os: Os) -> (r: &'static str)
    ensures
        r@ == os_text(os),
{
    match os {
        Os::Windows => "windows",
        Os::Linux => "linux",
        Os::Macos => "macos",
    }
}

/// The name of the architecture called `name`: known and unknown ones keep
/// their name.
pub fn arch_name(name: &str) -> (r: String)
    ensures
        r@ == name@,
{
    match arch(name) {
        Arch::X86_64 => "x86_64".to_owned(),
        Arch::Aarch64 => "aarch64".to_owned(),
        Arch::Other => name.to_owned(),
    }
}

/// The shell used to run script snippets (install scripts, nvm, ...).
pub fn shell(os: Os) -> (r: Shell)
    ensures
        r == (if os == Os::Windows {
            Shell::PowerShell
        } else {
            Shell::Bash
        }),
{
    match os {
        Os::Windows => Shell::PowerShell,
        Os::Macos | Os::Linux => Shell::Bash,
    }
}

pub open spec fn shell_program(shell: Shell) -> Seq<char> {
    match shell {
        Shell::PowerShell => "powershell"@,
        Shell::Cmd => "cmd"@,
        Shell::Bash => "bash"@,
        Shell::Sh => "sh"@,
    }
}

pub open spec fn shell_args(shell: Shell) -> Seq<Seq<char>> {
    match shell {
        Shell::PowerShell => seq!["-NoProfile"@, "-NonInteractive"@, "-Command"@],
        Shell::Cmd => seq!["/C"@],
        Shell::Bash => seq!["-lc"@],
        Shell::Sh => seq!["-c"@],
    }
}

/// A command that runs the snippet appended to it through `shell`.
pub fn shell_command(shell: Shell) -> (r: Cmd)
    ensures
        r@ == plain(shell_program(shell), shell_args(shell)),
{
    let c = match shell {
        Shell::PowerShell => {
            let mut c = Cmd::new("powershell");
            c.arg("-NoProfile");
            c.arg("-NonInteractive");
            c.arg("-Command");
            c
        },
        Shell::Cmd => {
            let mut c = Cmd::new("cmd");
            c.arg("/C");
            c
        },
        Shell::Bash => {
            let mut c = Cmd::new("bash");
            c.arg("-lc");
            c
        },
        Shell::Sh => {
            let mut c = Cmd::new("sh");
            c.arg("-c");
            c
        },
    };
    assert(c@ =~= plain(shell_program(shell), shell_args(shell)));
    c
}

/// Every shell is told that a script follows by its last argument.
pub proof fn every_shell_takes_a_script(shell: Shell)
    ensures
        shell_args(shell).len() > 0,
        shell_args(shell).last() == (match shell {
            Shell::PowerShell => "-Command"@,
            Shell::Cmd => "/C"@,
            Shell::Bash => "-lc"@,
            Shell::Sh => "-c"@,
        }),
        shell == Shell::PowerShell <==> shell_program(shell) == "powershell"@,
        shell == Shell::Cmd <==> shell_program(shell) == "cmd"@,
        shell == Shell::Bash <==> shell_program(shell) == "bash"@,
        shell == Shell::Sh <==> shell_program(shell) == "sh"@,
{
    reveal_strlit("powershell");
    reveal_strlit("cmd");
    reveal_strlit("bash");
    reveal_strlit("sh");
    assert("powershell"@.len() == 10 && "cmd"@.len() == 3 && "bash"@.len() == 4 && "sh"@.len()
        == 2);
}

/// The names of the systems tell them apart.
pub proof fn systems_are_told_apart_by_their_names(a: Os, b: Os)
    ensures
        os_text(a) == os_text(b) <==> a == b,
        os_text(Os::Windows) == "windows"@,
        os_text(Os::Macos) == "macos"@,
        os_text(Os::Linux) == "linux"@,
{
    reveal_strlit("windows");
    reveal_strlit("macos");
    reveal_strlit("linux");
    assert("windows"@.len() == 7);
    assert("macos"@[0] == 'm');
    assert("linux"@[0] == 'l');
    assert("macos"@.len() == 5 && "linux"@.len() == 5);
}

/// A system is recognised by its name, and a machine by its own.
pub proof fn systems_are_recognised_by_their_names(os: Os, name: Seq<char>)
    ensures
        os_of(os_text(os)) == os,
        arch_of("x86_64"@) == Arch::X86_64,
        arch_of("aarch64"@) == Arch::Aarch64,
        name != "x86_64"@ && name != "aarch64"@ ==> arch_of(name) == Arch::Other,
        name != "windows"@ && name != "macos"@ ==> os_of(name) == Os::Linux,
{
    systems_are_told_apart_by_their_names(os, Os::Windows);
    systems_are_told_apart_by_their_names(os, Os::Macos);
    reveal_strlit("x86_64");
    reveal_strlit("aarch64");
    assert("x86_64"@.len() == 6 && "aarch64"@.len() == 7);
}

} // verus!
