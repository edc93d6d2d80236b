//! The first flow: the host OS and CPU architecture.

use vstd::prelude::*;
use vstd::string::*;
use crate::message::{lines_said, note1, Line, LineView, Message};
use crate::platform::detect::os_text;
use crate::platform::paths::{or_empty, Host, HostView};
use crate::platform::{home_dir, os_name, shell, Shell};

verus! {

pub open spec fn shell_label(os: crate::platform::Os) -> Seq<char> {
    if os == crate::platform::Os::Windows {
        "PowerShell"@
    } else {
        "bash"@
    }
}

/// What is said about the host.
pub open spec fn system_lines(host: HostView, arch: Seq<char>) -> Seq<LineView> {
    let home = or_empty(host.home_dir());
    seq![
        LineView::Note(note1("flow.system.os"@, "os"@, os_text(host.os))),
        LineView::Note(note1("flow.system.arch"@, "arch"@, arch)),
        LineView::Text("Shell: "@ + shell_label(host.os)),
    ] + if home.len() > 0 {
        seq![LineView::Note(note1("flow.system.home"@, "home"@, home))]
    } else {
        seq![]
    }
}

/// What is said about the host, and the message of the finished step: the OS
/// and the architecture.
pub fn run(host: &Host, arch: &str) -> (r: (Vec<Line>, String))
    ensures
        lines_said(r.0@) == system_lines(host@, arch@),
        r.1@ == os_text(host.os) + "/"@ + arch@,
{
    let os = os_name(host.os);
    let label = match shell(host.os) {
        Shell::PowerShell => "PowerShell",
        Shell::Cmd => "cmd",
        Shell::Bash => "bash",
        Shell::Sh => "sh",
    };
    let mut said: Vec<Line> = Vec::new();
    said.push(Line::Note(Message::with1("flow.system.os", "os", os)));
    said.push(Line::Note(Message::with1("flow.system.arch", "arch", arch)));
    said.push(Line::Text("Shell: ".to_owned().concat(label)));
    if let Some(home) = home_dir(host) {
        if !home.as_str().is_empty() {
            said.push(Line::Note(Message::with1("flow.system.home", "home", home.as_str())));
        }
    }
    assert(lines_said(said@) =~= system_lines(host@, arch@));
    let done = os.to_owned().concat("/").concat(arch);
    (said, done)
}

/// The host is described by its system, its machine, its shell, and its home
/// directory where it has one.
pub proof fn the_host_is_described(host: HostView, arch: Seq<char>)
    ensures
        system_lines(host, arch)[0] == LineView::Note(
            note1("flow.system.os"@, "os"@, os_text(host.os)),
        ),
        system_lines(host, arch)[1] == LineView::Note(note1("flow.system.arch"@, "arch"@, arch)),
        host.os == crate::platform::Os::Windows ==> system_lines(host, arch)[2] == LineView::Text(
            "Shell: "@ + "PowerShell"@,
        ),
        host.os != crate::platform::Os::Windows ==> system_lines(host, arch)[2] == LineView::Text(
            "Shell: "@ + "bash"@,
        ),
        host.home_dir() is Some ==> system_lines(host, arch).len() == 4 && system_lines(
            host,
            arch,
        )[3] == LineView::Note(note1("flow.system.home"@, "home"@, host.home_dir()->0)),
        host.home_dir() is None ==> system_lines(host, arch).len() == 3,
{
}

} // verus!
