//! Process discovery, liveness and tree-kill, as commands and as readings of
//! what they print.

use vstd::prelude::*;
use vstd::string::*;
use super::detect::Os;
use crate::process::command::{plain, Cmd};
use crate::platform::actions::cmd_views;
use crate::process::command::CmdView;
use crate::text::{
    dec, dec_value, decimal, decimal_comes_back, is_digit, is_white, joined, joined_pieces_come_back,
    lemma_find_char, lines, lines_of, numbers_are_read_from_their_digits, opt_view, parse_u32,
    read_u32, split_on, the_first_line_ends_at_the_line_feed, trim, trimmed,
    white_space_around_a_text_is_trimmed,
};

verus! {

/// The command that kills a process.
pub open spec fn kill_command(os: Os, pid: u32) -> CmdView {
    if os == Os::Windows {
        plain("taskkill"@, seq!["/F"@, "/T"@, "/PID"@, dec(pid as nat)])
    } else {
        plain("kill"@, seq!["-KILL"@, dec(pid as nat)])
    }
}

/// Force-kills a process and, on Windows, its descendants.
///
/// On Windows `taskkill /F /T` walks the parent-child tree; on Unix `SIGKILL`
/// is sent.
pub fn kill_tree(os: Os, pid: u32) -> (r: Cmd)
    ensures
        r@ == kill_command(os, pid),
{
    let number = decimal(pid as u64);
    if os == Os::Windows {
        let mut cmd = Cmd::new("taskkill");
        cmd.arg("/F");
        cmd.arg("/T");
        cmd.arg("/PID");
        cmd.arg(number.as_str());
        assert(cmd@.args =~= seq!["/F"@, "/T"@, "/PID"@, dec(pid as nat)]);
        cmd
    } else {
        let mut cmd = Cmd::new("kill");
        cmd.arg("-KILL");
        cmd.arg(number.as_str());
        assert(cmd@.args =~= seq!["-KILL"@, dec(pid as nat)]);
        cmd
    }
}

/// `STILL_ACTIVE`: a Windows process with this exit code is running.
pub const STILL_ACTIVE: u32 = 259;

/// Whether a Windows process runs, from its exit code. A process that cannot
/// be opened, or whose code cannot be read, does not.
pub fn win_alive(code: Option<u32>) -> (r: bool)
    ensures
        r == (code == Some(STILL_ACTIVE)),
{
    match code {
        Some(code) => code == STILL_ACTIVE,
        None => false,
    }
}

/// Whether the process `pid` is still running, where `answers` is what the OS
/// said of it. There is no process 0.
pub fn process_alive(pid: u32, answers: bool) -> (r: bool)
    ensures
        r == (pid != 0 && answers),
{
    pid != 0 && answers
}

/// The process id in what a query printed: on Windows the whole text, on Unix
/// its first line.
pub open spec fn printed_pid(os: Os, stdout: Option<Seq<char>>) -> Option<u32> {
    match stdout {
        None => None,
        Some(text) => if os == Os::Windows {
            read_u32(trimmed(text))
        } else if lines_of(text).len() > 0 {
            read_u32(trimmed(lines_of(text)[0]))
        } else {
            None
        },
    }
}

fn read_pid(os: Os, stdout: &Option<String>) -> (r: Option<u32>)
    ensures
        r == printed_pid(os, opt_view(*stdout)),
{
    match stdout {
        None => None,
        Some(text) => {
            if os == Os::Windows {
                parse_u32(trim(text.as_str()).as_str())
            } else {
                let list = lines(text.as_str());
                assert(crate::text::views(list@) == lines_of(text@));
                assert(crate::text::views(list@).len() == list@.len());
                if list.len() > 0 {
                    assert(crate::text::views(list@)[0] == list@[0]@);
                    parse_u32(trim(list[0].as_str()).as_str())
                } else {
                    None
                }
            }
        },
    }
}

/// The PowerShell query for a browser whose command line holds `needle`.
///
/// It is restricted to browsers, so that it never finds the shell that runs
/// it, whose command line holds the text as well.
pub open spec fn browser_script(needle: Seq<char>) -> Seq<char> {
    "(Get-CimInstance Win32_Process | Where-Object { $_.Name -match 'msedge|chrome|firefox|chromium|brave|vivaldi|opera|yandex|epic' -and $_.CommandLine -and $_.CommandLine -match [regex]::Escape('"@
        + needle + "') } | Select-Object -First 1).ProcessId"@
}

/// The command that runs a PowerShell query.
pub open spec fn powershell(script: Seq<char>) -> CmdView {
    plain("powershell"@, seq!["-NoProfile"@, "-NonInteractive"@, "-Command"@, script])
}

fn powershell_query(script: &str) -> (r: Cmd)
    ensures
        r@ == powershell(script@),
{
    let mut cmd = Cmd::new("powershell");
    cmd.arg("-NoProfile");
    cmd.arg("-NonInteractive");
    cmd.arg("-Command");
    cmd.arg(script);
    assert(cmd@ =~= powershell(script@));
    cmd
}

fn pgrep(flag: &str, pattern: &str) -> (r: Cmd)
    ensures
        r@ == plain("pgrep"@, seq![flag@, pattern@]),
{
    let mut cmd = Cmd::new("pgrep");
    cmd.arg(flag);
    cmd.arg(pattern);
    assert(cmd@ =~= plain("pgrep"@, seq![flag@, pattern@]));
    cmd
}

/// The query for a process whose command line contains `needle`.
pub fn cmdline_query(os: Os, needle: &str) -> (r: Cmd)
    ensures
        r@ == (if os == Os::Windows {
            powershell(browser_script(needle@))
        } else {
            plain("pgrep"@, seq!["-f"@, needle@])
        }),
{
    if os == Os::Windows {
        let script =
            "(Get-CimInstance Win32_Process | Where-Object { $_.Name -match 'msedge|chrome|firefox|chromium|brave|vivaldi|opera|yandex|epic' -and $_.CommandLine -and $_.CommandLine -match [regex]::Escape('".to_owned().concat(
        needle).concat("') } | Select-Object -First 1).ProcessId");
        powershell_query(script.as_str())
    } else {
        pgrep("-f", needle)
    }
}

/// The process that a [`cmdline_query`] found, from what the query printed;
/// none when it could not be run.
///
/// This tracks the external browser window (its command line carries
/// `--app=http://localhost:<port>`), to notice when the user closes it.
pub fn find_process_by_cmdline(os: Os, stdout: &Option<String>) -> (r: Option<u32>)
    ensures
        r == printed_pid(os, opt_view(*stdout)),
{
    read_pid(os, stdout)
}

/// The PowerShell query for a running dsh.
pub const DSH_SCRIPT: &'static str = "(Get-CimInstance Win32_Process | Where-Object { $_.Name -eq 'dsh.exe' -or ($_.Name -eq 'node.exe' -and $_.CommandLine -match '@deepseek-ai[\\/]dsh[\\/]lib[\\/]bin\\.js') } | Select-Object -First 1).ProcessId";

/// The queries for a dsh that runs anywhere on the system, in the order in
/// which they are asked until one finds it.
pub open spec fn dsh_query_list(os: Os) -> Seq<CmdView> {
    if os == Os::Windows {
        seq![powershell(DSH_SCRIPT@)]
    } else {
        seq![
            plain("pgrep"@, seq!["-x"@, "dsh"@]),
            plain("pgrep"@, seq!["-f"@, "dsh/lib/bin.js"@]),
        ]
    }
}

/// The queries for a dsh that runs anywhere on the system: the compiled `dsh`
/// by its name and the node entry by its command line, so both `dsh --profile
/// web ...` and a manual `dsh web` are found.
pub fn dsh_queries(os: Os) -> (r: Vec<Cmd>)
    ensures
        cmd_views(r@) == dsh_query_list(os),
{
    let r = if os == Os::Windows {
        vec![powershell_query(DSH_SCRIPT)]
    } else {
        vec![pgrep("-x", "dsh"), pgrep("-f", "dsh/lib/bin.js")]
    };
    assert(cmd_views(r@) =~= dsh_query_list(os));
    r
}

/// The first process that any of the answers names.
pub open spec fn first_pid(os: Os, answers: Seq<Option<Seq<char>>>) -> Option<u32>
    decreases answers.len(),
{
    if answers.len() == 0 {
        None
    } else if printed_pid(os, answers[0]) is Some {
        printed_pid(os, answers[0])
    } else {
        first_pid(os, answers.skip(1))
    }
}

/// The contents of a list of answers.
pub open spec fn answer_views(list: Seq<Option<String>>) -> Seq<Option<Seq<char>>> {
    list.map_values(|s: Option<String>| opt_view(s))
}

/// The dsh that is running, from what the [`dsh_queries`] printed. A second
/// dsh must not start beside it: two processes that append to the same session
/// log corrupt it.
pub fn dsh_instance_running(os: Os, answers: &Vec<Option<String>>) -> (r: Option<u32>)
    ensures
        r == first_pid(os, answer_views(answers@)),
{
    let ghost all = answer_views(answers@);
    let mut i: usize = 0;
    assert(all.skip(0) =~= all);
    while i < answers.len()
        invariant
            0 <= i <= answers@.len(),
            all == answer_views(answers@),
            first_pid(os, all) == first_pid(os, all.skip(i as int)),
        decreases answers@.len() - i,
    {
        assert(all.skip(i as int)[0] == opt_view(answers@[i as int]));
        let found = read_pid(os, &answers[i]);
        if found.is_some() {
            return found;
        }
        assert(all.skip(i as int).skip(1) =~= all.skip(i + 1));
        i += 1;
    }
    None
}

// ---- laws ----------------------------------------------------------------

proof fn lemma_number_is_plain(n: nat)
    ensures
        !dec(n).contains('\n'),
        !dec(n).contains('\r'),
        dec(n).len() > 0,
        !is_white(dec(n)[0]),
        !is_white(dec(n).last()),
{
    decimal_comes_back(n);
    let d = dec(n);
    assert(is_digit(d[0]) && is_digit(d[d.len() - 1]));
    if d.contains('\n') {
        let k = choose|k: int| 0 <= k < d.len() && d[k] == '\n';
        assert(is_digit(d[k]));
    }
    if d.contains('\r') {
        let k = choose|k: int| 0 <= k < d.len() && d[k] == '\r';
        assert(is_digit(d[k]));
    }
}

/// A process is read from what a query prints: on Unix from the first line,
/// whatever follows, on Windows from the only one.
pub proof fn a_printed_process_is_read(os: Os, pid: u32, rest: Seq<char>)
    ensures
        os != Os::Windows ==> printed_pid(os, Some(dec(pid as nat) + seq!['\n'] + rest)) == Some(
            pid,
        ),
        printed_pid(os, Some(dec(pid as nat))) == Some(pid),
        os == Os::Windows ==> printed_pid(os, Some(dec(pid as nat) + seq!['\r', '\n'])) == Some(
            pid,
        ),
        printed_pid(os, None) is None,
        printed_pid(os, Some(seq![])) is None,
{
    let d = dec(pid as nat);
    let none = Seq::<char>::empty();
    let end = seq!['\r', '\n'];
    lemma_number_is_plain(pid as nat);
    numbers_are_read_from_their_digits(pid as nat);
    white_space_around_a_text_is_trimmed(none, d, none);
    assert(none + d + none =~= d);
    white_space_around_a_text_is_trimmed(none, d, end);
    assert(none + d + end =~= d + end);
    the_first_line_ends_at_the_line_feed(d, rest);
    white_space_around_a_text_is_trimmed(none, none, none);
    assert(none + none + none =~= none);
    lemma_find_char(none, '\n', 0);
    assert(lines_of(none).len() == 0);
}

/// The dsh that is running is the first that an answer names; none is running
/// exactly where no answer names one.
pub proof fn the_first_answer_counts(os: Os, answers: Seq<Option<Seq<char>>>, i: int)
    requires
        0 <= i < answers.len(),
    ensures
        printed_pid(os, answers[i]) is Some && (forall|j: int|
            0 <= j < i ==> printed_pid(os, #[trigger] answers[j]) is None) ==> first_pid(
            os,
            answers,
        ) == printed_pid(os, answers[i]),
        printed_pid(os, answers[i]) is Some ==> first_pid(os, answers) is Some,
        (forall|j: int|
            0 <= j < answers.len() ==> printed_pid(os, #[trigger] answers[j]) is None)
            ==> first_pid(os, answers) is None,
    decreases answers.len(),
{
    reveal_with_fuel(first_pid, 2);
    let rest = answers.skip(1);
    assert(forall|j: int| 0 <= j < rest.len() ==> #[trigger] rest[j] == answers[j + 1]);
    if printed_pid(os, answers[0]) is None && answers.len() > 1 {
        if i > 0 {
            the_first_answer_counts(os, rest, i - 1);
        } else {
            the_first_answer_counts(os, rest, 0);
        }
    }
}

/// dsh is looked for by its name and by its entry, and elsewhere than on
/// Windows the name comes first.
pub proof fn dsh_is_looked_for_by_name_and_entry(os: Os)
    ensures
        os != Os::Windows ==> dsh_query_list(os) == seq![
            plain("pgrep"@, seq!["-x"@, "dsh"@]),
            plain("pgrep"@, seq!["-f"@, "dsh/lib/bin.js"@]),
        ],
        os == Os::Windows ==> dsh_query_list(os).len() == 1 && dsh_query_list(os)[0].program
            == "powershell"@ && dsh_query_list(os)[0].args.last() == DSH_SCRIPT@,
{
}

/// Read by its quotes, the query for a browser names the browsers and then the
/// text that the command line holds.
pub proof fn the_query_for_a_browser_quotes_its_text(needle: Seq<char>)
    requires
        !needle.contains('\''),
    ensures
        split_on(browser_script(needle), '\'').len() == 5,
        split_on(browser_script(needle), '\'')[1]
            == "msedge|chrome|firefox|chromium|brave|vivaldi|opera|yandex|epic"@,
        split_on(browser_script(needle), '\'')[3] == needle,
{
    reveal_strlit("msedge|chrome|firefox|chromium|brave|vivaldi|opera|yandex|epic");
    reveal_strlit("(Get-CimInstance Win32_Process | Where-Object { $_.Name -match ");
    reveal_strlit(" -and $_.CommandLine -and $_.CommandLine -match [regex]::Escape(");
    reveal_strlit(") } | Select-Object -First 1).ProcessId");
    reveal_strlit("') } | Select-Object -First 1).ProcessId");
    reveal_strlit(
        "(Get-CimInstance Win32_Process | Where-Object { $_.Name -match 'msedge|chrome|firefox|chromium|brave|vivaldi|opera|yandex|epic' -and $_.CommandLine -and $_.CommandLine -match [regex]::Escape('",
    );
    let head = "(Get-CimInstance Win32_Process | Where-Object { $_.Name -match "@;
    let browsers = "msedge|chrome|firefox|chromium|brave|vivaldi|opera|yandex|epic"@;
    let test = " -and $_.CommandLine -and $_.CommandLine -match [regex]::Escape("@;
    let tail = ") } | Select-Object -First 1).ProcessId"@;
    let words = seq![head, browsers, test, needle, tail];
    let q = seq!['\''];
    assert("(Get-CimInstance Win32_Process | Where-Object { $_.Name -match 'msedge|chrome|firefox|chromium|brave|vivaldi|opera|yandex|epic' -and $_.CommandLine -and $_.CommandLine -match [regex]::Escape('"@
        =~= head + q + browsers + q + test + q);
    assert("') } | Select-Object -First 1).ProcessId"@ =~= q + tail);
    assert forall|i: int| 0 <= i < words.len() implies !(#[trigger] words[i]).contains('\'') by {
        assert(i == 0 || i == 1 || i == 2 || i == 3 || i == 4);
    }
    joined_pieces_come_back(words, '\'');
    reveal_with_fuel(joined, 5);
    assert(words.skip(1).skip(1) =~= words.skip(2));
    assert(words.skip(2).skip(1) =~= words.skip(3));
    assert(words.skip(3).skip(1) =~= words.skip(4));
    assert(joined(words, q) =~= browser_script(needle));
}

/// A query of PowerShell is its last argument.
pub proof fn a_query_is_one_argument(script: Seq<char>)
    ensures
        powershell(script).program == "powershell"@,
        powershell(script).args == seq!["-NoProfile"@, "-NonInteractive"@, "-Command"@, script],
{
}

/// A process is killed by its number, on Windows with all that it started.
pub proof fn a_process_is_killed_by_its_number(pid: u32)
    ensures
        kill_command(Os::Windows, pid).program == "taskkill"@,
        kill_command(Os::Windows, pid).args == seq!["/F"@, "/T"@, "/PID"@, dec(pid as nat)],
        kill_command(Os::Linux, pid) == plain("kill"@, seq!["-KILL"@, dec(pid as nat)]),
        kill_command(Os::Macos, pid) == kill_command(Os::Linux, pid),
        dec_value(kill_command(Os::Linux, pid).args.last()) == pid,
        dec_value(kill_command(Os::Windows, pid).args.last()) == pid,
{
    decimal_comes_back(pid as nat);
}

} // verus!
