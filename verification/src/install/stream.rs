//! A command whose output is streamed into the progress log.

use vstd::prelude::*;
use crate::message::{code_text, note1, note2, write_code, Message, MessageView};
use crate::process::Output;
use crate::text::{
    all_white, is_white, opt_view, trim, trimmed, white_space_around_a_text_is_trimmed,
};

verus! {

/// The text of a line without the white space around it, if any is left.
pub open spec fn logged(line: Seq<char>) -> Option<Seq<char>> {
    if trimmed(line).len() == 0 {
        None
    } else {
        Some(trimmed(line))
    }
}

/// What of an output line goes into the progress log: its text without the
/// white space around it, if any is left.
pub fn log_line(line: &Output) -> (r: Option<String>)
    ensures
        opt_view(r) == logged(line@.line),
{
    let t = trim(line.line());
    if t.as_str().is_empty() {
        None
    } else {
        Some(t)
    }
}

/// The error of a command that could not be started.
pub fn start_failed(label: &str, err: &str) -> (r: Message)
    ensures
        r@ == note2("stream.start_failed"@, "label"@, label@, "err"@, err@),
{
    Message::with2("stream.start_failed", "label", label, "err", err)
}

/// The error of a finished command, unless it went well.
pub open spec fn exit_error(label: Seq<char>, code: Option<i32>) -> Option<MessageView> {
    match code {
        Some(c) => if c == 0 {
            None
        } else {
            Some(note2("stream.exit_failed"@, "label"@, label, "code"@, code_text(c)))
        },
        None => Some(note1("stream.no_status"@, "label"@, label)),
    }
}

/// What a finished command means: only the exit code zero is a success.
pub fn exit_result(label: &str, code: Option<i32>) -> (r: Result<(), Message>)
    ensures
        match exit_error(label@, code) {
            None => r is Ok,
            Some(m) => r matches Err(e) && e@ == m,
        },
{
    match code {
        Some(c) => if c == 0 {
            Ok(())
        } else {
            Err(
                Message::with2(
                    "stream.exit_failed",
                    "label",
                    label,
                    "code",
                    write_code(c).as_str(),
                ),
            )
        },
        None => Err(Message::with1("stream.no_status", "label", label)),
    }
}

// ---- laws ----------------------------------------------------------------

/// A command went well exactly where it exited with zero; every other exit is
/// reported with its code, and a missing status as such, under the label of
/// the command.
pub proof fn only_zero_is_a_success(label: Seq<char>, code: i32)
    ensures
        exit_error(label, Some(0)) is None,
        code != 0 ==> exit_error(label, Some(code)) == Some(
            MessageView {
                key: "stream.exit_failed"@,
                args: seq![("label"@, label), ("code"@, code_text(code))],
            },
        ),
        exit_error(label, None) == Some(note1("stream.no_status"@, "label"@, label)),
{
}

/// What is logged of a line is its text without the white space around it, and
/// nothing of a blank one.
pub proof fn blank_lines_are_not_logged(before: Seq<char>, text: Seq<char>, after: Seq<char>)
    requires
        all_white(before),
        all_white(after),
        text.len() > 0 ==> !is_white(text[0]) && !is_white(text.last()),
    ensures
        logged(before + text + after) == (if text.len() > 0 {
            Some(text)
        } else {
            None
        }),
{
    white_space_around_a_text_is_trimmed(before, text, after);
}

} // verus!
