//! What is said to the user: messages that are not yet in any language, by the
//! key of a text and the values that are put into it, and lines of plain text.

use vstd::prelude::*;
use vstd::string::*;
use crate::text::{all_digits, dec, dec_value, decimal, decimal_comes_back};

verus! {

/// A message: log lines and errors alike.
#[derive(Debug, Clone, PartialEq, Eq)]
pub struct Message {
    pub key: &'static str,
    pub args: Vec<(&'static str, String)>,
}

/// A message as plain texts.
#[verifier::ext_equal]
pub struct MessageView {
    pub key: Seq<char>,
    pub args: Seq<(Seq<char>, Seq<char>)>,
}

impl View for Message {
    type V = MessageView;

    open spec fn view(&self) -> MessageView {
        MessageView {
            key: self.key@,
            args: self.args@.map_values(|p: (&'static str, String)| (p.0@, p.1@)),
        }
    }
}

/// A message without values.
pub open spec fn note(key: Seq<char>) -> MessageView {
    MessageView { key, args: seq![] }
}

/// A message with one value.
pub open spec fn note1(key: Seq<char>, name: Seq<char>, value: Seq<char>) -> MessageView {
    MessageView { key, args: seq![(name, value)] }
}

/// A message with two values.
pub open spec fn note2(
    key: Seq<char>,
    name: Seq<char>,
    value: Seq<char>,
    name2: Seq<char>,
    value2: Seq<char>,
) -> MessageView {
    MessageView { key, args: seq![(name, value), (name2, value2)] }
}

/// The contents of a list of messages.
pub open spec fn notes(list: Seq<Message>) -> Seq<MessageView> {
    list.map_values(|m: Message| m@)
}

/// What is said in one line: a text as it is, a message, or a message between
/// two texts.
#[derive(Debug, Clone, PartialEq, Eq)]
pub enum Line {
    Text(String),
    Note(Message),
    Around(String, Message, String),
}

/// A line as plain texts.
#[verifier::ext_equal]
pub enum LineView {
    Text(Seq<char>),
    Note(MessageView),
    Around(Seq<char>, MessageView, Seq<char>),
}

impl View for Line {
    type V = LineView;

    open spec fn view(&self) -> LineView {
        match self {
            Line::Text(text) => LineView::Text(text@),
            Line::Note(message) => LineView::Note(message@),
            Line::Around(before, message, after) => LineView::Around(before@, message@, after@),
        }
    }
}

/// The contents of a list of lines.
pub open spec fn lines_said(list: Seq<Line>) -> Seq<LineView> {
    list.map_values(|l: Line| l@)
}

impl Message {
    /// A message without values.
    pub fn new(key: &'static str) -> (r: Message)
        ensures
            r@ == note(key@),
    {
        let r = Message { key, args: Vec::new() };
        assert(r@ =~= note(key@));
        r
    }

    /// The message with one more value.
    pub fn with(self, name: &'static str, value: &str) -> (r: Message)
        ensures
            r@ == (MessageView { args: self@.args.push((name@, value@)), ..self@ }),
    {
        let mut args = self.args;
        args.push((name, value.to_owned()));
        let r = Message { key: self.key, args };
        assert(r@.args =~= self@.args.push((name@, value@)));
        r
    }

    /// A message with one value.
    pub fn with1(key: &'static str, name: &'static str, value: &str) -> (r: Message)
        ensures
            r@ == note1(key@, name@, value@),
    {
        let r = Message::new(key).with(name, value);
        assert(r@ =~= note1(key@, name@, value@));
        r
    }

    /// A message with two values.
    pub fn with2(
        key: &'static str,
        name: &'static str,
        value: &str,
        name2: &'static str,
        value2: &str,
    ) -> (r: Message)
        ensures
            r@ == note2(key@, name@, value@, name2@, value2@),
    {
        let r = Message::new(key).with(name, value).with(name2, value2);
        assert(r@ =~= note2(key@, name@, value@, name2@, value2@));
        r
    }
}

/// An exit code in decimal digits.
pub open spec fn code_text(code: i32) -> Seq<char> {
    if code < 0 {
        seq!['-'] + dec((-code) as nat)
    } else {
        dec(code as nat)
    }
}

/// Writes an exit code in decimal digits.
pub fn write_code(code: i32) -> (r: String)
    ensures
        r@ == code_text(code),
{
    if code < 0 {
        let mut s = String::new();
        s.push('-');
        s.append(decimal((-(code as i64)) as u64).as_str());
        assert(s@ =~= code_text(code));
        s
    } else {
        decimal(code as u64)
    }
}

/// An exit code, written down, stands for itself: its digits for its amount,
/// behind a minus sign exactly where it is negative.
pub proof fn an_exit_code_comes_back(code: i32)
    ensures
        code >= 0 ==> all_digits(code_text(code)) && dec_value(code_text(code)) == code,
        code < 0 ==> code_text(code)[0] == '-' && all_digits(code_text(code).skip(1)) && dec_value(
            code_text(code).skip(1),
        ) == -code,
{
    if code < 0 {
        decimal_comes_back((-code) as nat);
        assert(code_text(code).skip(1) =~= dec((-code) as nat));
    } else {
        decimal_comes_back(code as nat);
    }
}

/// A message holds its values under their names, in the order in which they
/// were given.
pub proof fn values_stand_under_their_names(
    key: Seq<char>,
    name: Seq<char>,
    value: Seq<char>,
    name2: Seq<char>,
    value2: Seq<char>,
)
    ensures
        note(key).key == key && note(key).args.len() == 0,
        note1(key, name, value).key == key && note1(key, name, value).args == seq![(name, value)],
        note2(key, name, value, name2, value2).key == key,
        note2(key, name, value, name2, value2).args == note1(key, name, value).args.push(
            (name2, value2),
        ),
{
    assert(note2(key, name, value, name2, value2).args =~= note1(key, name, value).args.push(
        (name2, value2),
    ));
}

} // verus!
