//! What a client sends for each line of its batch, and what it reports for
//! each response it reads back.

use vstd::prelude::*;

use crate::protocol::{decode, encode, kw_op, parse_message, Message, MessageModel};
use crate::numbers::{int_text, push_int};
use crate::text::{chars_of, push_char, string_of, trim, trimmed};

verus! {

/// The request for one batch line `<symbol> <operand>`; a blank line sends
/// nothing.
pub open spec fn request_spec(line: Seq<char>) -> Option<Seq<char>> {
    let t = trim(line);
    if t.len() == 0 {
        None
    } else {
        Some(kw_op() + t)
    }
}

/// The error-stream line that reports `reason`: `ERROR "<reason>"`.
pub open spec fn error_line(reason: Seq<char>) -> Seq<char> {
    encode(MessageModel::Error(reason))
}

/// The error-stream line for a response of the wrong kind.
pub open spec fn unexpected_line(m: MessageModel) -> Seq<char> {
    error_line("unexpected response: "@ + encode(m))
}

/// What is reported after the response to an operation: nothing for `OK`,
/// else an error-stream line.
pub open spec fn answer_spec(resp: Seq<char>) -> Option<Seq<char>> {
    match decode(resp) {
        Ok(MessageModel::Ack) => None,
        Ok(MessageModel::Error(m)) => Some(error_line(m)),
        Ok(other) => Some(unexpected_line(other)),
        Err(e) => Some(error_line(e)),
    }
}

/// What is reported after the response to the final `GET`: the value for the
/// output stream, or an error-stream line.
pub open spec fn final_spec(resp: Seq<char>) -> Result<Seq<char>, Seq<char>> {
    match decode(resp) {
        Ok(MessageModel::Value(v)) => Ok(int_text(v)),
        Ok(MessageModel::Error(m)) => Err(error_line(m)),
        Ok(other) => Err(unexpected_line(other)),
        Err(e) => Err(error_line(e)),
    }
}

/// An optional text seen through its chars.
pub open spec fn text_of(r: Option<String>) -> Option<Seq<char>> {
    match r {
        Some(s) => Some(s@),
        None => None,
    }
}

/// A report seen through the chars of its line.
pub open spec fn report_of(r: Result<String, String>) -> Result<Seq<char>, Seq<char>> {
    match r {
        Ok(s) => Ok(s@),
        Err(e) => Err(e@),
    }
}

/// The request line, without its newline, for one line of a batch.
pub fn operation_request(line: &str) -> (r: Option<String>)
    ensures
        text_of(r) == request_spec(line@),
{
    let t = trimmed(&chars_of(line));
    if t.len() == 0 {
        return None;
    }
    let mut out = String::new();
    push_char(&mut out, 'O');
    push_char(&mut out, 'P');
    push_char(&mut out, ' ');
    out.append(string_of(&t).as_str());
    Some(out)
}

/// The error-stream line for a response of the wrong kind.
fn unexpected(m: &Message) -> (r: String)
    ensures
        r@ == unexpected_line(m@),
{
    let mut t = "unexpected response: ".to_string();
    t.append(m.to_string().as_str());
    Message::Error(t).to_string()
}

/// What to report after reading `resp` in answer to an operation.
pub fn answer_report(resp: &str) -> (r: Option<String>)
    ensures
        text_of(r) == answer_spec(resp@),
{
    match parse_message(resp) {
        Ok(Message::Ack) => None,
        Ok(Message::Error(m)) => Some(Message::Error(m).to_string()),
        Ok(other) => Some(unexpected(&other)),
        Err(e) => Some(Message::Error(e).to_string()),
    }
}

/// What to report after reading `resp` in answer to the final `GET`.
pub fn final_report(resp: &str) -> (r: Result<String, String>)
    ensures
        report_of(r) == final_spec(resp@),
{
    match parse_message(resp) {
        Ok(Message::Value(v)) => {
            let mut out = String::new();
            push_int(&mut out, v);
            assert(out@ =~= int_text(v as int));
            Ok(out)
        },
        Ok(Message::Error(m)) => Err(Message::Error(m).to_string()),
        Ok(other) => Err(unexpected(&other)),
        Err(e) => Err(Message::Error(e).to_string()),
    }
}

} // verus!
