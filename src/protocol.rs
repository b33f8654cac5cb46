//! The line protocol: five kinds of message, each one line of text.

use vstd::prelude::*;

use crate::operator::{operator_of, Operator};
use crate::numbers::{
    chars_to_i128, chars_to_u16, decimal, int_text, is_digit, lemma_decimal, lemma_int_text,
    parse_i128, parse_u16, push_decimal, push_int, unsigned_digits,
};
use crate::text::{
    chars_of, copy_range, find_char, has_prefix, index_of, is_space, last_index_of,
    lemma_single_token, lemma_trim_fixed, push_char, rfind_char, same_chars, split_tokens,
    starts_with, string_of, tokens, trim, trimmed, views, word_len,
};

verus! {

/// An operator with its operand, as carried by an `OP` request.
#[derive(Clone, Copy, Debug, PartialEq, Eq, Structural)]
pub struct Operation {
    pub op: Operator,
    pub operand: u8,
}

/// A message of the protocol, request or response.
#[derive(Debug, PartialEq, Eq)]
pub enum Message {
    Op(Operation),
    Get,
    Ack,
    Error(String),
    Value(i128),
}

/// What a message says, with its text as chars and its number as an integer.
pub enum MessageModel {
    Op(Operation),
    Get,
    Ack,
    Error(Seq<char>),
    Value(int),
}

impl View for Message {
    type V = MessageModel;

    open spec fn view(&self) -> MessageModel {
        match self {
            Message::Op(o) => MessageModel::Op(*o),
            Message::Get => MessageModel::Get,
            Message::Ack => MessageModel::Ack,
            Message::Error(m) => MessageModel::Error(m@),
            Message::Value(v) => MessageModel::Value(*v as int),
        }
    }
}

/// The request for the accumulator's value.
pub open spec fn kw_get() -> Seq<char> {
    seq!['G', 'E', 'T']
}

/// The acknowledgement of an operation.
pub open spec fn kw_ok() -> Seq<char> {
    seq!['O', 'K']
}

/// The start of an operation request.
pub open spec fn kw_op() -> Seq<char> {
    seq!['O', 'P', ' ']
}

/// The start of an error report.
pub open spec fn kw_error() -> Seq<char> {
    seq!['E', 'R', 'R', 'O', 'R', ' ']
}

/// The start of a value report.
pub open spec fn kw_value() -> Seq<char> {
    seq!['V', 'A', 'L', 'U', 'E', ' ']
}

/// The text of a message: `OP <symbol> <operand>`, `GET`, `OK`,
/// `ERROR "<reason>"` or `VALUE <integer>`.
pub open spec fn encode(m: MessageModel) -> Seq<char> {
    match m {
        MessageModel::Op(o) => kw_op() + seq![o.op.symbol_spec(), ' '] + decimal(
            o.operand as nat,
        ),
        MessageModel::Get => kw_get(),
        MessageModel::Ack => kw_ok(),
        MessageModel::Error(r) => kw_error() + seq!['"'] + r + seq!['"'],
        MessageModel::Value(v) => kw_value() + int_text(v),
    }
}

/// The request that the text after `OP ` stands for.
pub open spec fn decode_op(rest: Seq<char>) -> Result<MessageModel, Seq<char>> {
    let t = tokens(rest);
    if t.len() != 2 {
        Err("invalid OP format"@)
    } else {
        match operator_of(t[0]) {
            None => Err("invalid operation"@),
            Some(op) => match parse_u16(t[1]) {
                None => Err("invalid number"@),
                Some(n) => if n > 255 {
                    Err("operand out of range"@)
                } else {
                    Ok(MessageModel::Op(Operation { op, operand: n as u8 }))
                },
            },
        }
    }
}

/// The error report that the text after `ERROR ` stands for: what stands
/// between its first and its last double quote.
pub open spec fn decode_error(rest: Seq<char>) -> Result<MessageModel, Seq<char>> {
    match (index_of(rest, '"'), last_index_of(rest, '"')) {
        (Some(a), Some(b)) => if a < b {
            Ok(MessageModel::Error(rest.subrange(a + 1, b)))
        } else {
            Err("invalid ERROR format"@)
        },
        _ => Err("invalid ERROR format"@),
    }
}

/// The value report that the text after `VALUE ` stands for.
pub open spec fn decode_value(rest: Seq<char>) -> Result<MessageModel, Seq<char>> {
    match parse_i128(trim(rest)) {
        Some(v) => Ok(MessageModel::Value(v)),
        None => Err("invalid VALUE"@),
    }
}

/// The message that a line stands for, or the reason it stands for none.
pub open spec fn decode(line: Seq<char>) -> Result<MessageModel, Seq<char>> {
    let s = trim(line);
    if s.len() == 0 {
        Err("empty message"@)
    } else if s == kw_get() {
        Ok(MessageModel::Get)
    } else if s == kw_ok() {
        Ok(MessageModel::Ack)
    } else if starts_with(s, kw_op()) {
        decode_op(s.skip(3))
    } else if starts_with(s, kw_error()) {
        decode_error(s.skip(6))
    } else if starts_with(s, kw_value()) {
        decode_value(s.skip(6))
    } else {
        Err("unknown message"@)
    }
}

/// A decoding result seen through the views of its message or reason.
pub open spec fn decoded(r: Result<Message, String>) -> Result<MessageModel, Seq<char>> {
    match r {
        Ok(m) => Ok(m@),
        Err(e) => Err(e@),
    }
}

impl Message {
    /// The line that carries this message, without its newline.
    pub fn to_string(&self) -> (r: String)
        ensures
            r@ == encode(self@),
    {
        let mut out = String::new();
        match self {
            Message::Op(o) => {
                push_char(&mut out, 'O');
                push_char(&mut out, 'P');
                push_char(&mut out, ' ');
                push_char(&mut out, o.op.symbol());
                push_char(&mut out, ' ');
                push_decimal(&mut out, o.operand as u128);
            },
            Message::Get => {
                push_char(&mut out, 'G');
                push_char(&mut out, 'E');
                push_char(&mut out, 'T');
            },
            Message::Ack => {
                push_char(&mut out, 'O');
                push_char(&mut out, 'K');
            },
            Message::Error(m) => {
                push_char(&mut out, 'E');
                push_char(&mut out, 'R');
                push_char(&mut out, 'R');
                push_char(&mut out, 'O');
                push_char(&mut out, 'R');
                push_char(&mut out, ' ');
                push_char(&mut out, '"');
                out.append(m.as_str());
                push_char(&mut out, '"');
            },
            Message::Value(v) => {
                push_char(&mut out, 'V');
                push_char(&mut out, 'A');
                push_char(&mut out, 'L');
                push_char(&mut out, 'U');
                push_char(&mut out, 'E');
                push_char(&mut out, ' ');
                push_int(&mut out, *v);
            },
        }
        assert(out@ =~= encode(self@));
        out
    }
}

/// Every message reads back from its own line as itself: an operation as the
/// same operator and operand, a reason verbatim, a value as the same number.
pub proof fn lemma_decode_encode(m: Message)
    ensures
        decode(encode(m@)) == Ok::<MessageModel, Seq<char>>(m@),
{
    let s = encode(m@);
    match m {
        Message::Op(o) => {
            let d = decimal(o.operand as nat);
            lemma_decimal(o.operand as nat);
            assert(is_digit(d.last()));
            assert(is_digit(d[0]));
            assert(s.last() == d.last());
            lemma_trim_fixed(s);
            assert(s.len() >= 6);
            assert(s.take(3) =~= kw_op());
            let r = s.skip(3);
            assert(r =~= seq![o.op.symbol_spec(), ' '] + d);
            assert(!is_space(r[0]));
            assert(r.drop_first()[0] == ' ');
            assert(word_len(r.drop_first()) == 0);
            assert(word_len(r) == 1);
            let r1 = r.skip(1);
            assert(r1[0] == ' ');
            assert(r1.drop_first() =~= d);
            assert forall|i: int| 0 <= i < d.len() implies !is_space(#[trigger] d[i]) by {
                assert(is_digit(d[i]));
            }
            lemma_single_token(d);
            assert(tokens(r1) == seq![d]);
            assert(r.take(1) =~= seq![o.op.symbol_spec()]);
            assert(tokens(r) =~= seq![seq![o.op.symbol_spec()], d]);
            assert(unsigned_digits(d) == d);
            assert(parse_u16(d) == Some(o.operand as nat));
            assert(operator_of(seq![o.op.symbol_spec()]) == Some(o.op)) by {
                match o.op {
                    Operator::Add => {},
                    Operator::Sub => {
                        assert(seq!['-'] != seq!['+']) by { assert(seq!['-'][0] != seq!['+'][0]); }
                    },
                    Operator::Mul => {
                        assert(seq!['*'] != seq!['+']) by { assert(seq!['*'][0] != seq!['+'][0]); }
                        assert(seq!['*'] != seq!['-']) by { assert(seq!['*'][0] != seq!['-'][0]); }
                    },
                    Operator::Div => {
                        assert(seq!['/'] != seq!['+']) by { assert(seq!['/'][0] != seq!['+'][0]); }
                        assert(seq!['/'] != seq!['-']) by { assert(seq!['/'][0] != seq!['-'][0]); }
                        assert(seq!['/'] != seq!['*']) by { assert(seq!['/'][0] != seq!['*'][0]); }
                    },
                }
            }
            assert(decode_op(r) == Ok::<MessageModel, Seq<char>>(m@));
        },
        Message::Get => {
            lemma_trim_fixed(s);
        },
        Message::Ack => {
            lemma_trim_fixed(s);
        },
        Message::Error(r) => {
            lemma_trim_fixed(s);
            assert(s[0] != kw_get()[0]);
            assert(s[0] != kw_ok()[0]);
            assert(s.take(3)[0] != kw_op()[0]);
            assert(s.take(6) =~= kw_error());
            let rest = s.skip(6);
            assert(rest =~= seq!['"'] + r@ + seq!['"']);
            assert(rest[0] == '"');
            assert(rest[rest.len() - 1] == '"');
            assert(index_of(rest, '"') == Some(0int));
            assert(last_index_of(rest, '"') == Some(rest.len() - 1));
            assert(rest.subrange(1, rest.len() - 1) =~= r@);
        },
        Message::Value(v) => {
            lemma_int_text(v as int);
            let t = int_text(v as int);
            assert(s.last() == t.last());
            lemma_trim_fixed(s);
            assert(s.len() > 6);
            assert(s.take(3)[0] != kw_op()[0]);
            assert(s.take(6)[0] != kw_error()[0]);
            assert(s.take(6) =~= kw_value());
            assert(s.skip(6) =~= t);
            lemma_trim_fixed(t);
        },
    }
}

/// The request line for any operator and any operand reads back as that
/// same operation.
pub proof fn lemma_request_round_trip(o: Operation)
    ensures
        decode(encode(MessageModel::Op(o))) == Ok::<MessageModel, Seq<char>>(MessageModel::Op(o)),
{
    lemma_decode_encode(Message::Op(o));
}

/// Reads one line of the protocol; the line may carry surrounding whitespace.
pub fn parse_message(line: &str) -> (r: Result<Message, String>)
    ensures
        decoded(r) == decode(line@),
{
    let s = trimmed(&chars_of(line));
    if s.len() == 0 {
        return Err("empty message".to_string());
    }
    if same_chars(&s, &vec!['G', 'E', 'T']) {
        return Ok(Message::Get);
    }
    if same_chars(&s, &vec!['O', 'K']) {
        return Ok(Message::Ack);
    }
    if has_prefix(&s, &vec!['O', 'P', ' ']) {
        return parse_op(&copy_range(&s, 3, s.len()));
    }
    if has_prefix(&s, &vec!['E', 'R', 'R', 'O', 'R', ' ']) {
        return parse_error(&copy_range(&s, 6, s.len()));
    }
    if has_prefix(&s, &vec!['V', 'A', 'L', 'U', 'E', ' ']) {
        return parse_value(&copy_range(&s, 6, s.len()));
    }
    Err("unknown message".to_string())
}

/// Reads the text after `OP `: an operator symbol and an operand.
fn parse_op(rest: &Vec<char>) -> (r: Result<Message, String>)
    ensures
        decoded(r) == decode_op(rest@),
{
    let parts = split_tokens(rest);
    if parts.len() != 2 {
        return Err("invalid OP format".to_string());
    }
    assert(views(parts@)[0] == parts@[0]@);
    assert(views(parts@)[1] == parts@[1]@);
    let op = match Operator::from_chars(&parts[0]) {
        Some(o) => o,
        None => {
            return Err("invalid operation".to_string());
        },
    };
    let num = match chars_to_u16(&parts[1]) {
        Some(n) => n,
        None => {
            return Err("invalid number".to_string());
        },
    };
    if num > 255 {
        return Err("operand out of range".to_string());
    }
    Ok(Message::Op(Operation { op, operand: num as u8 }))
}

/// Reads the text after `ERROR `: a reason between double quotes.
fn parse_error(rest: &Vec<char>) -> (r: Result<Message, String>)
    ensures
        decoded(r) == decode_error(rest@),
{
    match (find_char(rest, '"'), rfind_char(rest, '"')) {
        (Some(a), Some(b)) => {
            if a < b {
                let reason = string_of(&copy_range(rest, a + 1, b));
                Ok(Message::Error(reason))
            } else {
                Err("invalid ERROR format".to_string())
            }
        },
        _ => Err("invalid ERROR format".to_string()),
    }
}

/// Reads the text after `VALUE `: a signed decimal integer.
fn parse_value(rest: &Vec<char>) -> (r: Result<Message, String>)
    ensures
        decoded(r) == decode_value(rest@),
{
    match chars_to_i128(&trimmed(rest)) {
        Some(v) => Ok(Message::Value(v)),
        None => Err("invalid VALUE".to_string()),
    }
}

} // verus!
