//! What a server does with each request line against the shared accumulator.
//!
//! The accumulator itself sits behind one mutual-exclusion lock owned by the
//! process; the functions here are the work done while a request holds it, and
//! the decision of whether a request needs it at all.

use vstd::prelude::*;

use crate::calculator::{apply_operation, apply_spec};
use crate::operator::Operator;
use crate::protocol::{
    decode, encode, lemma_request_round_trip, parse_message, Message, MessageModel, Operation,
};

verus! {

/// The accumulator and the response after an operation is requested on `c`:
/// the new value and `OK`, or `c` unchanged and the reason it failed.
pub open spec fn after_op(c: int, o: Operation) -> (int, MessageModel) {
    match apply_spec(c, o) {
        Ok(v) => (v, MessageModel::Ack),
        Err(e) => (c, MessageModel::Error(e)),
    }
}

/// Whether the decoded request must go through the accumulator's lock.
pub open spec fn needs_state(d: Result<MessageModel, Seq<char>>) -> bool {
    d matches Ok(MessageModel::Op(_)) || d matches Ok(MessageModel::Get)
}

/// The accumulator and the response after `line` is received while it holds `c`.
pub open spec fn step(c: int, line: Seq<char>) -> (int, MessageModel) {
    match decode(line) {
        Ok(MessageModel::Op(o)) => after_op(c, o),
        Ok(MessageModel::Get) => (c, MessageModel::Value(c)),
        Ok(_) => (c, MessageModel::Error("unexpected message"@)),
        Err(e) => (c, MessageModel::Error(e)),
    }
}

/// The accumulator after each of `lines` is handled in turn from `c`, one
/// request at a time.
pub open spec fn after_lines(c: int, lines: Seq<Seq<char>>) -> int
    decreases lines.len(),
{
    if lines.len() == 0 {
        c
    } else {
        step(after_lines(c, lines.drop_last()), lines.last()).0
    }
}

/// What a request line asks of the server.
pub enum Action {
    /// The operation is to change the accumulator, under its lock.
    Apply(Operation),
    /// The accumulator is to be read, under its lock.
    Read,
    /// Send this response; the accumulator is not involved.
    Answer(Message),
}

/// Decides what `line` asks for; a line that is not a request is answered at
/// once, with the reason it was refused.
pub fn plan(line: &str) -> (r: Action)
    ensures
        r matches Action::Apply(o) ==> decode(line@) == Ok::<MessageModel, Seq<char>>(
            MessageModel::Op(o),
        ),
        r is Read ==> decode(line@) == Ok::<MessageModel, Seq<char>>(MessageModel::Get),
        r matches Action::Answer(m) ==> !needs_state(decode(line@)) && forall|c: int|
            step(c, line@) == (c, m@),
{
    match parse_message(line) {
        Ok(Message::Op(o)) => Action::Apply(o),
        Ok(Message::Get) => Action::Read,
        Ok(_) => Action::Answer(Message::Error("unexpected message".to_string())),
        Err(e) => Action::Answer(Message::Error(e)),
    }
}

/// Applies `op` to the accumulator; on failure it is left unchanged and the
/// response carries the reason.
pub fn update(state: &mut i128, op: &Operation) -> (r: Message)
    ensures
        (*final(state) as int, r@) == after_op(*old(state) as int, *op),
{
    match apply_operation(*state, op) {
        Ok(v) => {
            *state = v;
            Message::Ack
        },
        Err(e) => Message::Error(e),
    }
}

/// The response to a read of the accumulator.
pub fn query(state: i128) -> (r: Message)
    ensures
        r@ == MessageModel::Value(state as int),
{
    Message::Value(state)
}

/// The response to a request when the accumulator's lock cannot be taken.
pub fn state_inaccessible() -> (r: Message)
    ensures
        r@ == MessageModel::Error("state inaccessible"@),
{
    Message::Error("state inaccessible".to_string())
}

/// Handles one request line against the accumulator, as one step under its
/// lock.
pub fn handle_line(line: &str, state: &mut i128) -> (r: Message)
    ensures
        (*final(state) as int, r@) == step(*old(state) as int, line@),
{
    match plan(line) {
        Action::Apply(o) => update(state, &o),
        Action::Read => query(*state),
        Action::Answer(m) => m,
    }
}

/// A division by zero is refused whatever the accumulator holds, and leaves
/// it as it was.
pub proof fn lemma_div_by_zero_keeps_state(c: int, op: Operation)
    requires
        op.op == Operator::Div,
        op.operand == 0,
    ensures
        apply_spec(c, op) == Err::<int, Seq<char>>("Division by zero"@),
        after_op(c, op) == (c, MessageModel::Error("Division by zero"@)),
{
}

/// Increments commute: however the `OP + 1` requests of any number of
/// connections are interleaved into one order, handling them one at a time
/// raises the accumulator by their number, as long as that stays in range.
pub proof fn lemma_increments(c: int, lines: Seq<Seq<char>>)
    requires
        i128::MIN <= c,
        c + lines.len() <= i128::MAX,
        forall|i: int|
            0 <= i < lines.len() ==> #[trigger] lines[i] == encode(
                MessageModel::Op(Operation { op: Operator::Add, operand: 1 }),
            ),
    ensures
        after_lines(c, lines) == c + lines.len(),
    decreases lines.len(),
{
    if lines.len() > 0 {
        let init = lines.drop_last();
        assert forall|i: int| 0 <= i < init.len() implies #[trigger] init[i] == encode(
            MessageModel::Op(Operation { op: Operator::Add, operand: 1 }),
        ) by {
            assert(init[i] == lines[i]);
        }
        lemma_increments(c, init);
        assert(lines.last() == lines[lines.len() - 1]);
        lemma_request_round_trip(Operation { op: Operator::Add, operand: 1 });
    }
}

} // verus!
