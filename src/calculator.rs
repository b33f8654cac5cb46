//! The arithmetic engine: one operation applied to the accumulator, with
//! overflow, underflow and division by zero reported rather than wrapped.

use vstd::prelude::*;

use crate::operator::Operator;
use crate::protocol::Operation;

verus! {

/// `a / b` rounded toward zero, for a positive `b`.
pub open spec fn trunc_div(a: int, b: int) -> int {
    if a >= 0 {
        a / b
    } else {
        -((-a) / b)
    }
}

/// The new accumulator after `o` is applied to `c`, or the reason it cannot be.
pub open spec fn apply_spec(c: int, o: Operation) -> Result<int, Seq<char>> {
    let x = o.operand as int;
    match o.op {
        Operator::Add => if c + x > i128::MAX {
            Err("Overflow"@)
        } else {
            Ok(c + x)
        },
        Operator::Sub => if c - x < i128::MIN {
            Err("Underflow"@)
        } else {
            Ok(c - x)
        },
        Operator::Mul => if c * x > i128::MAX || c * x < i128::MIN {
            Err("Overflow"@)
        } else {
            Ok(c * x)
        },
        Operator::Div => if x == 0 {
            Err("Division by zero"@)
        } else {
            Ok(trunc_div(c, x))
        },
    }
}

/// An arithmetic result seen as an integer or the text of its reason.
pub open spec fn computed(r: Result<i128, String>) -> Result<int, Seq<char>> {
    match r {
        Ok(v) => Ok(v as int),
        Err(e) => Err(e@),
    }
}

/// Applies `op` to `current`: checked `+`, `-` and `*`, and division that
/// rounds toward zero and refuses a zero divisor.
pub fn apply_operation(current: i128, op: &Operation) -> (r: Result<i128, String>)
    ensures
        computed(r) == apply_spec(current as int, *op),
{
    let operand = op.operand as i128;
    match op.op {
        Operator::Add => match current.checked_add(operand) {
            Some(v) => Ok(v),
            None => Err("Overflow".to_string()),
        },
        Operator::Sub => match current.checked_sub(operand) {
            Some(v) => Ok(v),
            None => Err("Underflow".to_string()),
        },
        Operator::Mul => match current.checked_mul(operand) {
            Some(v) => Ok(v),
            None => Err("Overflow".to_string()),
        },
        Operator::Div => {
            if operand == 0 {
                Err("Division by zero".to_string())
            } else {
                match current.checked_div(operand) {
                    Some(v) => Ok(v),
                    None => Err("Overflow".to_string()),
                }
            }
        },
    }
}

/// At the largest value any addition of a positive operand overflows, and at
/// the smallest any subtraction of one underflows.
pub proof fn lemma_bounds(op: Operation)
    requires
        op.operand > 0,
    ensures
        op.op == Operator::Add ==> apply_spec(i128::MAX as int, op) == Err::<int, Seq<char>>(
            "Overflow"@,
        ),
        op.op == Operator::Sub ==> apply_spec(i128::MIN as int, op) == Err::<int, Seq<char>>(
            "Underflow"@,
        ),
{
}

} // verus!
