//! The four arithmetic operators and their one-char symbols.

use vstd::prelude::*;

use crate::text::chars_of;

verus! {

/// An arithmetic operator of the protocol.
#[derive(Clone, Copy, Debug, PartialEq, Eq, Structural)]
pub enum Operator {
    Add,
    Sub,
    Mul,
    Div,
}

/// The operator written as `s`: `+`, `-`, `*` or `/`.
pub open spec fn operator_of(s: Seq<char>) -> Option<Operator> {
    if s == seq!['+'] {
        Some(Operator::Add)
    } else if s == seq!['-'] {
        Some(Operator::Sub)
    } else if s == seq!['*'] {
        Some(Operator::Mul)
    } else if s == seq!['/'] {
        Some(Operator::Div)
    } else {
        None
    }
}

impl Operator {
    /// The symbol that stands for the operator on the wire.
    pub open spec fn symbol_spec(self) -> char {
        match self {
            Operator::Add => '+',
            Operator::Sub => '-',
            Operator::Mul => '*',
            Operator::Div => '/',
        }
    }

    /// The symbol that stands for the operator on the wire.
    pub fn symbol(&self) -> (c: char)
        ensures
            c == self.symbol_spec(),
    {
        match self {
            Operator::Add => '+',
            Operator::Sub => '-',
            Operator::Mul => '*',
            Operator::Div => '/',
        }
    }

    /// The operator whose symbol is the whole of `v`, if any.
    pub fn from_chars(v: &Vec<char>) -> (r: Option<Operator>)
        ensures
            r == operator_of(v@),
    {
        if v.len() != 1 {
            assert(v@ != seq!['+'] && v@ != seq!['-'] && v@ != seq!['*'] && v@ != seq!['/']);
            return None;
        }
        let c = v[0];
        assert(v@ =~= seq![c]);
        if c == '+' {
            Some(Operator::Add)
        } else if c == '-' {
            Some(Operator::Sub)
        } else if c == '*' {
            Some(Operator::Mul)
        } else if c == '/' {
            Some(Operator::Div)
        } else {
            assert(v@ != seq!['+'] && v@ != seq!['-'] && v@ != seq!['*'] && v@ != seq!['/']) by {
                assert(seq!['+'][0] == '+');
                assert(seq!['-'][0] == '-');
                assert(seq!['*'][0] == '*');
                assert(seq!['/'][0] == '/');
            }
            None
        }
    }

    /// Reads an operator from its symbol; any other text is refused with a
    /// message that quotes it.
    pub fn from_symbol(s: &str) -> (r: Result<Operator, String>)
        ensures
            operator_of(s@) matches Some(o) ==> r == Ok::<Operator, String>(o),
            operator_of(s@) is None ==> (r matches Err(e) && e@ == "invalid operator: "@ + s@),
    {
        match Operator::from_chars(&chars_of(s)) {
            Some(o) => Ok(o),
            None => {
                let mut e = "invalid operator: ".to_string();
                e.append(s);
                Err(e)
            },
        }
    }
}

impl std::str::FromStr for Operator {
    type Err = String;

    fn from_str(s: &str) -> Result<Operator, String> {
        Operator::from_symbol(s)
    }
}

} // verus!
