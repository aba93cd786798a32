use vstd::prelude::*;

verus! {

/// One of the five binary operators the calculator understands.
#[derive(Debug, Clone, Copy, PartialEq, Eq, Structural)]
pub enum Op {
    Add,
    Sub,
    Mul,
    Div,
    Rem,
}

/// The character that stands for each operator, both on the keypad and in a
/// typed expression.
pub open spec fn op_symbol(op: Op) -> char {
    match op {
        Op::Add => '+',
        Op::Sub => '-',
        Op::Mul => '*',
        Op::Div => '/',
        Op::Rem => '%',
    }
}

/// The characters that are operator symbols.
pub open spec fn is_operator_char(c: char) -> bool {
    c == '+' || c == '-' || c == '*' || c == '/' || c == '%'
}

impl Op {
    pub fn symbol(self) -> (c: char)
        ensures
            c == op_symbol(self),
    {
        match self {
            Op::Add => '+',
            Op::Sub => '-',
            Op::Mul => '*',
            Op::Div => '/',
            Op::Rem => '%',
        }
    }
}

/// Distinct operators have distinct symbols, and every symbol is one of the
/// operator characters.
pub proof fn lemma_symbol_injective(a: Op, b: Op)
    ensures
        op_symbol(a) == op_symbol(b) ==> a == b,
        is_operator_char(op_symbol(a)),
{
}

} // verus!
