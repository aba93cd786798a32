use vstd::prelude::*;
use crate::op::{Op, op_symbol, is_operator_char};
use crate::text::{trim, trimmed, chars_of};

verus! {

/// A `-` at the very start, or right after another operator, is the sign of
/// the number that follows, not a subtraction.
pub open spec fn is_sign_position(s: Seq<char>, op: char, i: int) -> bool {
    op == '-' && (i == 0 || is_operator_char(s[i - 1]))
}

/// `s[i]` is an occurrence of `op` that acts as a binary operator.
pub open spec fn is_operator_at(s: Seq<char>, op: char, i: int) -> bool {
    s[i] == op && !is_sign_position(s, op, i)
}

/// The first position at or after `i` where `op` acts as a binary operator.
pub open spec fn first_operator_from(s: Seq<char>, op: char, i: int) -> Option<int>
    decreases s.len() - i,
{
    if i < 0 || i >= s.len() {
        None
    } else if is_operator_at(s, op, i) {
        Some(i)
    } else {
        first_operator_from(s, op, i + 1)
    }
}

/// The position of the first binary occurrence of `op` in `s`.
pub open spec fn operator_position(s: Seq<char>, op: char) -> Option<int> {
    first_operator_from(s, op, 0)
}

/// The two trimmed operands around the first binary occurrence of `op`.
pub open spec fn split_at_operator(s: Seq<char>, op: Op) -> Option<(Seq<char>, Seq<char>)> {
    match operator_position(s, op_symbol(op)) {
        Some(p) => Some((trimmed(s.take(p)), trimmed(s.skip(p + 1)))),
        None => None,
    }
}

/// How an expression splits: operators are looked for in the order
/// `+ - * / %`, and the first one found anywhere in the text wins.
pub open spec fn split_expression(s: Seq<char>) -> Option<(Op, Seq<char>, Seq<char>)> {
    let try_op = |op: Op|
        match split_at_operator(s, op) {
            Some((l, r)) => Some((op, l, r)),
            None => None,
        };
    if split_at_operator(s, Op::Add) is Some {
        try_op(Op::Add)
    } else if split_at_operator(s, Op::Sub) is Some {
        try_op(Op::Sub)
    } else if split_at_operator(s, Op::Mul) is Some {
        try_op(Op::Mul)
    } else if split_at_operator(s, Op::Div) is Some {
        try_op(Op::Div)
    } else {
        try_op(Op::Rem)
    }
}

/// The text of the error for an operand that is not a number.
pub open spec fn invalid_number_text(s: Seq<char>) -> Seq<char> {
    "Invalid number: '"@ + s + "'"@
}

/// The text of the error for an expression without an operator.
pub open spec fn invalid_expression_text(s: Seq<char>) -> Seq<char> {
    "Invalid expression: '"@ + s + "'. Use format: a+b, a-b, a*b, a/b, a%b"@
}

/// No character of `x` is one of `+ - * / %`.
pub open spec fn free_of_operators(x: Seq<char>) -> bool {
    forall|j: int|
        0 <= j < x.len() ==> !(x[j] == '+' || x[j] == '-' || x[j] == '*' || x[j] == '/' || x[j]
            == '%')
}

proof fn lemma_position_from_none(s: Seq<char>, op: char, k: int)
    requires
        0 <= k,
        forall|j: int| k <= j < s.len() ==> !is_operator_at(s, op, j),
    ensures
        first_operator_from(s, op, k) is None,
    decreases s.len() - k,
{
    if k < s.len() {
        lemma_position_from_none(s, op, k + 1);
    }
}

proof fn lemma_position_from_at(s: Seq<char>, op: char, k: int, p: int)
    requires
        0 <= k <= p < s.len(),
        is_operator_at(s, op, p),
        forall|j: int| k <= j < p ==> !is_operator_at(s, op, j),
    ensures
        first_operator_from(s, op, k) == Some(p),
    decreases p - k,
{
    if k < p {
        lemma_position_from_at(s, op, k + 1, p);
    }
}

proof fn lemma_position_from_found(s: Seq<char>, op: char, k: int)
    requires
        0 <= k,
    ensures
        first_operator_from(s, op, k) matches Some(p) ==> 0 <= p < s.len() && is_operator_at(
            s,
            op,
            p,
        ),
    decreases s.len() - k,
{
    if k < s.len() && !is_operator_at(s, op, k) {
        lemma_position_from_found(s, op, k + 1);
    }
}

/// A `-` at the start of the text, or right after any of `+ - * / %`, is the
/// sign of a number: the expression is never cut there.
pub proof fn lemma_minus_after_operator_is_sign(s: Seq<char>, i: int)
    requires
        0 <= i < s.len(),
        s[i] == '-',
        i == 0 || s[i - 1] == '+' || s[i - 1] == '-' || s[i - 1] == '*' || s[i - 1] == '/'
            || s[i - 1] == '%',
    ensures
        operator_position(s, '-') != Some(i),
{
    lemma_position_from_found(s, '-', 0);
}

proof fn lemma_positions(a: Seq<char>, c: char, r: Seq<char>, k: char)
    requires
        a.len() > 0,
        free_of_operators(a),
        c == '+' || c == '-' || c == '*' || c == '/' || c == '%',
        k == '+' || k == '-' || k == '*' || k == '/' || k == '%',
        free_of_operators(r) || (r.len() > 0 && r[0] == '-' && free_of_operators(r.drop_first())),
    ensures
        operator_position(a + seq![c] + r, k) == if k == c {
            Some(a.len() as int)
        } else {
            None::<int>
        },
{
    let s = a + seq![c] + r;
    let n = a.len() as int;
    assert forall|j: int| 0 <= j < n implies s[j] == a[j] by {}
    assert(s[n] == c);
    assert forall|j: int| n < j < s.len() implies s[j] == r[j - n - 1] by {}
    if k == c {
        assert(s[n - 1] == a[n - 1]);
        assert forall|j: int| 0 <= j < n implies !is_operator_at(s, k, j) by {
            assert(s[j] == a[j]);
        }
        lemma_position_from_at(s, k, 0, n);
    } else {
        assert forall|j: int| 0 <= j < s.len() implies !is_operator_at(s, k, j) by {
            if j < n {
                assert(s[j] == a[j]);
            } else if j > n {
                assert(s[j] == r[j - n - 1]);
                if !free_of_operators(r) && j > n + 1 {
                    assert(r[j - n - 1] == r.drop_first()[j - n - 2]);
                }
            }
        }
        lemma_position_from_none(s, k, 0);
    }
}

/// An expression `a op r`, with `a` a non-empty operand and `r` an operand
/// that may start with a minus sign, neither holding another operator, is cut
/// at `op` into its two trimmed operands: a `-` right after the operator is
/// the sign of the right operand (`a/-b` is `a` divided by `-b`).
pub proof fn lemma_split_two_operands(a: Seq<char>, op: Op, r: Seq<char>)
    requires
        a.len() > 0,
        free_of_operators(a),
        free_of_operators(r) || (r.len() > 0 && r[0] == '-' && free_of_operators(r.drop_first())),
    ensures
        split_expression(a + seq![op_symbol(op)] + r) == Some((op, trimmed(a), trimmed(r))),
{
    let c = op_symbol(op);
    let s = a + seq![c] + r;
    lemma_positions(a, c, r, '+');
    lemma_positions(a, c, r, '-');
    lemma_positions(a, c, r, '*');
    lemma_positions(a, c, r, '/');
    lemma_positions(a, c, r, '%');
    assert(s.take(a.len() as int) =~= a);
    assert(s.skip(a.len() as int + 1) =~= r);
}

/// The operand after an operator may be negative: for `a`, `b` free of
/// operators and `a` non-empty, `a op -b` is cut at `op` into `a` and `-b`.
pub proof fn lemma_negative_right_operand(a: Seq<char>, op: Op, b: Seq<char>)
    requires
        a.len() > 0,
        free_of_operators(a),
        free_of_operators(b),
    ensures
        split_expression(a + seq![op_symbol(op), '-'] + b) == Some(
            (op, trimmed(a), trimmed(seq!['-'] + b)),
        ),
{
    let r = seq!['-'] + b;
    assert(r.drop_first() =~= b);
    lemma_split_two_operands(a, op, r);
    assert(a + seq![op_symbol(op)] + r =~= a + seq![op_symbol(op), '-'] + b);
}

/// The cut is at the leftmost occurrence: for an operator other than `-`
/// (which can be a sign), any occurrence at `p` means the operator is found
/// at `p` or before it.
pub proof fn lemma_leftmost_occurrence(s: Seq<char>, c: char, p: int)
    requires
        c == '+' || c == '*' || c == '/' || c == '%',
        0 <= p < s.len(),
        s[p] == c,
    ensures
        operator_position(s, c) matches Some(q) && q <= p && s[q] == c,
{
    lemma_leftmost_from(s, c, 0, p);
}

proof fn lemma_leftmost_from(s: Seq<char>, c: char, k: int, p: int)
    requires
        c != '-',
        0 <= k <= p < s.len(),
        s[p] == c,
    ensures
        first_operator_from(s, c, k) matches Some(q) && k <= q <= p && s[q] == c,
    decreases p - k,
{
    if s[k] != c {
        lemma_leftmost_from(s, c, k + 1, p);
    }
}

/// A `+` anywhere in the text wins over every other operator: the expression
/// is cut at its first `+`.
pub proof fn lemma_plus_first(s: Seq<char>, p: int)
    requires
        0 <= p < s.len(),
        s[p] == '+',
        forall|j: int| 0 <= j < p ==> s[j] != '+',
    ensures
        split_expression(s) == Some((Op::Add, trimmed(s.take(p)), trimmed(s.skip(p + 1)))),
{
    assert forall|j: int| 0 <= j < p implies !is_operator_at(s, '+', j) by {}
    lemma_position_from_at(s, '+', 0, p);
}

/// Text without any of `+ - * / %` is not an expression.
pub proof fn lemma_no_operator_no_split(s: Seq<char>)
    requires
        free_of_operators(s),
    ensures
        split_expression(s) is None,
{
    assert forall|c: char, j: int|
        (c == '+' || c == '-' || c == '*' || c == '/' || c == '%') && 0 <= j < s.len()
        implies !is_operator_at(s, c, j) by {}
    lemma_position_from_none(s, '+', 0);
    lemma_position_from_none(s, '-', 0);
    lemma_position_from_none(s, '*', 0);
    lemma_position_from_none(s, '/', 0);
    lemma_position_from_none(s, '%', 0);
}

/// An expression cut at its operator: `left op right`, operands trimmed.
pub struct ExprParts {
    pub op: Op,
    pub left: String,
    pub right: String,
}

fn is_operator_symbol(c: char) -> (b: bool)
    ensures
        b == is_operator_char(c),
{
    c == '+' || c == '-' || c == '*' || c == '/' || c == '%'
}

/// The index (in characters) of the first occurrence of `op` in `expr` that
/// is a binary operator: a `-` at the start or right after another operator
/// is a sign and is skipped.
pub fn find_operator(expr: &str, op: char) -> (res: Option<usize>)
    ensures
        res matches Some(p) ==> operator_position(expr@, op) == Some(p as int),
        res is None ==> operator_position(expr@, op) is None,
        res matches Some(p) ==> {
            &&& p < expr@.len()
            &&& is_operator_at(expr@, op, p as int)
            &&& forall|j: int| 0 <= j < p ==> !is_operator_at(expr@, op, j)
        },
        res is None ==> forall|j: int| 0 <= j < expr@.len() ==> !is_operator_at(expr@, op, j),
{
    let chars = chars_of(expr);
    let n = chars.len();
    let mut i: usize = 0;
    while i < n
        invariant
            n == chars@.len(),
            chars@ == expr@,
            i <= n,
            first_operator_from(expr@, op, 0) == first_operator_from(expr@, op, i as int),
            forall|j: int| 0 <= j < i ==> !is_operator_at(expr@, op, j),
        decreases n - i,
    {
        let c = chars[i];
        if c == op {
            let sign = op == '-' && (i == 0 || is_operator_symbol(chars[i - 1]));
            if !sign {
                return Some(i);
            }
        }
        i = i + 1;
    }
    None
}

fn split_at(expr: &str, op: Op) -> (res: Option<(String, String)>)
    ensures
        res is Some <==> split_at_operator(expr@, op) is Some,
        res matches Some((l, r)) ==> split_at_operator(expr@, op) == Some((l@, r@)),
{
    match find_operator(expr, op.symbol()) {
        Some(pos) => {
            let n = expr.unicode_len();
            let left = trim(expr.substring_char(0, pos));
            let right = trim(expr.substring_char(pos + 1, n));
            assert(expr@.subrange(0, pos as int) =~= expr@.take(pos as int));
            assert(expr@.subrange(pos + 1, n as int) =~= expr@.skip(pos + 1));
            Some((left, right))
        },
        None => None,
    }
}

/// Cuts a two-operand expression such as `3+4`, `10 / 2` or `5*-3` at its
/// operator. The operators are tried in the order `+ - * / %`; for each, the
/// first binary occurrence (see `find_operator`) is taken, and the text on
/// either side of it, trimmed, gives the operands. `None` when no operator
/// occurs.
pub fn split_expr(expr: &str) -> (res: Option<ExprParts>)
    ensures
        res is Some <==> split_expression(expr@) is Some,
        res matches Some(p) ==> split_expression(expr@) == Some((p.op, p.left@, p.right@)),
{
    if let Some((left, right)) = split_at(expr, Op::Add) {
        return Some(ExprParts { op: Op::Add, left, right });
    }
    if let Some((left, right)) = split_at(expr, Op::Sub) {
        return Some(ExprParts { op: Op::Sub, left, right });
    }
    if let Some((left, right)) = split_at(expr, Op::Mul) {
        return Some(ExprParts { op: Op::Mul, left, right });
    }
    if let Some((left, right)) = split_at(expr, Op::Div) {
        return Some(ExprParts { op: Op::Div, left, right });
    }
    if let Some((left, right)) = split_at(expr, Op::Rem) {
        return Some(ExprParts { op: Op::Rem, left, right });
    }
    None
}

/// The error text for an operand that does not parse as a number.
pub fn invalid_number_message(operand: &str) -> (m: String)
    ensures
        m@ == invalid_number_text(operand@),
{
    let mut m = String::from_str("Invalid number: '");
    m.append(operand);
    m.append("'");
    m
}

/// The error text for an expression in which no operator was found.
pub fn invalid_expression_message(expr: &str) -> (m: String)
    ensures
        m@ == invalid_expression_text(expr@),
{
    let mut m = String::from_str("Invalid expression: '");
    m.append(expr);
    m.append("'. Use format: a+b, a-b, a*b, a/b, a%b");
    m
}

/// Evaluates a two-operand expression such as `3+4`, `10 / 2` or `5*-3`:
/// the expression is cut at its operator as `split_expr` does, each operand
/// is read with `parse`, and `apply` combines them. The errors: no operator
/// (`Invalid expression`), then a left or else a right operand that `parse`
/// rejects (`Invalid number`). The numbers are of type `N`; the caller hands
/// in how to read and how to combine them.
pub fn evaluate_expr<N, P, A>(expr: &str, parse: P, apply: A) -> (r: Result<N, String>)
    where P: Fn(&str) -> Option<N>, A: FnOnce(Op, N, N) -> N,
    requires
        forall|s: &str| call_requires(parse, (s,)),
        forall|op: Op, a: N, b: N| call_requires(apply, (op, a, b)),
    ensures
        match split_expression(expr@) {
            None => r matches Err(e) && e@ == invalid_expression_text(expr@),
            Some((op, l, rt)) => exists|ls: &str, pl: Option<N>|
                {
                    &&& ls@ == l
                    &&& call_ensures(parse, (ls,), pl)
                    &&& match pl {
                        None => r matches Err(e) && e@ == invalid_number_text(l),
                        Some(a) => exists|rs: &str, pr: Option<N>|
                            {
                                &&& rs@ == rt
                                &&& call_ensures(parse, (rs,), pr)
                                &&& match pr {
                                    None => r matches Err(e) && e@ == invalid_number_text(rt),
                                    Some(b) => exists|v: N|
                                        call_ensures(apply, (op, a, b), v) && r == Ok::<N, String>(v),
                                }
                            },
                    }
                },
        },
{
    match split_expr(expr) {
        None => Err(invalid_expression_message(expr)),
        Some(parts) => {
            let ls = parts.left.as_str();
            let pl = parse(ls);
            match pl {
                None => Err(invalid_number_message(ls)),
                Some(a) => {
                    let rs = parts.right.as_str();
                    let pr = parse(rs);
                    match pr {
                        None => Err(invalid_number_message(rs)),
                        Some(b) => {
                            let v = apply(parts.op, a, b);
                            Ok(v)
                        },
                    }
                },
            }
        },
    }
}

} // verus!
