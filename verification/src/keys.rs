use vstd::prelude::*;
use crate::op::{Op, op_symbol};
use crate::text::{is_digit, char_is_digit};

verus! {

/// One press on the calculator: a keypad button or a typed key.
#[derive(Debug, Clone, Copy, PartialEq, Eq, Structural)]
pub enum Key {
    Digit(char),
    Dot,
    Operator(Op),
    Equals,
    Clear,
    ToggleSign,
    Percent,
    Backspace,
}

/// The sign-change button's label, `±`.
pub open spec fn plus_minus() -> char {
    '\u{b1}'
}

/// The multiplication button's label, `×`.
pub open spec fn times() -> char {
    '\u{d7}'
}

/// What a keypad button does, by its label.
pub open spec fn label_key(label: Seq<char>) -> Option<Key> {
    if label.len() != 1 {
        None
    } else {
        let c = label[0];
        if c == 'C' {
            Some(Key::Clear)
        } else if c == plus_minus() {
            Some(Key::ToggleSign)
        } else if c == '%' {
            Some(Key::Percent)
        } else if c == '/' {
            Some(Key::Operator(Op::Div))
        } else if c == times() {
            Some(Key::Operator(Op::Mul))
        } else if c == '-' {
            Some(Key::Operator(Op::Sub))
        } else if c == '+' {
            Some(Key::Operator(Op::Add))
        } else if c == '.' {
            Some(Key::Dot)
        } else if is_digit(c) {
            Some(Key::Digit(c))
        } else {
            None
        }
    }
}

/// What a typed character does.
pub open spec fn char_key(c: char) -> Option<Key> {
    if is_digit(c) {
        Some(Key::Digit(c))
    } else if c == '.' {
        Some(Key::Dot)
    } else if c == '+' {
        Some(Key::Operator(Op::Add))
    } else if c == '-' {
        Some(Key::Operator(Op::Sub))
    } else if c == '*' {
        Some(Key::Operator(Op::Mul))
    } else if c == '/' {
        Some(Key::Operator(Op::Div))
    } else if c == '%' {
        Some(Key::Operator(Op::Rem))
    } else if c == '=' {
        Some(Key::Equals)
    } else if c == 'c' || c == 'C' {
        Some(Key::Clear)
    } else {
        None
    }
}

/// The key that a keypad button with this label stands for; `None` for a
/// label that is no button.
pub fn key_for_label(label: &str) -> (k: Option<Key>)
    ensures
        k == label_key(label@),
{
    if label.unicode_len() != 1 {
        return None;
    }
    let c = label.get_char(0);
    if c == 'C' {
        Some(Key::Clear)
    } else if c == '\u{b1}' {
        Some(Key::ToggleSign)
    } else if c == '%' {
        Some(Key::Percent)
    } else if c == '/' {
        Some(Key::Operator(Op::Div))
    } else if c == '\u{d7}' {
        Some(Key::Operator(Op::Mul))
    } else if c == '-' {
        Some(Key::Operator(Op::Sub))
    } else if c == '+' {
        Some(Key::Operator(Op::Add))
    } else if c == '.' {
        Some(Key::Dot)
    } else if char_is_digit(c) {
        Some(Key::Digit(c))
    } else {
        None
    }
}

/// The key that a typed character stands for; `None` for a character that
/// the calculator ignores.
pub fn key_for_char(c: char) -> (k: Option<Key>)
    ensures
        k == char_key(c),
{
    if char_is_digit(c) {
        Some(Key::Digit(c))
    } else if c == '.' {
        Some(Key::Dot)
    } else if c == '+' {
        Some(Key::Operator(Op::Add))
    } else if c == '-' {
        Some(Key::Operator(Op::Sub))
    } else if c == '*' {
        Some(Key::Operator(Op::Mul))
    } else if c == '/' {
        Some(Key::Operator(Op::Div))
    } else if c == '%' {
        Some(Key::Operator(Op::Rem))
    } else if c == '=' {
        Some(Key::Equals)
    } else if c == 'c' || c == 'C' {
        Some(Key::Clear)
    } else {
        None
    }
}

/// The keypad buttons drawn in the operator colour: `/`, `×`, `-`, `+`, `%`.
pub open spec fn is_operator_label(label: Seq<char>) -> bool {
    label.len() == 1 && (label[0] == '/' || label[0] == times() || label[0] == '-' || label[0]
        == '+' || label[0] == '%')
}

/// Whether the button with this label is drawn as an operator key. These are
/// exactly the buttons that press an operator or percent.
pub fn operator_label(label: &str) -> (b: bool)
    ensures
        b == is_operator_label(label@),
        b == (label_key(label@) matches Some(Key::Operator(_)) || label_key(label@) == Some(
            Key::Percent,
        )),
{
    if label.unicode_len() != 1 {
        return false;
    }
    let c = label.get_char(0);
    c == '/' || c == '\u{d7}' || c == '-' || c == '+' || c == '%'
}

/// Every operator symbol typed on the keyboard presses that operator, and
/// every digit, typed or clicked, enters itself.
pub proof fn lemma_keys_press_what_they_show(op: Op, d: char)
    ensures
        char_key(op_symbol(op)) == Some(Key::Operator(op)),
        '0' <= d <= '9' ==> char_key(d) == Some(Key::Digit(d)) && label_key(seq![d]) == Some(
            Key::Digit(d),
        ),
        op != Op::Mul && op != Op::Rem ==> label_key(seq![op_symbol(op)]) == Some(
            Key::Operator(op),
        ),
        label_key(seq!['\u{d7}']) == Some(Key::Operator(Op::Mul)),
        label_key(seq!['%']) == Some(Key::Percent),
{
}

/// Typing a digit, `.`, `+`, `-` or `/` does what clicking the button with
/// that label does.
pub proof fn lemma_keyboard_matches_keypad(c: char)
    requires
        is_digit(c) || c == '.' || c == '+' || c == '-' || c == '/',
    ensures
        char_key(c) == label_key(seq![c]),
{
}

} // verus!
