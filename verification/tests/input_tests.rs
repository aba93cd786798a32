use abyssal_abacus_core::keys::operator_label;
use abyssal_abacus_core::text::trim;
use abyssal_abacus_core::{classify_line, join_args, key_for_char, key_for_label, trim_trailing_zeros, Key, Op, ReplLine};

#[test]
fn keypad_labels() {
    assert_eq!(key_for_label("C"), Some(Key::Clear));
    assert_eq!(key_for_label("\u{00b1}"), Some(Key::ToggleSign));
    assert_eq!(key_for_label("%"), Some(Key::Percent));
    assert_eq!(key_for_label("/"), Some(Key::Operator(Op::Div)));
    assert_eq!(key_for_label("\u{00d7}"), Some(Key::Operator(Op::Mul)));
    assert_eq!(key_for_label("-"), Some(Key::Operator(Op::Sub)));
    assert_eq!(key_for_label("+"), Some(Key::Operator(Op::Add)));
    assert_eq!(key_for_label("."), Some(Key::Dot));
    assert_eq!(key_for_label("7"), Some(Key::Digit('7')));
    assert_eq!(key_for_label("77"), None);
    assert_eq!(key_for_label("="), None);
    assert_eq!(key_for_label(""), None);
}

#[test]
fn typed_characters() {
    assert_eq!(key_for_char('0'), Some(Key::Digit('0')));
    assert_eq!(key_for_char('.'), Some(Key::Dot));
    assert_eq!(key_for_char('*'), Some(Key::Operator(Op::Mul)));
    assert_eq!(key_for_char('%'), Some(Key::Operator(Op::Rem)));
    assert_eq!(key_for_char('='), Some(Key::Equals));
    assert_eq!(key_for_char('c'), Some(Key::Clear));
    assert_eq!(key_for_char('C'), Some(Key::Clear));
    assert_eq!(key_for_char('x'), None);
    for c in ['1', '.', '+', '-', '/'] {
        assert_eq!(key_for_char(c), key_for_label(&c.to_string()));
    }
}

#[test]
fn prompt_lines() {
    assert_eq!(classify_line("   \n"), ReplLine::Blank);
    assert_eq!(classify_line("exit\n"), ReplLine::Quit);
    assert_eq!(classify_line("EXIT"), ReplLine::Quit);
    assert_eq!(classify_line("  Quit  "), ReplLine::Quit);
    assert_eq!(classify_line("exits"), ReplLine::Evaluate("exits".to_string()));
    assert_eq!(classify_line(" 3+4\n"), ReplLine::Evaluate("3+4".to_string()));
}

#[test]
fn arguments_joined() {
    let args = vec!["3".to_string(), "+".to_string(), "4".to_string()];
    assert_eq!(join_args(&args), "3 + 4");
    assert_eq!(join_args(&vec!["3+4".to_string()]), "3+4");
    assert_eq!(join_args(&Vec::new()), "");
}

#[test]
fn trailing_zeros() {
    assert_eq!(trim_trailing_zeros("0.2500000000"), "0.25");
    assert_eq!(trim_trailing_zeros("7.0000000000"), "7");
    assert_eq!(trim_trailing_zeros("433.6513443191"), "433.6513443191");
    assert_eq!(trim_trailing_zeros("100"), "1");
}

#[test]
fn trim_unicode_space() {
    assert_eq!(trim("\u{3000} 12\t\u{a0}"), "12");
    assert_eq!(trim("  "), "");
    assert_eq!(trim("a b"), "a b");
}

#[test]
fn operator_coloured_buttons() {
    for l in ["/", "\u{00d7}", "-", "+", "%"] {
        assert!(operator_label(l));
    }
    for l in ["C", "\u{00b1}", "7", ".", "=", "*", "++"] {
        assert!(!operator_label(l));
    }
}
