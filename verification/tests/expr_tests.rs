use abyssal_abacus_core::expr::invalid_expression_message;
use abyssal_abacus_core::{evaluate_expr, find_operator, split_expr, Op};

fn parse(s: &str) -> Option<f64> {
    s.parse::<f64>().ok()
}

fn apply(op: Op, a: f64, b: f64) -> f64 {
    match op {
        Op::Add => a + b,
        Op::Sub => a - b,
        Op::Mul => a * b,
        Op::Div => {
            if b == 0.0 {
                0.0
            } else {
                a / b
            }
        }
        Op::Rem => {
            if b == 0.0 {
                0.0
            } else {
                a % b
            }
        }
    }
}

fn eval(expr: &str) -> Result<f64, String> {
    evaluate_expr(expr, parse, apply)
}

#[test]
fn basic_expr() {
    assert_eq!(eval("3+4"), Ok(7.0));
    assert_eq!(eval("10/2"), Ok(5.0));
    assert_eq!(eval("-5+3"), Ok(-2.0));
    assert_eq!(eval("5*-3"), Ok(-15.0));
}

#[test]
fn divide_by_zero_expr() {
    assert_eq!(eval("5/0"), Ok(0.0));
}

#[test]
fn divide_by_small_decimal_is_unaffected() {
    let result = eval("5/0.01153").unwrap();
    assert!(result > 400.0 && result < 450.0);
}

#[test]
fn every_operator_and_spacing() {
    assert_eq!(eval("10-3"), Ok(7.0));
    assert_eq!(eval("6*7"), Ok(42.0));
    assert_eq!(eval("20/4"), Ok(5.0));
    assert_eq!(eval("10%3"), Ok(1.0));
    assert_eq!(eval("10.5+2.5"), Ok(13.0));
    assert_eq!(eval(" 3 + 4 "), Ok(7.0));
    assert_eq!(eval("10%0"), Ok(0.0));
    assert_eq!(eval("5-3"), Ok(2.0));
}

#[test]
fn invalid_expression_error() {
    assert_eq!(
        eval("hello"),
        Err("Invalid expression: 'hello'. Use format: a+b, a-b, a*b, a/b, a%b".to_string())
    );
    assert_eq!(
        invalid_expression_message("x"),
        "Invalid expression: 'x'. Use format: a+b, a-b, a*b, a/b, a%b"
    );
    assert_eq!(eval("-5"), Err("Invalid expression: '-5'. Use format: a+b, a-b, a*b, a/b, a%b".to_string()));
}

#[test]
fn invalid_number_errors() {
    assert_eq!(eval("3+abc"), Err("Invalid number: 'abc'".to_string()));
    assert_eq!(eval("x + y"), Err("Invalid number: 'x'".to_string()));
    assert_eq!(eval("3+"), Err("Invalid number: ''".to_string()));
}

#[test]
fn find_operator_skips_signs() {
    assert_eq!(find_operator("-5+3", '-'), None);
    assert_eq!(find_operator("-5+3", '+'), Some(2));
    assert_eq!(find_operator("5*-3", '-'), None);
    assert_eq!(find_operator("5-3", '-'), Some(1));
    assert_eq!(find_operator("5--3", '-'), Some(1));
    assert_eq!(find_operator("5 - -3", '-'), Some(2));
    assert_eq!(find_operator("", '+'), None);
}

#[test]
fn split_expr_parts() {
    let p = split_expr(" 10 / 2 ").unwrap();
    assert_eq!(p.op, Op::Div);
    assert_eq!(p.left, "10");
    assert_eq!(p.right, "2");

    let p = split_expr("5*-3").unwrap();
    assert_eq!(p.op, Op::Mul);
    assert_eq!(p.left, "5");
    assert_eq!(p.right, "-3");

    // '+' is looked for before '*', wherever it stands.
    let p = split_expr("2*3+4").unwrap();
    assert_eq!(p.op, Op::Add);
    assert_eq!(p.left, "2*3");
    assert_eq!(p.right, "4");

    assert!(split_expr("42").is_none());
}

#[test]
fn op_symbols() {
    assert_eq!(Op::Add.symbol(), '+');
    assert_eq!(Op::Sub.symbol(), '-');
    assert_eq!(Op::Mul.symbol(), '*');
    assert_eq!(Op::Div.symbol(), '/');
    assert_eq!(Op::Rem.symbol(), '%');
}
