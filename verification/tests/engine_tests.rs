use abyssal_abacus_core::{trim_trailing_zeros, CalcEngine, Op};

fn apply(op: Op, a: f64, b: f64) -> f64 {
    match op {
        Op::Add => a + b,
        Op::Sub => a - b,
        Op::Mul => a * b,
        Op::Div => {
            if b == 0.0 {
                0.0
            } else {
                a / b
            }
        }
        Op::Rem => {
            if b == 0.0 {
                0.0
            } else {
                a % b
            }
        }
    }
}

fn show(n: f64) -> String {
    if !n.is_finite() {
        return "Error".to_string();
    }
    if n.fract() == 0.0 && n.abs() < 1e15 {
        format!("{}", n as i64)
    } else {
        trim_trailing_zeros(&format!("{:.10}", n))
    }
}

fn combine(op: Op, a: f64, b: f64) -> Result<(f64, String), String> {
    let r = apply(op, a, b);
    Ok((r, show(r)))
}

fn read(d: &str) -> f64 {
    d.parse().unwrap_or(0.0)
}

fn operator(c: &mut CalcEngine<f64>, op: Op) {
    c.input_operator(op, read, combine);
}

fn equals(c: &mut CalcEngine<f64>) {
    c.equals(read, combine);
}

fn percent(c: &mut CalcEngine<f64>) {
    c.percent(|d: &str| d.parse::<f64>().ok().map(|v| show(v / 100.0)));
}

#[test]
fn engine_chain() {
    let mut c = CalcEngine::new();
    c.input_digit('3');
    operator(&mut c, Op::Add);
    c.input_digit('4');
    equals(&mut c);
    assert_eq!(c.display(), "7");
}

#[test]
fn engine_chained_ops() {
    // 5 + 2 * 3 evaluated left-to-right: (5+2)=7, then 7*3=21.
    let mut c = CalcEngine::new();
    c.input_digit('5');
    operator(&mut c, Op::Add);
    c.input_digit('2');
    operator(&mut c, Op::Mul);
    c.input_digit('3');
    equals(&mut c);
    assert_eq!(c.display(), "21");
}

#[test]
fn engine_divide_by_zero() {
    let mut c = CalcEngine::new();
    c.input_digit('5');
    operator(&mut c, Op::Div);
    c.input_digit('0');
    equals(&mut c);
    assert!(c.error.is_none());
    assert_eq!(c.display(), "0");
}

#[test]
fn engine_backspace_and_sign() {
    let mut c: CalcEngine<f64> = CalcEngine::new();
    c.input_digit('1');
    c.input_digit('2');
    c.input_digit('3');
    c.backspace();
    assert_eq!(c.display(), "12");
    c.toggle_sign();
    assert_eq!(c.display(), "-12");
}

#[test]
fn starts_at_zero_and_replaces_it() {
    let mut c: CalcEngine<f64> = CalcEngine::default();
    assert_eq!(c.display(), "0");
    assert_eq!(c.pending_op(), None);
    c.input_digit('0');
    assert_eq!(c.display(), "0");
    c.input_digit('7');
    assert_eq!(c.display(), "7");
    c.input_digit('x');
    assert_eq!(c.display(), "7");
}

#[test]
fn decimal_point_once() {
    let mut c: CalcEngine<f64> = CalcEngine::new();
    c.input_dot();
    assert_eq!(c.display(), "0.");
    c.input_digit('5');
    c.input_dot();
    assert_eq!(c.display(), "0.5");
}

#[test]
fn digit_after_result_starts_new_number() {
    let mut c = CalcEngine::new();
    c.input_digit('2');
    operator(&mut c, Op::Add);
    assert_eq!(c.pending_op(), Some(Op::Add));
    c.input_digit('3');
    equals(&mut c);
    assert_eq!(c.display(), "5");
    assert_eq!(c.pending_op(), None);
    c.input_digit('9');
    assert_eq!(c.display(), "9");
    equals(&mut c);
    c.input_dot();
    assert_eq!(c.display(), "0.");
}

#[test]
fn backspace_resets_to_zero() {
    let mut c: CalcEngine<f64> = CalcEngine::new();
    c.input_digit('5');
    c.backspace();
    assert_eq!(c.display(), "0");
    c.input_digit('5');
    c.toggle_sign();
    assert_eq!(c.display(), "-5");
    c.backspace();
    assert_eq!(c.display(), "0");
}

#[test]
fn backspace_keeps_a_result() {
    let mut c = CalcEngine::new();
    c.input_digit('4');
    c.input_digit('2');
    equals(&mut c);
    c.backspace();
    assert_eq!(c.display(), "42");
}

#[test]
fn sign_of_zero_and_back() {
    let mut c: CalcEngine<f64> = CalcEngine::new();
    c.toggle_sign();
    assert_eq!(c.display(), "0");
    c.input_digit('8');
    c.toggle_sign();
    c.toggle_sign();
    assert_eq!(c.display(), "8");
}

#[test]
fn clear_resets_display_and_operator() {
    let mut c = CalcEngine::new();
    c.input_digit('9');
    operator(&mut c, Op::Sub);
    c.input_digit('1');
    c.clear();
    assert_eq!(c.display(), "0");
    assert_eq!(c.pending_op(), None);
    c.input_digit('4');
    equals(&mut c);
    assert_eq!(c.display(), "4");
}

#[test]
fn percent_divides_by_hundred() {
    let mut c = CalcEngine::new();
    c.input_digit('5');
    percent(&mut c);
    assert_eq!(c.display(), "0.05");
    c.input_dot();
    c.input_dot();
    assert_eq!(c.display(), "0.05");
}

#[test]
fn failed_combination_clears_and_reports() {
    let mut c: CalcEngine<f64> = CalcEngine::new();
    c.input_digit('1');
    c.input_operator(Op::Add, read, |_, _, _| Err("overflow".to_string()));
    c.input_digit('2');
    c.input_operator(Op::Mul, read, |_, _, _| Err("overflow".to_string()));
    assert_eq!(c.error(), Some(&"overflow".to_string()));
    assert_eq!(c.display(), "0");
    assert_eq!(c.pending_op(), None);
    c.input_digit('3');
    assert!(c.error.is_none());
}

#[test]
fn chained_operators_pass_the_running_result() {
    let int = |d: &str| d.parse::<i64>().unwrap_or(0);
    let mut seen: Vec<(Op, i64, i64)> = Vec::new();
    let mut c: CalcEngine<i64> = CalcEngine::new();
    c.input_digit('5');
    c.input_operator(Op::Add, int, |_, _, _| unreachable!());
    c.input_digit('2');
    c.input_operator(Op::Mul, int, |op, a, b| {
        seen.push((op, a, b));
        Ok((a + b, (a + b).to_string()))
    });
    c.input_digit('3');
    c.equals(int, |op, a, b| {
        seen.push((op, a, b));
        Ok((a * b, (a * b).to_string()))
    });
    assert_eq!(seen, vec![(Op::Add, 5, 2), (Op::Mul, 7, 3)]);
    assert_eq!(c.display(), "21");
}

#[test]
fn entry_keys_keep_pending_operator() {
    let mut c = CalcEngine::new();
    c.input_digit('6');
    operator(&mut c, Op::Sub);
    c.input_digit('1');
    c.input_dot();
    c.input_digit('5');
    c.backspace();
    c.toggle_sign();
    percent(&mut c);
    assert_eq!(c.pending_op(), Some(Op::Sub));
    assert_eq!(c.display(), "-0.01");
    equals(&mut c);
    assert_eq!(c.display(), "6.01");
}
