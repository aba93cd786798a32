# Abyssal Abacus core

The logic of a small calculator with two front ends, verified with Verus.

- `src/expr.rs`: the text-expression evaluator (`3+4`, `10 / 2`, `5*-3`):
  finding the operator (a `-` at the start or after another operator is a
  sign), cutting the expression, and the error messages.
- `src/engine.rs`: the keypad engine (digits, `.`, operators evaluated left to
  right without precedence, `=`, clear, backspace, sign, percent), with its
  state as a mathematical model and the laws that hold of it.
- `src/keys.rs`, `src/repl.rs`: how keypad labels, typed characters, prompt
  lines and command-line arguments are understood.
- `src/format.rs`, `src/text.rs`, `src/op.rs`: numeral trimming, Unicode
  white space and trimming, the operators.

The numbers are the caller's: the evaluator and the engine are generic over
the number type and are handed the reading and the arithmetic. `app/` holds
the floating-point side, the terminal front end and the egui desktop front
end.
