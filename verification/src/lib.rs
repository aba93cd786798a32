//! Core calculator logic shared by a command-line and a desktop front end:
//! the text-expression evaluator, the stateful keypad engine, and the rules
//! by which keys, typed characters and prompt lines are understood.
//!
//! The numbers themselves are the caller's: the evaluator and the engine are
//! generic over the number type and are handed the arithmetic.
pub mod engine;
pub mod expr;
pub mod format;
pub mod keys;
pub mod op;
pub mod repl;
pub mod text;

pub use engine::CalcEngine;
pub use expr::{evaluate_expr, find_operator, split_expr, ExprParts};
pub use format::trim_trailing_zeros;
pub use keys::{key_for_char, key_for_label, Key};
pub use op::Op;
pub use repl::{classify_line, join_args, ReplLine};
