use vstd::prelude::*;
use crate::text::{trim, trimmed, ascii_lower, eq_ignore_ascii_case, str_eq_ignore_ascii_case};

verus! {

/// What the interactive prompt does with one line of input.
#[derive(Debug, PartialEq, Eq)]
pub enum ReplLine {
    /// Nothing but white space: prompt again.
    Blank,
    /// `exit` or `quit`, in any case: say goodbye and stop.
    Quit,
    /// Anything else: evaluate this (trimmed) expression.
    Evaluate(String),
}

/// The words that end the prompt.
pub open spec fn is_quit_word(t: Seq<char>) -> bool {
    eq_ignore_ascii_case(t, "exit"@) || eq_ignore_ascii_case(t, "quit"@)
}

/// Whether a line ends the prompt does not depend on the case of its
/// letters: two lines equal up to ASCII case are both quit words or neither.
pub proof fn lemma_quit_ignores_case(t: Seq<char>, u: Seq<char>)
    requires
        t.len() == u.len(),
        forall|i: int| 0 <= i < t.len() ==> #[trigger] ascii_lower(t[i]) == ascii_lower(u[i]),
    ensures
        is_quit_word(t) == is_quit_word(u),
        is_quit_word(t) ==> t.len() == 4,
{
    reveal_strlit("exit");
    reveal_strlit("quit");
    let w1 = "exit"@;
    let w2 = "quit"@;
    assert(eq_ignore_ascii_case(t, w1) == eq_ignore_ascii_case(u, w1)) by {
        if t.len() == w1.len() {
            assert(forall|i: int| 0 <= i < t.len() ==> (ascii_lower(t[i]) == ascii_lower(w1[i])
                <==> ascii_lower(u[i]) == ascii_lower(w1[i])));
        }
    }
    assert(eq_ignore_ascii_case(t, w2) == eq_ignore_ascii_case(u, w2)) by {
        if t.len() == w2.len() {
            assert(forall|i: int| 0 <= i < t.len() ==> (ascii_lower(t[i]) == ascii_lower(w2[i])
                <==> ascii_lower(u[i]) == ascii_lower(w2[i])));
        }
    }
}

/// How a line of input is handled, by its trimmed text.
pub open spec fn line_is_blank(line: Seq<char>) -> bool {
    trimmed(line).len() == 0
}

/// Classifies one line read at the prompt: blank lines are skipped, `exit`
/// and `quit` (case-insensitive) end the session, and anything else is an
/// expression to evaluate, with surrounding white space removed.
pub fn classify_line(line: &str) -> (r: ReplLine)
    ensures
        line_is_blank(line@) ==> r == ReplLine::Blank,
        !line_is_blank(line@) && is_quit_word(trimmed(line@)) ==> r == ReplLine::Quit,
        !line_is_blank(line@) && !is_quit_word(trimmed(line@)) ==> (r matches ReplLine::Evaluate(
            e,
        ) && e@ == trimmed(line@)),
{
    let t = trim(line);
    let ts = t.as_str();
    if ts.unicode_len() == 0 {
        return ReplLine::Blank;
    }
    if str_eq_ignore_ascii_case(ts, "exit") || str_eq_ignore_ascii_case(ts, "quit") {
        return ReplLine::Quit;
    }
    ReplLine::Evaluate(t)
}

/// The words of `parts` with one space between each two.
pub open spec fn joined_with_spaces(parts: Seq<Seq<char>>) -> Seq<char>
    decreases parts.len(),
{
    if parts.len() == 0 {
        Seq::empty()
    } else if parts.len() == 1 {
        parts[0]
    } else {
        joined_with_spaces(parts.drop_last()) + seq![' '] + parts.last()
    }
}

/// The command-line arguments joined into one expression, separated by
/// single spaces.
pub fn join_args(args: &Vec<String>) -> (s: String)
    ensures
        s@ == joined_with_spaces(args@.map_values(|a: String| a@)),
{
    let ghost parts = args@.map_values(|a: String| a@);
    let mut s = String::new();
    let mut i: usize = 0;
    while i < args.len()
        invariant
            i <= args@.len(),
            parts == args@.map_values(|a: String| a@),
            s@ == joined_with_spaces(parts.take(i as int)),
        decreases args@.len() - i,
    {
        proof {
            assert(parts.take(i + 1).drop_last() =~= parts.take(i as int));
            reveal_strlit(" ");
        }
        if i > 0 {
            s.append(" ");
        }
        s.append(args[i].as_str());
        i = i + 1;
        proof {
            if i == 1 {
                assert(s@ =~= joined_with_spaces(parts.take(1)));
            } else {
                assert(s@ =~= joined_with_spaces(parts.take(i as int)));
            }
        }
    }
    assert(parts.take(args@.len() as int) =~= parts);
    s
}

} // verus!
