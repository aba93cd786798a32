use vstd::prelude::*;
use crate::op::Op;
use crate::text::{is_digit, char_is_digit, chars_of, push_char, pop_char};

verus! {

/// What an engine holds, as mathematical values: the text on the display,
/// the accumulated left operand, the operator waiting for its right
/// operand, whether the display shows a finished result (so the next digit
/// starts a new number), and the last error.
pub struct EngineState<N> {
    pub display: Seq<char>,
    pub accumulator: Option<N>,
    pub pending_op: Option<Op>,
    pub just_evaluated: bool,
    pub error: Option<Seq<char>>,
}

/// What the caller's arithmetic gave back, as mathematical values: the new
/// value and its display text, or an error text.
pub open spec fn outcome_view<N>(r: Result<(N, String), String>) -> Result<(N, Seq<char>), Seq<char>> {
    match r {
        Ok((v, shown)) => Ok((v, shown@)),
        Err(e) => Err(e@),
    }
}

/// The text `0`.
pub open spec fn zero_text() -> Seq<char> {
    seq!['0']
}

/// `s` with every field reset as by the clear key; the error is kept.
pub open spec fn cleared<N>(s: EngineState<N>) -> EngineState<N> {
    EngineState {
        display: zero_text(),
        accumulator: None,
        pending_op: None,
        just_evaluated: false,
        error: s.error,
    }
}

/// The engine just after it was created.
pub open spec fn initial_state<N>() -> EngineState<N> {
    EngineState {
        display: zero_text(),
        accumulator: None,
        pending_op: None,
        just_evaluated: false,
        error: None,
    }
}

/// Typing a digit: other characters are ignored; after a result the digit
/// starts a new number; a lone `0` is replaced.
pub open spec fn digit_step<N>(s: EngineState<N>, d: char) -> EngineState<N> {
    if !is_digit(d) {
        s
    } else {
        let base = if s.just_evaluated { Seq::<char>::empty() } else { s.display };
        EngineState {
            display: if base == zero_text() { seq![d] } else { base.push(d) },
            accumulator: s.accumulator,
            pending_op: s.pending_op,
            just_evaluated: false,
            error: None,
        }
    }
}

/// Typing the decimal point: after a result it starts `0.`; a number gets
/// at most one point.
pub open spec fn dot_step<N>(s: EngineState<N>) -> EngineState<N> {
    let base = if s.just_evaluated { zero_text() } else { s.display };
    EngineState {
        display: if base.contains('.') { base } else { base.push('.') },
        accumulator: s.accumulator,
        pending_op: s.pending_op,
        just_evaluated: false,
        error: None,
    }
}

/// Deleting the last character: nothing happens to a finished result;
/// deleting the last digit, or leaving a lone `-`, shows `0`.
pub open spec fn backspace_step<N>(s: EngineState<N>) -> EngineState<N> {
    if s.just_evaluated {
        EngineState { error: None, ..s }
    } else {
        let d = if s.display.len() > 0 { s.display.drop_last() } else { s.display };
        EngineState {
            display: if d.len() == 0 || d == seq!['-'] { zero_text() } else { d },
            error: None,
            ..s
        }
    }
}

/// Changing the sign: `0` stays as it is, a leading `-` is removed, any
/// other text gets one.
pub open spec fn toggle_sign_step<N>(s: EngineState<N>) -> EngineState<N> {
    let d = s.display;
    EngineState {
        display: if d == zero_text() {
            d
        } else if d.len() > 0 && d[0] == '-' {
            d.drop_first()
        } else {
            seq!['-'] + d
        },
        error: None,
        ..s
    }
}

/// The percent key: the display shows the given text when the caller could
/// rescale the displayed number, and is left alone when it could not.
pub open spec fn percent_step<N>(s: EngineState<N>, scaled: Option<Seq<char>>) -> EngineState<N> {
    EngineState {
        display: match scaled {
            Some(t) => t,
            None => s.display,
        },
        error: None,
        ..s
    }
}

/// The combination that the next operator or `=` asks for: the pending
/// operator applied to the accumulator and the number on the display.
pub open spec fn operator_request<N>(s: EngineState<N>) -> Option<(Op, N)> {
    match (s.accumulator, s.pending_op) {
        (Some(a), Some(p)) => Some((p, a)),
        _ => None,
    }
}

/// Pressing operator `op` while `current` is the number on the display. When
/// an operation is pending, `outcome` is what combining it gave: its value
/// becomes the accumulator and its text the display, or its error clears the
/// engine. Otherwise `current` becomes the accumulator. Either way (but for
/// an error) `op` is pending and the next digit starts a new number.
pub open spec fn operator_step<N>(
    s: EngineState<N>,
    op: Op,
    current: N,
    outcome: Option<Result<(N, Seq<char>), Seq<char>>>,
) -> EngineState<N> {
    if operator_request(s) is Some {
        match outcome {
            Some(Ok((v, shown))) => EngineState {
                display: shown,
                accumulator: Some(v),
                pending_op: Some(op),
                just_evaluated: true,
                error: None,
            },
            Some(Err(e)) => cleared(EngineState { error: Some(e), ..s }),
            None => s,
        }
    } else {
        EngineState {
            display: s.display,
            accumulator: Some(current),
            pending_op: Some(op),
            just_evaluated: true,
            error: None,
        }
    }
}

/// Pressing `=`. When an operation is pending, `outcome` is what combining
/// it gave: its text becomes the display, or its error clears the engine.
/// Then (but for an error) nothing is pending and the display is a finished
/// result.
pub open spec fn equals_step<N>(
    s: EngineState<N>,
    outcome: Option<Result<(N, Seq<char>), Seq<char>>>,
) -> EngineState<N> {
    let finished = |d: Seq<char>|
        EngineState {
            display: d,
            accumulator: None,
            pending_op: None,
            just_evaluated: true,
            error: None,
        };
    if operator_request(s) is Some {
        match outcome {
            Some(Ok((_v, shown))) => finished(shown),
            Some(Err(e)) => cleared(EngineState { error: Some(e), ..s }),
            None => s,
        }
    } else {
        finished(s.display)
    }
}

/// Typing, the decimal point, backspace, the sign key and percent change the
/// number on the display only: the accumulator and the pending operator stay
/// as they were.
pub proof fn lemma_entry_keeps_operation<N>(s: EngineState<N>, d: char, scaled: Option<Seq<char>>)
    ensures
        operator_request(digit_step(s, d)) == operator_request(s),
        operator_request(dot_step(s)) == operator_request(s),
        operator_request(backspace_step(s)) == operator_request(s),
        operator_request(toggle_sign_step(s)) == operator_request(s),
        operator_request(percent_step(s, scaled)) == operator_request(s),
{
}

/// Operators are evaluated left to right, without precedence: for
/// `a op1 b op2 c =`, the second operator combines `op1` with `a` and `b`,
/// and `=` combines `op2` with that result `v` and `c`; the display then
/// shows the text of the last result. `a`, `b` and `c` are the numbers on the
/// display when `op1`, `op2` and `=` are pressed; the digits typed in between
/// are any `t1` and `t2`.
pub proof fn lemma_left_to_right<N>(
    s: EngineState<N>,
    op1: Op,
    a: N,
    t1: char,
    op2: Op,
    b: N,
    v: N,
    shown1: Seq<char>,
    t2: char,
    c: N,
    w: N,
    shown2: Seq<char>,
)
    requires
        s.pending_op is None,
    ensures
        ({
            let s1 = digit_step(operator_step(s, op1, a, None), t1);
            let s2 = digit_step(operator_step(s1, op2, b, Some(Ok((v, shown1)))), t2);
            let s3 = equals_step(s2, Some(Ok((w, shown2))));
            &&& operator_request(s1) == Some((op1, a))
            &&& operator_request(s2) == Some((op2, v))
            &&& s3.display == shown2
            &&& s3.pending_op is None
            &&& s3.accumulator is None
        }),
{
}

/// A number gets at most one decimal point: a second press of `.` changes
/// nothing.
pub proof fn lemma_dot_once<N>(s: EngineState<N>)
    ensures
        dot_step(dot_step(s)) == dot_step(s),
{
    let base = if s.just_evaluated { zero_text() } else { s.display };
    if !base.contains('.') {
        assert(base.push('.')[base.len() as int] == '.');
    }
}

/// Pressing the sign key twice gives back the display, unless it is `-0`
/// (which turns into `0`, where the key does nothing) or begins with `--`.
pub proof fn lemma_toggle_sign_twice<N>(s: EngineState<N>)
    requires
        s.display != seq!['-', '0'],
        !(s.display.len() >= 2 && s.display[0] == '-' && s.display[1] == '-'),
    ensures
        toggle_sign_step(toggle_sign_step(s)).display == s.display,
{
    let d = s.display;
    if d == zero_text() {
    } else if d.len() > 0 && d[0] == '-' {
        let r = d.drop_first();
        if r == zero_text() {
            assert(r.len() == 1 && d[1] == r[0]);
            assert(d =~= seq!['-', '0']);
        }
        assert(seq!['-'] + r =~= d);
    } else {
        let t = seq!['-'] + d;
        assert(t.drop_first() =~= d);
        assert(t != zero_text()) by {
            assert(t[0] == '-');
        }
    }
}

/// A new engine shows `0`, with nothing accumulated, nothing pending and no
/// error.
pub proof fn lemma_fresh_engine<N>()
    ensures
        initial_state::<N>().display == seq!['0'],
        initial_state::<N>().accumulator is None,
        initial_state::<N>().pending_op is None,
        !initial_state::<N>().just_evaluated,
        initial_state::<N>().error is None,
{
}

/// The clear key always leaves `0` on the display with nothing pending,
/// whatever came before.
pub proof fn lemma_clear_resets<N>(s: EngineState<N>)
    ensures
        cleared(s).display == zero_text(),
        operator_request(cleared(s)) is None,
        cleared(cleared(s)) == cleared(s),
{
}

/// A digit key. After a finished result the digit alone is the new number;
/// otherwise it is appended, except that it replaces a lone `0`. Any other
/// character changes nothing. Only the display, the result flag and the
/// error change.
pub proof fn lemma_digit_key<N>(s: EngineState<N>, d: char)
    ensures
        !('0' <= d <= '9') ==> digit_step(s, d) == s,
        ('0' <= d <= '9') ==> {
            let t = digit_step(s, d);
            &&& s.just_evaluated ==> t.display == seq![d]
            &&& !s.just_evaluated && s.display == seq!['0'] ==> t.display == seq![d]
            &&& !s.just_evaluated && s.display != seq!['0'] ==> t.display == s.display + seq![d]
            &&& !t.just_evaluated
            &&& t.error is None
            &&& t.accumulator == s.accumulator
            &&& t.pending_op == s.pending_op
        },
{
}

/// The decimal point. After a finished result the display becomes `0.`;
/// otherwise a point is appended when the display has none yet, and the
/// display stays when it has one.
pub proof fn lemma_dot_key<N>(s: EngineState<N>)
    ensures
        ({
            let t = dot_step(s);
            &&& s.just_evaluated ==> t.display == seq!['0', '.']
            &&& !s.just_evaluated && s.display.contains('.') ==> t.display == s.display
            &&& !s.just_evaluated && !s.display.contains('.') ==> t.display == s.display
                + seq!['.']
            &&& !t.just_evaluated
            &&& t.error is None
            &&& t.accumulator == s.accumulator
            &&& t.pending_op == s.pending_op
        }),
{
    if s.just_evaluated {
        assert(!seq!['0'].contains('.')) by {
            assert(seq!['0'][0] != '.');
        }
        assert(seq!['0'].push('.') =~= seq!['0', '.']);
    } else {
        assert(s.display.push('.') =~= s.display + seq!['.']);
    }
}

/// Backspace deletes exactly the last character of a number being typed:
/// what it leaves, followed by that character, is the old display. Only when
/// nothing or a lone `-` would be left does the display become `0`. A
/// finished result is not edited.
pub proof fn lemma_backspace_key<N>(s: EngineState<N>)
    ensures
        ({
            let t = backspace_step(s);
            let d = s.display;
            &&& s.just_evaluated ==> t.display == d
            &&& !s.just_evaluated && d.len() >= 2 && d.subrange(0, d.len() - 1) != seq!['-']
                ==> t.display + seq![d.last()] == d
            &&& !s.just_evaluated && d.len() <= 1 ==> t.display == seq!['0']
            &&& !s.just_evaluated && d.len() == 2 && d[0] == '-' ==> t.display == seq!['0']
            &&& t.error is None
            &&& t.just_evaluated == s.just_evaluated
            &&& t.accumulator == s.accumulator
            &&& t.pending_op == s.pending_op
        }),
{
    let d = s.display;
    if !s.just_evaluated && d.len() > 0 {
        assert(d.drop_last() =~= d.subrange(0, d.len() - 1));
        assert(d.drop_last() + seq![d.last()] =~= d);
        if d.len() == 2 && d[0] == '-' {
            assert(d.drop_last() =~= seq!['-']);
        }
    }
}

/// The sign key negates whatever is on the display, a finished result as
/// much as a number being typed: a leading `-` is dropped, any other text
/// gets one in front; only `0` stays as it is. The result depends on the
/// display alone.
pub proof fn lemma_sign_key<N>(s: EngineState<N>, u: EngineState<N>)
    ensures
        ({
            let t = toggle_sign_step(s);
            let d = s.display;
            &&& d == seq!['0'] ==> t.display == d
            &&& d != seq!['0'] && d.len() > 0 && d[0] == '-' ==> seq!['-'] + t.display == d
            &&& d != seq!['0'] && !(d.len() > 0 && d[0] == '-') ==> t.display == seq!['-'] + d
            &&& u.display == s.display ==> toggle_sign_step(u).display == t.display
            &&& t.error is None
            &&& t.just_evaluated == s.just_evaluated
            &&& t.accumulator == s.accumulator
            &&& t.pending_op == s.pending_op
        }),
{
    let d = s.display;
    if d != seq!['0'] && d.len() > 0 && d[0] == '-' {
        assert(seq!['-'] + d.drop_first() =~= d);
    }
}

/// The percent key shows the rescaled text whenever there is one, in every
/// state, just after `=` or an operator too; without one the display stays.
pub proof fn lemma_percent_key<N>(s: EngineState<N>, t: Seq<char>)
    ensures
        percent_step(s, Some(t)).display == t,
        percent_step(s, None::<Seq<char>>).display == s.display,
        percent_step(s, Some(t)).error is None,
        percent_step(s, Some(t)).just_evaluated == s.just_evaluated,
        percent_step(s, Some(t)).accumulator == s.accumulator,
        percent_step(s, Some(t)).pending_op == s.pending_op,
{
}

/// An operator key. With an operation pending, a successful combination
/// becomes the accumulator and its text the display (the running result is
/// shown); a failed one leaves `0`, nothing pending and its error. With none
/// pending, the number on the display becomes the accumulator and the
/// display stays. Either way (but for a failure) the new operator is
/// pending and the next digit starts a new number.
pub proof fn lemma_operator_key<N>(
    s: EngineState<N>,
    op: Op,
    current: N,
    v: N,
    shown: Seq<char>,
    e: Seq<char>,
)
    ensures
        s.accumulator is Some && s.pending_op is Some ==> {
            let t = operator_step(s, op, current, Some(Ok((v, shown))));
            &&& t.display == shown
            &&& t.accumulator == Some(v)
            &&& t.pending_op == Some(op)
            &&& t.just_evaluated
            &&& t.error is None
        },
        s.accumulator is Some && s.pending_op is Some ==> {
            let t = operator_step(s, op, current, Some(Err(e)));
            &&& t.display == seq!['0']
            &&& t.accumulator is None
            &&& t.pending_op is None
            &&& !t.just_evaluated
            &&& t.error == Some(e)
        },
        !(s.accumulator is Some && s.pending_op is Some) ==> {
            let t = operator_step(s, op, current, None);
            &&& t.display == s.display
            &&& t.accumulator == Some(current)
            &&& t.pending_op == Some(op)
            &&& t.just_evaluated
            &&& t.error is None
        },
{
}

/// The `=` key. With an operation pending, a successful combination's text
/// is shown and a failed one leaves `0` and its error; with none pending the
/// display stays. Afterwards (but for a failure) nothing is pending, the
/// accumulator is empty and the display is a finished result.
pub proof fn lemma_equals_key<N>(s: EngineState<N>, v: N, shown: Seq<char>, e: Seq<char>)
    ensures
        s.accumulator is Some && s.pending_op is Some ==> {
            let t = equals_step(s, Some(Ok((v, shown))));
            &&& t.display == shown
            &&& t.accumulator is None
            &&& t.pending_op is None
            &&& t.just_evaluated
            &&& t.error is None
        },
        s.accumulator is Some && s.pending_op is Some ==> {
            let t = equals_step(s, Some(Err(e)));
            &&& t.display == seq!['0']
            &&& t.accumulator is None
            &&& t.pending_op is None
            &&& !t.just_evaluated
            &&& t.error == Some(e)
        },
        !(s.accumulator is Some && s.pending_op is Some) ==> {
            let t = equals_step(s, None);
            &&& t.display == s.display
            &&& t.accumulator is None
            &&& t.pending_op is None
            &&& t.just_evaluated
            &&& t.error is None
        },
{
}

/// The running result is shown and is what `=` works on next: after
/// `a op1 b op2` the display holds the text of `op1` applied to `a` and `b`,
/// and pressing `=` straight away combines `op2` with that result and the
/// number read from that same display.
pub proof fn lemma_running_result<N>(
    s: EngineState<N>,
    op1: Op,
    a: N,
    t1: char,
    op2: Op,
    b: N,
    v: N,
    shown: Seq<char>,
)
    requires
        s.pending_op is None,
    ensures
        ({
            let s1 = digit_step(operator_step(s, op1, a, None), t1);
            let s2 = operator_step(s1, op2, b, Some(Ok((v, shown))));
            &&& s2.display == shown
            &&& operator_request(s2) == Some((op2, v))
        }),
{
}

/// A four-function calculator engine, as on a physical calculator: digits
/// build the number on the display, an operator stores it (combining it
/// first with any pending operation, left to right, without precedence),
/// and `=` finishes the pending operation.
///
/// The engine makes every decision; the numbers themselves are of type `N`,
/// and the caller hands in the number on the display and the arithmetic.
#[derive(Debug, Clone)]
pub struct CalcEngine<N> {
    display: String,
    accumulator: Option<N>,
    pending_op: Option<Op>,
    just_evaluated: bool,
    pub error: Option<String>,
}

impl<N> View for CalcEngine<N> {
    type V = EngineState<N>;

    closed spec fn view(&self) -> EngineState<N> {
        EngineState {
            display: self.display@,
            accumulator: self.accumulator,
            pending_op: self.pending_op,
            just_evaluated: self.just_evaluated,
            error: match self.error {
                Some(e) => Some(e@),
                None => None,
            },
        }
    }
}

fn zero_string() -> (s: String)
    ensures
        s@ == zero_text(),
{
    let mut s = String::new();
    push_char(&mut s, '0');
    assert(s@ =~= zero_text());
    s
}

fn is_zero_text(s: &String) -> (b: bool)
    ensures
        b == (s@ == zero_text()),
{
    let t = s.as_str();
    if t.unicode_len() == 1 {
        let c = t.get_char(0);
        if c == '0' {
            assert(s@ =~= zero_text());
        }
        c == '0'
    } else {
        false
    }
}

fn is_minus_text(s: &String) -> (b: bool)
    ensures
        b == (s@ == seq!['-']),
{
    let t = s.as_str();
    if t.unicode_len() == 1 {
        let c = t.get_char(0);
        if c == '-' {
            assert(s@ =~= seq!['-']);
        }
        c == '-'
    } else {
        false
    }
}

fn contains_dot(s: &String) -> (b: bool)
    ensures
        b == s@.contains('.'),
{
    let cs = chars_of(s.as_str());
    let mut i: usize = 0;
    while i < cs.len()
        invariant
            cs@ == s@,
            i <= cs@.len(),
            forall|j: int| 0 <= j < i ==> s@[j] != '.',
        decreases cs@.len() - i,
    {
        if cs[i] == '.' {
            return true;
        }
        i = i + 1;
    }
    false
}

impl<N: Copy> CalcEngine<N> {
    /// A fresh engine showing `0`.
    pub fn new() -> (e: Self)
        ensures
            e@ == initial_state::<N>(),
    {
        CalcEngine {
            display: zero_string(),
            accumulator: None,
            pending_op: None,
            just_evaluated: false,
            error: None,
        }
    }

    /// The text on the display.
    pub fn display(&self) -> (d: &str)
        ensures
            d@ == self@.display,
    {
        self.display.as_str()
    }

    /// Which operator (if any) is currently pending, for UI highlighting.
    pub fn pending_op(&self) -> (p: Option<Op>)
        ensures
            p == self@.pending_op,
    {
        self.pending_op
    }

    /// The error of the last operation, if it failed.
    pub fn error(&self) -> (e: Option<&String>)
        ensures
            e is Some <==> self@.error is Some,
            e matches Some(t) ==> self@.error == Some(t@),
    {
        self.error.as_ref()
    }

    pub fn input_digit(&mut self, d: char)
        ensures
            final(self)@ == digit_step(old(self)@, d),
    {
        if !char_is_digit(d) {
            return;
        }
        self.error = None;
        if self.just_evaluated {
            self.display = String::new();
            self.just_evaluated = false;
        }
        if is_zero_text(&self.display) {
            let mut s = String::new();
            push_char(&mut s, d);
            self.display = s;
        } else {
            push_char(&mut self.display, d);
        }
    }

    pub fn input_dot(&mut self)
        ensures
            final(self)@ == dot_step(old(self)@),
    {
        self.error = None;
        if self.just_evaluated {
            self.display = zero_string();
            self.just_evaluated = false;
        }
        if !contains_dot(&self.display) {
            push_char(&mut self.display, '.');
        }
    }

    /// Presses operator `op`. The number on the display is read with `read`;
    /// when an operation is pending, `combine` is then called once, with the
    /// pending operator, the accumulator and that number, and returns the
    /// result with its display text, or an error.
    pub fn input_operator<R, F>(&mut self, op: Op, read: R, combine: F)
        where R: FnOnce(&str) -> N, F: FnOnce(Op, N, N) -> Result<(N, String), String>,
        requires
            forall|d: &str| call_requires(read, (d,)),
            forall|p: Op, a: N, b: N|
                operator_request(old(self)@) == Some((p, a)) ==> #[trigger] call_requires(
                    combine,
                    (p, a, b),
                ),
        ensures
            exists|d: &str, current: N|
                {
                    &&& d@ == old(self)@.display
                    &&& call_ensures(read, (d,), current)
                    &&& operator_request(old(self)@) is None ==> final(self)@ == operator_step(
                        old(self)@,
                        op,
                        current,
                        None,
                    )
                    &&& operator_request(old(self)@) matches Some((p, a)) ==> exists|
                        r: Result<(N, String), String>,
                    |
                        call_ensures(combine, (p, a, current), r) && final(self)@
                            == operator_step(old(self)@, op, current, Some(outcome_view(r)))
                },
    {
        let current = read(self.display.as_str());
        self.error = None;
        match (self.accumulator, self.pending_op) {
            (Some(acc), Some(pending)) => {
                let r = combine(pending, acc, current);
                let ghost outcome = outcome_view(r);
                match r {
                    Ok((result, shown)) => {
                        self.accumulator = Some(result);
                        self.display = shown;
                    },
                    Err(e) => {
                        self.error = Some(e);
                        self.clear_all();
                        assert(self@ == operator_step(old(self)@, op, current, Some(outcome)));
                        return;
                    },
                }
                self.pending_op = Some(op);
                self.just_evaluated = true;
                assert(self@ == operator_step(old(self)@, op, current, Some(outcome)));
            },
            _ => {
                self.accumulator = Some(current);
                self.pending_op = Some(op);
                self.just_evaluated = true;
            },
        }
    }

    /// Presses `=`. The number on the display is read with `read`; when an
    /// operation is pending, `combine` is then called once, with the pending
    /// operator, the accumulator and that number, and returns the result with
    /// its display text, or an error.
    pub fn equals<R, F>(&mut self, read: R, combine: F)
        where R: FnOnce(&str) -> N, F: FnOnce(Op, N, N) -> Result<(N, String), String>,
        requires
            forall|d: &str| call_requires(read, (d,)),
            forall|p: Op, a: N, b: N|
                operator_request(old(self)@) == Some((p, a)) ==> #[trigger] call_requires(
                    combine,
                    (p, a, b),
                ),
        ensures
            exists|d: &str, current: N|
                {
                    &&& d@ == old(self)@.display
                    &&& call_ensures(read, (d,), current)
                    &&& operator_request(old(self)@) is None ==> final(self)@ == equals_step(
                        old(self)@,
                        None,
                    )
                    &&& operator_request(old(self)@) matches Some((p, a)) ==> exists|
                        r: Result<(N, String), String>,
                    |
                        call_ensures(combine, (p, a, current), r) && final(self)@
                            == equals_step(old(self)@, Some(outcome_view(r)))
                },
    {
        let current = read(self.display.as_str());
        self.error = None;
        match (self.accumulator, self.pending_op) {
            (Some(acc), Some(pending)) => {
                let r = combine(pending, acc, current);
                let ghost outcome = outcome_view(r);
                match r {
                    Ok((_result, shown)) => {
                        self.display = shown;
                    },
                    Err(e) => {
                        self.error = Some(e);
                        self.clear_all();
                        assert(self@ == equals_step(old(self)@, Some(outcome)));
                        return;
                    },
                }
                self.accumulator = None;
                self.pending_op = None;
                self.just_evaluated = true;
                assert(self@ == equals_step(old(self)@, Some(outcome)));
            },
            _ => {
                self.accumulator = None;
                self.pending_op = None;
                self.just_evaluated = true;
            },
        }
    }

    pub fn clear(&mut self)
        ensures
            final(self)@ == cleared(old(self)@),
    {
        self.clear_all();
    }

    fn clear_all(&mut self)
        ensures
            final(self)@ == cleared(old(self)@),
    {
        self.display = zero_string();
        self.accumulator = None;
        self.pending_op = None;
        self.just_evaluated = false;
    }

    pub fn backspace(&mut self)
        ensures
            final(self)@ == backspace_step(old(self)@),
    {
        self.error = None;
        if self.just_evaluated {
            return;
        }
        let _ = pop_char(&mut self.display);
        if self.display.as_str().unicode_len() == 0 || is_minus_text(&self.display) {
            self.display = zero_string();
        }
    }

    pub fn toggle_sign(&mut self)
        ensures
            final(self)@ == toggle_sign_step(old(self)@),
    {
        self.error = None;
        if is_zero_text(&self.display) {
            return;
        }
        let t = self.display.as_str();
        let n = t.unicode_len();
        if n > 0 && t.get_char(0) == '-' {
            let rest = String::from_str(t.substring_char(1, n));
            assert(old(self)@.display.drop_first() =~= rest@);
            self.display = rest;
        } else {
            let mut s = String::from_str("-");
            s.append(t);
            proof {
                reveal_strlit("-");
                assert(s@ =~= seq!['-'] + old(self)@.display);
            }
            self.display = s;
        }
    }

    /// The percent key: `rescale` is called once with the display text and
    /// gives the text of the displayed number divided by 100, or `None` when
    /// the display does not hold a number (the display then stays).
    pub fn percent<G>(&mut self, rescale: G)
        where G: FnOnce(&str) -> Option<String>,
        requires
            forall|d: &str| call_requires(rescale, (d,)),
        ensures
            exists|d: &str, scaled: Option<String>|
                {
                    &&& d@ == old(self)@.display
                    &&& call_ensures(rescale, (d,), scaled)
                    &&& final(self)@ == percent_step(
                        old(self)@,
                        match scaled {
                            Some(t) => Some(t@),
                            None => None,
                        },
                    )
                },
    {
        let scaled = rescale(self.display.as_str());
        self.error = None;
        if let Some(t) = scaled {
            self.display = t;
        }
    }
}

impl<N: Copy> Default for CalcEngine<N> {
    fn default() -> (e: Self)
        ensures
            e@ == initial_state::<N>(),
    {
        Self::new()
    }
}

} // verus!
