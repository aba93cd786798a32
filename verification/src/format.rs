use vstd::prelude::*;
use crate::text::chars_of;

verus! {

/// `s` without any trailing `c`.
pub open spec fn strip_end(s: Seq<char>, c: char) -> Seq<char>
    decreases s.len(),
{
    if s.len() > 0 && s.last() == c {
        strip_end(s.drop_last(), c)
    } else {
        s
    }
}

/// A fixed-point numeral without its trailing zeros, and without a decimal
/// point that no digit follows any more.
pub open spec fn without_trailing_zeros(s: Seq<char>) -> Seq<char> {
    strip_end(strip_end(s, '0'), '.')
}

proof fn lemma_strip_end_last(s: Seq<char>, c: char)
    ensures
        strip_end(s, c).len() == 0 || strip_end(s, c).last() != c,
        strip_end(s, c).len() <= s.len(),
    decreases s.len(),
{
    if s.len() > 0 && s.last() == c {
        lemma_strip_end_last(s.drop_last(), c);
    }
}

/// A trimmed numeral never ends in a decimal point.
pub proof fn lemma_no_trailing_point(s: Seq<char>)
    ensures
        without_trailing_zeros(s).len() == 0 || without_trailing_zeros(s).last() != '.',
{
    lemma_strip_end_last(strip_end(s, '0'), '.');
}

proof fn lemma_strip_end_prefix(s: Seq<char>, c: char)
    ensures
        strip_end(s, c) == s.take(strip_end(s, c).len() as int),
        strip_end(s, c).len() <= s.len(),
        forall|j: int| strip_end(s, c).len() <= j < s.len() ==> s[j] == c,
    decreases s.len(),
{
    if s.len() > 0 && s.last() == c {
        lemma_strip_end_prefix(s.drop_last(), c);
        let k = strip_end(s, c).len() as int;
        assert(s.drop_last().take(k) =~= s.take(k));
        assert forall|j: int| k <= j < s.len() implies s[j] == c by {
            if j < s.len() - 1 {
                assert(s[j] == s.drop_last()[j]);
            }
        }
    } else {
        assert(s.take(s.len() as int) =~= s);
    }
}

/// Trimming a numeral only cuts its end, and only zeros and decimal points:
/// the result is a prefix of the numeral, everything cut off is `0` or `.`,
/// and what is left does not end in `.`.
pub proof fn lemma_trailing_zeros_cut(s: Seq<char>)
    ensures
        ({
            let t = without_trailing_zeros(s);
            &&& t.len() <= s.len()
            &&& t == s.take(t.len() as int)
            &&& forall|j: int| t.len() <= j < s.len() ==> s[j] == '0' || s[j] == '.'
            &&& t.len() == 0 || t.last() != '.'
        }),
{
    let a = strip_end(s, '0');
    lemma_strip_end_prefix(s, '0');
    lemma_strip_end_prefix(a, '.');
    lemma_strip_end_last(a, '.');
    let t = strip_end(a, '.');
    assert(a.take(t.len() as int) =~= s.take(t.len() as int));
    assert forall|j: int| t.len() <= j < s.len() implies s[j] == '0' || s[j] == '.' by {
        if j < a.len() {
            assert(a[j] == s[j]);
        }
    }
}

fn stripped_len(cs: &Vec<char>, n: usize, c: char) -> (k: usize)
    requires
        n <= cs@.len(),
    ensures
        k <= n,
        strip_end(cs@.take(n as int), c) == cs@.take(k as int),
{
    let mut k = n;
    while k > 0 && cs[k - 1] == c
        invariant
            k <= n <= cs@.len(),
            strip_end(cs@.take(n as int), c) == strip_end(cs@.take(k as int), c),
        decreases k,
    {
        assert(cs@.take(k as int).drop_last() =~= cs@.take(k - 1));
        k = k - 1;
    }
    if k > 0 {
        assert(cs@.take(k as int).last() == cs@[k - 1]);
    }
    k
}

/// Removes the trailing zeros of a fixed-point numeral such as `0.2500000000`
/// (giving `0.25`), and then a bare trailing decimal point, as in
/// `7.0000000000` (giving `7`).
pub fn trim_trailing_zeros(s: &str) -> (t: String)
    ensures
        t@ == without_trailing_zeros(s@),
{
    let cs = chars_of(s);
    let n = cs.len();
    assert(s@.take(n as int) =~= s@);
    let k = stripped_len(&cs, n, '0');
    let j = stripped_len(&cs, k, '.');
    assert(s@.subrange(0, j as int) =~= s@.take(j as int));
    String::from_str(s.substring_char(0, j))
}

} // verus!
