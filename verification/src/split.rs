//! Splitting a text buffer into its lines.
//!
//! A text is split strictly on `'\n'`: the lines are the segments between
//! newline characters, so a text with `k` newlines has exactly `k + 1`
//! lines, the empty text has a single empty line, and a text ending in a
//! newline has an empty final line.

use vstd::prelude::*;
use vstd::string::StrSliceExecFns;

verus! {

/// The lines of `s`, split on `'\n'`.
pub open spec fn split_lines(s: Seq<char>) -> Seq<Seq<char>>
    decreases s.len(),
{
    if s.len() == 0 {
        seq![Seq::<char>::empty()]
    } else if s[0] == '\n' {
        seq![Seq::<char>::empty()] + split_lines(s.drop_first())
    } else {
        let rest = split_lines(s.drop_first());
        seq![seq![s[0]] + rest[0]] + rest.drop_first()
    }
}

/// How many `'\n'` characters `s` holds.
pub open spec fn newline_count(s: Seq<char>) -> nat
    decreases s.len(),
{
    if s.len() == 0 {
        0
    } else if s[0] == '\n' {
        1 + newline_count(s.drop_first())
    } else {
        newline_count(s.drop_first())
    }
}

/// A split always yields one line more than the text has newlines.
pub proof fn lemma_split_lines_len(s: Seq<char>)
    ensures
        split_lines(s).len() == newline_count(s) + 1,
    decreases s.len(),
{
    if s.len() > 0 {
        lemma_split_lines_len(s.drop_first());
    }
}

/// A text without newlines is a single line.
pub proof fn lemma_split_no_newline(s: Seq<char>)
    requires
        forall|i: int| 0 <= i < s.len() ==> s[i] != '\n',
    ensures
        split_lines(s) == seq![s],
    decreases s.len(),
{
    if s.len() == 0 {
        assert(split_lines(s) =~~= seq![s]);
    } else {
        lemma_split_no_newline(s.drop_first());
        assert(seq![s[0]] + s.drop_first() =~= s);
        assert(split_lines(s) =~~= seq![s]);
    }
}

/// Splitting at the first newline: the segment before it is the first
/// line, and the rest of the text splits on its own.
pub proof fn lemma_split_at_newline(s: Seq<char>, k: int)
    requires
        0 <= k < s.len(),
        s[k] == '\n',
        forall|i: int| 0 <= i < k ==> s[i] != '\n',
    ensures
        split_lines(s) == seq![s.take(k)] + split_lines(s.skip(k + 1)),
    decreases k,
{
    if k == 0 {
        assert(s.take(0) =~= Seq::<char>::empty());
        assert(s.skip(1) =~= s.drop_first());
        assert(split_lines(s) =~~= seq![s.take(0)] + split_lines(s.skip(1)));
    } else {
        let t = s.drop_first();
        assert(t[k - 1] == '\n');
        lemma_split_at_newline(t, k - 1);
        let rest = split_lines(t);
        assert(rest == seq![t.take(k - 1)] + split_lines(t.skip(k)));
        lemma_split_lines_len(t.skip(k));
        assert(seq![s[0]] + rest[0] =~= s.take(k));
        assert(t.skip(k) =~= s.skip(k + 1));
        assert(rest.drop_first() =~~= split_lines(s.skip(k + 1)));
        assert(split_lines(s) =~~= seq![s.take(k)] + split_lines(s.skip(k + 1)));
    }
}

/// Counting newlines distributes over concatenation.
pub proof fn lemma_newline_count_concat(a: Seq<char>, b: Seq<char>)
    ensures
        newline_count(a + b) == newline_count(a) + newline_count(b),
    decreases a.len(),
{
    if a.len() == 0 {
        assert(a + b =~= b);
    } else {
        lemma_newline_count_concat(a.drop_first(), b);
        assert((a + b).drop_first() =~= a.drop_first() + b);
        assert((a + b)[0] == a[0]);
    }
}

/// A text without newlines counts zero of them.
pub proof fn lemma_newline_count_zero(s: Seq<char>)
    requires
        forall|i: int| 0 <= i < s.len() ==> s[i] != '\n',
    ensures
        newline_count(s) == 0,
    decreases s.len(),
{
    if s.len() > 0 {
        lemma_newline_count_zero(s.drop_first());
    }
}

/// Splits `s` into its lines, one `String` per segment between newlines.
pub fn split_on_newlines(s: &str) -> (r: Vec<String>)
    ensures
        r.deep_view() == split_lines(s@),
{
    let n: usize = s.unicode_len();
    let mut r: Vec<String> = Vec::new();
    let mut start: usize = 0;
    let mut i: usize = 0;
    proof {
        assert(s@.skip(0) =~= s@);
        assert(r.deep_view() + split_lines(s@) =~= split_lines(s@));
    }
    while i < n
        invariant
            n == s@.len(),
            start <= i <= n,
            forall|j: int| start <= j < i ==> s@[j] != '\n',
            r.deep_view() + split_lines(s@.skip(start as int)) == split_lines(s@),
        decreases n - i,
    {
        if s.get_char(i) == '\n' {
            let line = s.substring_char(start, i).to_owned();
            proof {
                let t = s@.skip(start as int);
                let k = i - start;
                assert(t[k as int] == '\n');
                assert(forall|j: int| 0 <= j < k ==> t[j] == s@[start + j] && s@[start + j]
                    != '\n');
                lemma_split_at_newline(t, k as int);
                assert(t.take(k as int) =~= s@.subrange(start as int, i as int));
                assert(t.skip(k + 1) =~= s@.skip(i + 1));
            }
            let ghost old_r = r.deep_view();
            r.push(line);
            proof {
                assert(r.deep_view() =~= old_r.push(line@));
                assert(r.deep_view() + split_lines(s@.skip(i + 1)) =~~= split_lines(s@));
            }
            start = i + 1;
        }
        i = i + 1;
    }
    let last = s.substring_char(start, n).to_owned();
    proof {
        let t = s@.skip(start as int);
        assert(forall|j: int| 0 <= j < t.len() ==> t[j] == s@[start + j] && s@[start + j]
            != '\n');
        lemma_split_no_newline(t);
        assert(t =~= s@.subrange(start as int, n as int));
    }
    let ghost old_r = r.deep_view();
    r.push(last);
    proof {
        assert(r.deep_view() =~= old_r.push(last@));
        assert(r.deep_view() =~~= split_lines(s@));
    }
    r
}

} // verus!
