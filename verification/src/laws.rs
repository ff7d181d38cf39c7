//! The laws the renderer obeys, each stated over the specification
//! functions of [`crate::render`] and proved once and for all.

use crate::align::AlignedPair;
use crate::render::{
    context_marker, context_prefix, file_header_lines, hunk_body, insertions, marker_for,
    novel_marker, trailing_tail,
};
use crate::split::{
    lemma_newline_count_concat, lemma_newline_count_zero, lemma_split_lines_len, newline_count,
    split_lines,
};
use crate::style::{bold_yellow, style_off, style_on, styled_if};
use vstd::prelude::*;

verus! {

/// The index of the first pair whose left line is present and novel, or
/// `pairs.len()` when no left line of the hunk is novel.
pub open spec fn first_novel_lhs(pairs: Seq<AlignedPair>, novel_lhs: Set<usize>) -> int
    decreases pairs.len(),
{
    if pairs.len() == 0 {
        0
    } else {
        match pairs[0].lhs {
            Some(n) => if novel_lhs.contains(n) {
                0
            } else {
                1 + first_novel_lhs(pairs.drop_first(), novel_lhs)
            },
            None => 1 + first_novel_lhs(pairs.drop_first(), novel_lhs),
        }
    }
}

/// Every present left line of `pairs` as a context line, with no stop
/// condition.
pub open spec fn full_context(pairs: Seq<AlignedPair>, lhs_lines: Seq<Seq<char>>) -> Seq<
    Seq<char>,
>
    decreases pairs.len(),
{
    if pairs.len() == 0 {
        Seq::empty()
    } else {
        match pairs[0].lhs {
            None => full_context(pairs.drop_first(), lhs_lines),
            Some(n) => seq![seq![context_marker()] + lhs_lines[n as int]] + full_context(
                pairs.drop_first(),
                lhs_lines,
            ),
        }
    }
}

/// Every present left line of `pairs`, each behind the marker its own
/// novelty selects.
pub open spec fn marked_lhs_lines(
    pairs: Seq<AlignedPair>,
    lhs_lines: Seq<Seq<char>>,
    novel_lhs: Set<usize>,
) -> Seq<Seq<char>>
    decreases pairs.len(),
{
    if pairs.len() == 0 {
        Seq::empty()
    } else {
        match pairs[0].lhs {
            None => marked_lhs_lines(pairs.drop_first(), lhs_lines, novel_lhs),
            Some(n) => seq![seq![marker_for(novel_lhs.contains(n))] + lhs_lines[n as int]]
                + marked_lhs_lines(pairs.drop_first(), lhs_lines, novel_lhs),
        }
    }
}

/// How many pairs of the sequence have a present left line.
pub open spec fn lhs_present_count(pairs: Seq<AlignedPair>) -> nat
    decreases pairs.len(),
{
    if pairs.len() == 0 {
        0
    } else {
        (if pairs[0].lhs is Some {
            1nat
        } else {
            0nat
        }) + lhs_present_count(pairs.drop_first())
    }
}

/// Whether a pair's right line is present and novel: the pairs the
/// insertion pass selects.
pub open spec fn novel_rhs_pair(novel_rhs: Set<usize>) -> spec_fn(AlignedPair) -> bool {
    |p: AlignedPair| p.rhs matches Some(n) && novel_rhs.contains(n)
}

/// The insertion line a selected pair produces.
pub open spec fn insertion_line(rhs_lines: Seq<Seq<char>>) -> spec_fn(AlignedPair) -> Seq<char> {
    |p: AlignedPair| seq![novel_marker()] + rhs_lines[p.rhs->Some_0 as int]
}

/// `first_novel_lhs` names what it promises: it lies within the pair
/// sequence, no earlier present left line is novel, and when it lies
/// strictly inside, the pair there has a present, novel left line.
pub proof fn lemma_first_novel_lhs(pairs: Seq<AlignedPair>, novel_lhs: Set<usize>)
    ensures
        0 <= first_novel_lhs(pairs, novel_lhs) <= pairs.len(),
        forall|i: int|
            0 <= i < first_novel_lhs(pairs, novel_lhs) ==> (#[trigger] pairs[i].lhs matches Some(n)
                ==> !novel_lhs.contains(n)),
        first_novel_lhs(pairs, novel_lhs) < pairs.len() ==> (pairs[first_novel_lhs(
            pairs,
            novel_lhs,
        )].lhs matches Some(n)
            && novel_lhs.contains(n)),
    decreases pairs.len(),
{
    if pairs.len() > 0 {
        lemma_first_novel_lhs(pairs.drop_first(), novel_lhs);
        let k = first_novel_lhs(pairs, novel_lhs);
        if k > 0 {
            assert forall|i: int| 0 <= i < k implies (#[trigger] pairs[i].lhs matches Some(n)
                ==> !novel_lhs.contains(n)) by {
                if i > 0 {
                    assert(pairs.drop_first()[i - 1] == pairs[i]);
                }
            }
            if k < pairs.len() {
                assert(pairs.drop_first()[k - 1] == pairs[k]);
            }
        }
    }
}

/// Styling never changes how a text splits into lines: the styled text
/// has exactly as many lines as the plain one.
pub proof fn lemma_styling_keeps_line_count(s: Seq<char>)
    ensures
        split_lines(bold_yellow(s)).len() == split_lines(s).len(),
{
    lemma_newline_count_zero(style_on());
    lemma_newline_count_zero(style_off());
    lemma_newline_count_concat(style_on(), s);
    lemma_newline_count_concat(style_on() + s, style_off());
    assert(newline_count(bold_yellow(s)) == newline_count(s));
    lemma_split_lines_len(bold_yellow(s));
    lemma_split_lines_len(s);
}

/// The file header always holds exactly two lines, the first carrying
/// the left path behind `--- `, the second the right path behind `+++ `,
/// whatever the color setting — styling wraps the same content.
pub proof fn lemma_file_header_fidelity(lhs_path: Seq<char>, rhs_path: Seq<char>, use_color: bool)
    ensures
        file_header_lines(lhs_path, rhs_path, use_color).len() == 2,
        file_header_lines(lhs_path, rhs_path, use_color)[0] == styled_if(
            use_color,
            "--- "@ + lhs_path,
        ),
        file_header_lines(lhs_path, rhs_path, use_color)[1] == styled_if(
            use_color,
            "+++ "@ + rhs_path,
        ),
        ("--- "@ + lhs_path).take(4) == "--- "@,
        ("+++ "@ + rhs_path).take(4) == "+++ "@,
{
    reveal_strlit("--- ");
    reveal_strlit("+++ ");
    assert(("--- "@ + lhs_path).take(4) =~= "--- "@);
    assert(("+++ "@ + rhs_path).take(4) =~= "+++ "@);
}

/// Every line of the leading context pass begins with the context
/// marker.
pub proof fn lemma_context_prefix_marked(
    pairs: Seq<AlignedPair>,
    lhs_lines: Seq<Seq<char>>,
    novel_lhs: Set<usize>,
)
    ensures
        forall|i: int|
            0 <= i < context_prefix(pairs, lhs_lines, novel_lhs).len() ==> (
            #[trigger] context_prefix(pairs, lhs_lines, novel_lhs)[i]).len() >= 1
                && context_prefix(pairs, lhs_lines, novel_lhs)[i][0] == context_marker(),
    decreases pairs.len(),
{
    if pairs.len() > 0 {
        lemma_context_prefix_marked(pairs.drop_first(), lhs_lines, novel_lhs);
        let out = context_prefix(pairs, lhs_lines, novel_lhs);
        let rec = context_prefix(pairs.drop_first(), lhs_lines, novel_lhs);
        assert forall|i: int| 0 <= i < out.len() implies (#[trigger] out[i]).len() >= 1
            && out[i][0] == context_marker() by {
            match pairs[0].lhs {
                None => {
                    assert(out[i] == rec[i]);
                },
                Some(n) => {
                    if !novel_lhs.contains(n) && i > 0 {
                        assert(out[i] == rec[i - 1]);
                    }
                },
            }
        }
    }
}

/// Every line of the insertion pass begins with the novel marker.
pub proof fn lemma_insertions_marked(
    pairs: Seq<AlignedPair>,
    rhs_lines: Seq<Seq<char>>,
    novel_rhs: Set<usize>,
)
    ensures
        forall|i: int|
            0 <= i < insertions(pairs, rhs_lines, novel_rhs).len() ==> (#[trigger] insertions(
                pairs,
                rhs_lines,
                novel_rhs,
            )[i]).len() >= 1 && (insertions(pairs, rhs_lines, novel_rhs)[i][0] == novel_marker()),
    decreases pairs.len(),
{
    if pairs.len() > 0 {
        lemma_insertions_marked(pairs.drop_first(), rhs_lines, novel_rhs);
        let out = insertions(pairs, rhs_lines, novel_rhs);
        let rec = insertions(pairs.drop_first(), rhs_lines, novel_rhs);
        assert forall|i: int| 0 <= i < out.len() implies (#[trigger] out[i]).len() >= 1 && (
        out[i][0] == novel_marker()) by {
            match pairs[0].rhs {
                None => {
                    assert(out[i] == rec[i]);
                },
                Some(n) => {
                    if novel_rhs.contains(n) {
                        if i > 0 {
                            assert(out[i] == rec[i - 1]);
                        }
                    } else {
                        assert(out[i] == rec[i]);
                    }
                },
            }
        }
    }
}

/// Every line of the trailing pass begins with the context marker or the
/// novel marker.
pub proof fn lemma_trailing_marked(
    pairs: Seq<AlignedPair>,
    lhs_lines: Seq<Seq<char>>,
    novel_lhs: Set<usize>,
    seen_novel: bool,
)
    ensures
        forall|i: int|
            0 <= i < trailing_tail(pairs, lhs_lines, novel_lhs, seen_novel).len() ==> (
            #[trigger] trailing_tail(pairs, lhs_lines, novel_lhs, seen_novel)[i]).len() >= 1 && (
            trailing_tail(pairs, lhs_lines, novel_lhs, seen_novel)[i][0] == context_marker()
                || trailing_tail(pairs, lhs_lines, novel_lhs, seen_novel)[i][0] == novel_marker()),
    decreases pairs.len(),
{
    if pairs.len() > 0 {
        lemma_trailing_marked(pairs.drop_first(), lhs_lines, novel_lhs, seen_novel);
        lemma_trailing_marked(pairs.drop_first(), lhs_lines, novel_lhs, true);
        lemma_trailing_marked(pairs.drop_first(), lhs_lines, novel_lhs, false);
        let out = trailing_tail(pairs, lhs_lines, novel_lhs, seen_novel);
        assert forall|i: int| 0 <= i < out.len() implies (#[trigger] out[i]).len() >= 1 && (
        out[i][0] == context_marker() || out[i][0] == novel_marker()) by {
            match pairs[0].lhs {
                None => {
                    assert(out[i] == trailing_tail(
                        pairs.drop_first(),
                        lhs_lines,
                        novel_lhs,
                        seen_novel,
                    )[i]);
                },
                Some(n) => {
                    let is_novel = novel_lhs.contains(n);
                    if !seen_novel && !is_novel {
                        assert(out[i] == trailing_tail(
                            pairs.drop_first(),
                            lhs_lines,
                            novel_lhs,
                            false,
                        )[i]);
                    } else if i > 0 {
                        assert(out[i] == trailing_tail(
                            pairs.drop_first(),
                            lhs_lines,
                            novel_lhs,
                            true,
                        )[i - 1]);
                    }
                },
            }
        }
    }
}

/// Prefix exhaustiveness: every content line of a hunk's body begins
/// with the context marker or the novel marker — never any other
/// character.
pub proof fn lemma_hunk_body_prefixes(
    pairs: Seq<AlignedPair>,
    lhs_lines: Seq<Seq<char>>,
    rhs_lines: Seq<Seq<char>>,
    novel_lhs: Set<usize>,
    novel_rhs: Set<usize>,
)
    ensures
        forall|i: int|
            0 <= i < hunk_body(pairs, lhs_lines, rhs_lines, novel_lhs, novel_rhs).len() ==> (
            #[trigger] hunk_body(pairs, lhs_lines, rhs_lines, novel_lhs, novel_rhs)[i]).len() >= 1
                && (hunk_body(pairs, lhs_lines, rhs_lines, novel_lhs, novel_rhs)[i][0]
                == context_marker() || hunk_body(pairs, lhs_lines, rhs_lines, novel_lhs, novel_rhs)[i][0]
                == novel_marker()),
{
    lemma_context_prefix_marked(pairs, lhs_lines, novel_lhs);
    lemma_insertions_marked(pairs, rhs_lines, novel_rhs);
    lemma_trailing_marked(pairs, lhs_lines, novel_lhs, false);
}

/// Leading-context truncation: the context pass emits exactly the
/// present left lines that stand before the first novel left line — the
/// pairs up to `first_novel_lhs` — and nothing after it, shared or not.
pub proof fn lemma_leading_context_truncation(
    pairs: Seq<AlignedPair>,
    lhs_lines: Seq<Seq<char>>,
    novel_lhs: Set<usize>,
)
    ensures
        context_prefix(pairs, lhs_lines, novel_lhs) == full_context(
            pairs.take(first_novel_lhs(pairs, novel_lhs)),
            lhs_lines,
        ),
    decreases pairs.len(),
{
    lemma_first_novel_lhs(pairs, novel_lhs);
    let k = first_novel_lhs(pairs, novel_lhs);
    if pairs.len() == 0 {
        assert(context_prefix(pairs, lhs_lines, novel_lhs) =~~= full_context(
            pairs.take(k),
            lhs_lines,
        ));
    } else {
        let rest = pairs.drop_first();
        lemma_leading_context_truncation(rest, lhs_lines, novel_lhs);
        match pairs[0].lhs {
            Some(n) => {
                if novel_lhs.contains(n) {
                    assert(pairs.take(0) =~= Seq::<AlignedPair>::empty());
                    assert(context_prefix(pairs, lhs_lines, novel_lhs) =~~= full_context(
                        pairs.take(k),
                        lhs_lines,
                    ));
                } else {
                    assert(pairs.take(k)[0] == pairs[0]);
                    assert(pairs.take(k).drop_first() =~= rest.take(k - 1));
                    assert(context_prefix(pairs, lhs_lines, novel_lhs) =~~= full_context(
                        pairs.take(k),
                        lhs_lines,
                    ));
                }
            },
            None => {
                assert(pairs.take(k)[0] == pairs[0]);
                assert(pairs.take(k).drop_first() =~= rest.take(k - 1));
                assert(context_prefix(pairs, lhs_lines, novel_lhs) =~~= full_context(
                    pairs.take(k),
                    lhs_lines,
                ));
            },
        }
    }
}

/// Insertion completeness: the insertion pass emits exactly the novel
/// right lines of the hunk's pairs, once each, in pair order.
pub proof fn lemma_insertion_completeness(
    pairs: Seq<AlignedPair>,
    rhs_lines: Seq<Seq<char>>,
    novel_rhs: Set<usize>,
)
    ensures
        insertions(pairs, rhs_lines, novel_rhs) == pairs.filter(novel_rhs_pair(novel_rhs)).map_values(
            insertion_line(rhs_lines),
        ),
    decreases pairs.len(),
{
    let pred = novel_rhs_pair(novel_rhs);
    let f = insertion_line(rhs_lines);
    reveal_with_fuel(Seq::<_>::filter, 2);
    if pairs.len() == 0 {
        assert(insertions(pairs, rhs_lines, novel_rhs) =~~= pairs.filter(pred).map_values(f));
    } else {
        let head = seq![pairs[0]];
        let rest = pairs.drop_first();
        lemma_insertion_completeness(rest, rhs_lines, novel_rhs);
        assert(pairs =~= head + rest);
        Seq::filter_distributes_over_add(head, rest, pred);
        assert(head.drop_last() =~= Seq::<AlignedPair>::empty());
        if pred(pairs[0]) {
            assert(head.filter(pred) =~= head);
        } else {
            assert(head.filter(pred) =~= Seq::<AlignedPair>::empty());
        }
        assert((head.filter(pred) + rest.filter(pred)).map_values(f) =~= head.filter(pred).map_values(
            f,
        ) + rest.filter(pred).map_values(f));
        assert(insertions(pairs, rhs_lines, novel_rhs) =~~= pairs.filter(pred).map_values(f));
    }
}

/// Once the latch is on, the trailing pass emits every remaining present
/// left line, marked by its own novelty.
pub proof fn lemma_trailing_after_latch(
    pairs: Seq<AlignedPair>,
    lhs_lines: Seq<Seq<char>>,
    novel_lhs: Set<usize>,
)
    ensures
        trailing_tail(pairs, lhs_lines, novel_lhs, true) == marked_lhs_lines(
            pairs,
            lhs_lines,
            novel_lhs,
        ),
    decreases pairs.len(),
{
    if pairs.len() > 0 {
        lemma_trailing_after_latch(pairs.drop_first(), lhs_lines, novel_lhs);
    }
}

/// The marked left lines are one per present left line.
pub proof fn lemma_marked_lhs_lines_len(
    pairs: Seq<AlignedPair>,
    lhs_lines: Seq<Seq<char>>,
    novel_lhs: Set<usize>,
)
    ensures
        marked_lhs_lines(pairs, lhs_lines, novel_lhs).len() == lhs_present_count(pairs),
    decreases pairs.len(),
{
    if pairs.len() > 0 {
        lemma_marked_lhs_lines_len(pairs.drop_first(), lhs_lines, novel_lhs);
    }
}

/// The trailing latch law: the trailing pass emits exactly the present
/// left lines from the first novel left line (inclusive) to the end of
/// the hunk, each marked by its own novelty; the lines before the first
/// novel one are never emitted here, and a hunk with no novel left line
/// emits nothing in this pass.
pub proof fn lemma_trailing_latch(
    pairs: Seq<AlignedPair>,
    lhs_lines: Seq<Seq<char>>,
    novel_lhs: Set<usize>,
)
    ensures
        trailing_tail(pairs, lhs_lines, novel_lhs, false) == marked_lhs_lines(
            pairs.skip(first_novel_lhs(pairs, novel_lhs)),
            lhs_lines,
            novel_lhs,
        ),
        trailing_tail(pairs, lhs_lines, novel_lhs, false).len() == lhs_present_count(
            pairs.skip(first_novel_lhs(pairs, novel_lhs)),
        ),
    decreases pairs.len(),
{
    lemma_first_novel_lhs(pairs, novel_lhs);
    let k = first_novel_lhs(pairs, novel_lhs);
    if pairs.len() == 0 {
        assert(pairs.skip(0) =~= pairs);
    } else {
        let rest = pairs.drop_first();
        lemma_trailing_latch(rest, lhs_lines, novel_lhs);
        match pairs[0].lhs {
            Some(n) => {
                if novel_lhs.contains(n) {
                    assert(pairs.skip(0) =~= pairs);
                    lemma_trailing_after_latch(rest, lhs_lines, novel_lhs);
                } else {
                    assert(pairs.skip(k) =~= rest.skip(k - 1));
                }
            },
            None => {
                assert(pairs.skip(k) =~= rest.skip(k - 1));
            },
        }
    }
    lemma_marked_lhs_lines_len(pairs.skip(k), lhs_lines, novel_lhs);
}

/// When no line of either side is novel, a hunk's body is the full
/// context: the leading pass emits every present left line as context,
/// the insertion pass emits nothing, and the trailing latch never flips.
pub proof fn lemma_unchanged_hunk_is_all_context(
    pairs: Seq<AlignedPair>,
    lhs_lines: Seq<Seq<char>>,
    rhs_lines: Seq<Seq<char>>,
    novel_lhs: Set<usize>,
    novel_rhs: Set<usize>,
)
    requires
        forall|n: usize| !novel_lhs.contains(n),
        forall|n: usize| !novel_rhs.contains(n),
    ensures
        hunk_body(pairs, lhs_lines, rhs_lines, novel_lhs, novel_rhs) == full_context(
            pairs,
            lhs_lines,
        ),
        context_prefix(pairs, lhs_lines, novel_lhs) == full_context(pairs, lhs_lines),
        insertions(pairs, rhs_lines, novel_rhs) == Seq::<Seq<char>>::empty(),
        trailing_tail(pairs, lhs_lines, novel_lhs, false) == Seq::<Seq<char>>::empty(),
{
    lemma_first_novel_lhs(pairs, novel_lhs);
    let k = first_novel_lhs(pairs, novel_lhs);
    if k < pairs.len() {
        assert(pairs[k].lhs matches Some(n) && novel_lhs.contains(n));
        assert(false);
    }
    lemma_leading_context_truncation(pairs, lhs_lines, novel_lhs);
    assert(pairs.take(k) =~= pairs);
    lemma_insertion_completeness(pairs, rhs_lines, novel_rhs);
    let pred = novel_rhs_pair(novel_rhs);
    pairs.lemma_filter_len(pred);
    if pairs.filter(pred).len() > 0 {
        pairs.lemma_filter_pred(pred, 0);
        assert(false);
    }
    assert(insertions(pairs, rhs_lines, novel_rhs) =~~= Seq::<Seq<char>>::empty());
    lemma_trailing_latch(pairs, lhs_lines, novel_lhs);
    assert(pairs.skip(k) =~= Seq::<AlignedPair>::empty());
    assert(trailing_tail(pairs, lhs_lines, novel_lhs, false) =~~= Seq::<Seq<char>>::empty());
    assert(hunk_body(pairs, lhs_lines, rhs_lines, novel_lhs, novel_rhs) =~~= full_context(
        pairs,
        lhs_lines,
    ));
}

} // verus!
