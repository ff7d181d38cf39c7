//! The aligned-line-to-unified-diff renderer.
//!
//! A hunk's body is produced by three passes over the same immutable
//! aligned-pair sequence, strictly in this order:
//!
//! 1. leading context — left-side lines emitted as context until the
//!    first novel left line, which stops the pass at once;
//! 2. insertions — every novel right-side line, in pair order;
//! 3. trailing lines — left-side lines from the first novel one to the
//!    end of the hunk, each marked by its own novelty; nothing when no
//!    left line is novel.
//!
//! Every line this renderer emits for a hunk body begins with the context
//! marker or the novel marker; no other prefix exists. Novel left-side
//! lines are deliberately marked like insertions: the marker choice is
//! the named policy [`marker_for`], kept apart from the traversal.

use crate::align::{lhs_in_range, rhs_in_range, AlignedPair, Hunk, NovelSet};
use crate::style::{styled_if, style_bold_yellow};
use vstd::prelude::*;
use vstd::string::StringExecFns;

verus! {

/// The marker of a context line.
pub open spec fn context_marker() -> char {
    ' '
}

/// The marker of a novel line. This renderer marks novel lines of both
/// sides alike.
pub open spec fn novel_marker() -> char {
    '+'
}

/// The prefix policy: which marker a line of given novelty receives.
pub open spec fn marker_for(is_novel: bool) -> char {
    if is_novel {
        novel_marker()
    } else {
        context_marker()
    }
}

/// Step 2, leading context: the left-side lines of `pairs` as context
/// lines, cut off at the first left line that is novel — that line and
/// everything after it are left to the trailing pass.
pub open spec fn context_prefix(
    pairs: Seq<AlignedPair>,
    lhs_lines: Seq<Seq<char>>,
    novel_lhs: Set<usize>,
) -> Seq<Seq<char>>
    decreases pairs.len(),
{
    if pairs.len() == 0 {
        Seq::empty()
    } else {
        match pairs[0].lhs {
            None => context_prefix(pairs.drop_first(), lhs_lines, novel_lhs),
            Some(n) => if novel_lhs.contains(n) {
                Seq::empty()
            } else {
                seq![seq![context_marker()] + lhs_lines[n as int]] + context_prefix(
                    pairs.drop_first(),
                    lhs_lines,
                    novel_lhs,
                )
            },
        }
    }
}

/// Step 3, insertions: every right-side line of `pairs` that is novel,
/// in pair order, marked as novel.
pub open spec fn insertions(
    pairs: Seq<AlignedPair>,
    rhs_lines: Seq<Seq<char>>,
    novel_rhs: Set<usize>,
) -> Seq<Seq<char>>
    decreases pairs.len(),
{
    if pairs.len() == 0 {
        Seq::empty()
    } else {
        let rest = insertions(pairs.drop_first(), rhs_lines, novel_rhs);
        match pairs[0].rhs {
            None => rest,
            Some(n) => if novel_rhs.contains(n) {
                seq![seq![novel_marker()] + rhs_lines[n as int]] + rest
            } else {
                rest
            },
        }
    }
}

/// Step 4, trailing lines: left-side lines are skipped while the latch
/// `seen_novel` is off and the line is shared; the first novel left line
/// turns the latch on, and from then on every left line is emitted,
/// marked by its own novelty.
pub open spec fn trailing_tail(
    pairs: Seq<AlignedPair>,
    lhs_lines: Seq<Seq<char>>,
    novel_lhs: Set<usize>,
    seen_novel: bool,
) -> Seq<Seq<char>>
    decreases pairs.len(),
{
    if pairs.len() == 0 {
        Seq::empty()
    } else {
        match pairs[0].lhs {
            None => trailing_tail(pairs.drop_first(), lhs_lines, novel_lhs, seen_novel),
            Some(n) => {
                let is_novel = novel_lhs.contains(n);
                if !seen_novel && !is_novel {
                    trailing_tail(pairs.drop_first(), lhs_lines, novel_lhs, false)
                } else {
                    seq![seq![marker_for(is_novel)] + lhs_lines[n as int]] + trailing_tail(
                        pairs.drop_first(),
                        lhs_lines,
                        novel_lhs,
                        true,
                    )
                }
            },
        }
    }
}

/// A hunk's body: the three passes over its pairs, in order.
pub open spec fn hunk_body(
    pairs: Seq<AlignedPair>,
    lhs_lines: Seq<Seq<char>>,
    rhs_lines: Seq<Seq<char>>,
    novel_lhs: Set<usize>,
    novel_rhs: Set<usize>,
) -> Seq<Seq<char>> {
    context_prefix(pairs, lhs_lines, novel_lhs) + insertions(pairs, rhs_lines, novel_rhs)
        + trailing_tail(pairs, lhs_lines, novel_lhs, false)
}

/// The two lines of the file header, styled when color is asked for:
/// `--- <left path>` and `+++ <right path>`.
pub open spec fn file_header_lines(
    lhs_path: Seq<char>,
    rhs_path: Seq<char>,
    use_color: bool,
) -> Seq<Seq<char>> {
    seq![
        styled_if(use_color, "--- "@ + lhs_path),
        styled_if(use_color, "+++ "@ + rhs_path),
    ]
}

/// A hunk's header line before styling: `@@ -<range> +<range> @@`. The
/// ranges are supplied with the hunk, never computed here.
pub open spec fn hunk_header_text(lhs_range: Seq<char>, rhs_range: Seq<char>) -> Seq<char> {
    "@@ -"@ + lhs_range + " +"@ + rhs_range + " @@"@
}

/// Everything emitted for one hunk: its header line, then its body.
pub open spec fn hunk_lines(
    h: Hunk,
    lhs_lines: Seq<Seq<char>>,
    rhs_lines: Seq<Seq<char>>,
    novel_lhs: Set<usize>,
    novel_rhs: Set<usize>,
    use_color: bool,
) -> Seq<Seq<char>> {
    seq![styled_if(use_color, hunk_header_text(h.lhs_range@, h.rhs_range@))] + hunk_body(
        h.pairs@,
        lhs_lines,
        rhs_lines,
        novel_lhs,
        novel_rhs,
    )
}

/// Everything emitted for a sequence of hunks, in hunk order.
pub open spec fn hunks_lines(
    hunks: Seq<Hunk>,
    lhs_lines: Seq<Seq<char>>,
    rhs_lines: Seq<Seq<char>>,
    novel_lhs: Set<usize>,
    novel_rhs: Set<usize>,
    use_color: bool,
) -> Seq<Seq<char>>
    decreases hunks.len(),
{
    if hunks.len() == 0 {
        Seq::empty()
    } else {
        hunk_lines(hunks[0], lhs_lines, rhs_lines, novel_lhs, novel_rhs, use_color)
            + hunks_lines(
            hunks.drop_first(),
            lhs_lines,
            rhs_lines,
            novel_lhs,
            novel_rhs,
            use_color,
        )
    }
}

/// The whole diff: the file header, then every hunk in order.
pub open spec fn diff_lines(
    lhs_path: Seq<char>,
    rhs_path: Seq<char>,
    hunks: Seq<Hunk>,
    lhs_lines: Seq<Seq<char>>,
    rhs_lines: Seq<Seq<char>>,
    novel_lhs: Set<usize>,
    novel_rhs: Set<usize>,
    use_color: bool,
) -> Seq<Seq<char>> {
    file_header_lines(lhs_path, rhs_path, use_color) + hunks_lines(
        hunks,
        lhs_lines,
        rhs_lines,
        novel_lhs,
        novel_rhs,
        use_color,
    )
}

/// Every left and right line number named by every pair of every hunk is
/// a valid index into its side's line sequence.
pub open spec fn hunks_in_range(hunks: Seq<Hunk>, lhs_len: int, rhs_len: int) -> bool {
    forall|i: int|
        0 <= i < hunks.len() ==> lhs_in_range(#[trigger] hunks[i].pairs@, lhs_len)
            && rhs_in_range(hunks[i].pairs@, rhs_len)
}

/// `line` behind `marker`: the one way a content line is assembled.
fn prefixed(marker: &str, line: &str) -> (r: String)
    ensures
        r@ == marker@ + line@,
{
    let s = marker.to_owned();
    s.concat(line)
}

/// Step 2 as executable code: the leading context of one hunk.
pub fn leading_context(
    pairs: &Vec<AlignedPair>,
    lhs_lines: &Vec<String>,
    novel_lhs: &NovelSet,
) -> (out: Vec<String>)
    requires
        lhs_in_range(pairs@, lhs_lines@.len() as int),
    ensures
        out.deep_view() == context_prefix(pairs@, lhs_lines.deep_view(), novel_lhs@),
{
    let ghost ll = lhs_lines.deep_view();
    let mut out: Vec<String> = Vec::new();
    let mut i: usize = 0;
    proof {
        assert(pairs@.skip(0) =~= pairs@);
        assert(out.deep_view() + context_prefix(pairs@, ll, novel_lhs@) =~= context_prefix(
            pairs@,
            ll,
            novel_lhs@,
        ));
    }
    while i < pairs.len()
        invariant
            i <= pairs@.len(),
            lhs_in_range(pairs@, lhs_lines@.len() as int),
            ll == lhs_lines.deep_view(),
            out.deep_view() + context_prefix(pairs@.skip(i as int), ll, novel_lhs@)
                == context_prefix(pairs@, ll, novel_lhs@),
        decreases pairs@.len() - i,
    {
        proof {
            assert(pairs@.skip(i as int)[0] == pairs@[i as int]);
            assert(pairs@.skip(i as int).drop_first() =~= pairs@.skip(i + 1));
        }
        match pairs[i].lhs {
            Some(n) => {
                if novel_lhs.contains(n) {
                    proof {
                        assert(out.deep_view() + context_prefix(
                            pairs@.skip(i as int),
                            ll,
                            novel_lhs@,
                        ) =~= out.deep_view());
                    }
                    return out;
                }
                let line = prefixed(" ", lhs_lines[n].as_str());
                proof {
                    reveal_strlit(" ");
                    assert(line@ =~= seq![context_marker()] + ll[n as int]);
                }
                let ghost old_out = out.deep_view();
                out.push(line);
                proof {
                    assert(out.deep_view() =~= old_out.push(line@));
                    assert(out.deep_view() + context_prefix(pairs@.skip(i + 1), ll, novel_lhs@)
                        =~~= context_prefix(pairs@, ll, novel_lhs@));
                }
            },
            None => {},
        }
        i = i + 1;
    }
    proof {
        assert(pairs@.skip(pairs@.len() as int) =~= Seq::<AlignedPair>::empty());
        assert(out.deep_view() =~~= context_prefix(pairs@, ll, novel_lhs@));
    }
    out
}

/// Step 3 as executable code: the insertions of one hunk.
pub fn insertion_lines(
    pairs: &Vec<AlignedPair>,
    rhs_lines: &Vec<String>,
    novel_rhs: &NovelSet,
) -> (out: Vec<String>)
    requires
        rhs_in_range(pairs@, rhs_lines@.len() as int),
    ensures
        out.deep_view() == insertions(pairs@, rhs_lines.deep_view(), novel_rhs@),
{
    let ghost rl = rhs_lines.deep_view();
    let mut out: Vec<String> = Vec::new();
    let mut i: usize = 0;
    proof {
        assert(pairs@.skip(0) =~= pairs@);
        assert(out.deep_view() + insertions(pairs@, rl, novel_rhs@) =~= insertions(
            pairs@,
            rl,
            novel_rhs@,
        ));
    }
    while i < pairs.len()
        invariant
            i <= pairs@.len(),
            rhs_in_range(pairs@, rhs_lines@.len() as int),
            rl == rhs_lines.deep_view(),
            out.deep_view() + insertions(pairs@.skip(i as int), rl, novel_rhs@) == insertions(
                pairs@,
                rl,
                novel_rhs@,
            ),
        decreases pairs@.len() - i,
    {
        proof {
            assert(pairs@.skip(i as int)[0] == pairs@[i as int]);
            assert(pairs@.skip(i as int).drop_first() =~= pairs@.skip(i + 1));
        }
        match pairs[i].rhs {
            Some(n) => {
                if novel_rhs.contains(n) {
                    let line = prefixed("+", rhs_lines[n].as_str());
                    proof {
                        reveal_strlit("+");
                        assert(line@ =~= seq![novel_marker()] + rl[n as int]);
                    }
                    let ghost old_out = out.deep_view();
                    out.push(line);
                    proof {
                        assert(out.deep_view() =~= old_out.push(line@));
                        assert(out.deep_view() + insertions(pairs@.skip(i + 1), rl, novel_rhs@)
                            =~~= insertions(pairs@, rl, novel_rhs@));
                    }
                }
            },
            None => {},
        }
        i = i + 1;
    }
    proof {
        assert(pairs@.skip(pairs@.len() as int) =~= Seq::<AlignedPair>::empty());
        assert(out.deep_view() =~~= insertions(pairs@, rl, novel_rhs@));
    }
    out
}

/// Step 4 as executable code: the trailing lines of one hunk, driven by
/// the `seen_novel` latch.
pub fn trailing_lines(
    pairs: &Vec<AlignedPair>,
    lhs_lines: &Vec<String>,
    novel_lhs: &NovelSet,
) -> (out: Vec<String>)
    requires
        lhs_in_range(pairs@, lhs_lines@.len() as int),
    ensures
        out.deep_view() == trailing_tail(pairs@, lhs_lines.deep_view(), novel_lhs@, false),
{
    let ghost ll = lhs_lines.deep_view();
    let mut out: Vec<String> = Vec::new();
    let mut i: usize = 0;
    let mut seen_novel = false;
    proof {
        assert(pairs@.skip(0) =~= pairs@);
        assert(out.deep_view() + trailing_tail(pairs@, ll, novel_lhs@, false) =~= trailing_tail(
            pairs@,
            ll,
            novel_lhs@,
            false,
        ));
    }
    while i < pairs.len()
        invariant
            i <= pairs@.len(),
            lhs_in_range(pairs@, lhs_lines@.len() as int),
            ll == lhs_lines.deep_view(),
            out.deep_view() + trailing_tail(pairs@.skip(i as int), ll, novel_lhs@, seen_novel)
                == trailing_tail(pairs@, ll, novel_lhs@, false),
        decreases pairs@.len() - i,
    {
        proof {
            assert(pairs@.skip(i as int)[0] == pairs@[i as int]);
            assert(pairs@.skip(i as int).drop_first() =~= pairs@.skip(i + 1));
        }
        match pairs[i].lhs {
            Some(n) => {
                let is_novel = novel_lhs.contains(n);
                if seen_novel || is_novel {
                    let line = if is_novel {
                        prefixed("+", lhs_lines[n].as_str())
                    } else {
                        prefixed(" ", lhs_lines[n].as_str())
                    };
                    proof {
                        reveal_strlit("+");
                        reveal_strlit(" ");
                        assert(line@ =~= seq![marker_for(novel_lhs@.contains(n))] + ll[n as int]);
                    }
                    let ghost old_out = out.deep_view();
                    out.push(line);
                    seen_novel = true;
                    proof {
                        assert(out.deep_view() =~= old_out.push(line@));
                        assert(out.deep_view() + trailing_tail(
                            pairs@.skip(i + 1),
                            ll,
                            novel_lhs@,
                            true,
                        ) =~~= trailing_tail(pairs@, ll, novel_lhs@, false));
                    }
                }
            },
            None => {},
        }
        i = i + 1;
    }
    proof {
        assert(pairs@.skip(pairs@.len() as int) =~= Seq::<AlignedPair>::empty());
        assert(out.deep_view() =~~= trailing_tail(pairs@, ll, novel_lhs@, false));
    }
    out
}

/// The two file header lines, styled when `use_color` asks for it.
pub fn file_header(lhs_path: &str, rhs_path: &str, use_color: bool) -> (out: Vec<String>)
    ensures
        out.deep_view() == file_header_lines(lhs_path@, rhs_path@, use_color),
{
    let mut lhs_pretty = prefixed("--- ", lhs_path);
    if use_color {
        lhs_pretty = style_bold_yellow(lhs_pretty.as_str());
    }
    let mut rhs_pretty = prefixed("+++ ", rhs_path);
    if use_color {
        rhs_pretty = style_bold_yellow(rhs_pretty.as_str());
    }
    let mut out: Vec<String> = Vec::new();
    out.push(lhs_pretty);
    out.push(rhs_pretty);
    proof {
        assert(out.deep_view() =~= file_header_lines(lhs_path@, rhs_path@, use_color));
    }
    out
}

/// One hunk's header line from its supplied ranges, styled when asked.
pub fn hunk_header(lhs_range: &str, rhs_range: &str, use_color: bool) -> (r: String)
    ensures
        r@ == styled_if(use_color, hunk_header_text(lhs_range@, rhs_range@)),
{
    let text = prefixed("@@ -", lhs_range).concat(" +").concat(rhs_range).concat(" @@");
    proof {
        assert(text@ == hunk_header_text(lhs_range@, rhs_range@));
    }
    if use_color {
        style_bold_yellow(text.as_str())
    } else {
        text
    }
}

/// Renders one hunk: its header line, then the three body passes.
pub fn render_hunk(
    hunk: &Hunk,
    lhs_lines: &Vec<String>,
    rhs_lines: &Vec<String>,
    novel_lhs: &NovelSet,
    novel_rhs: &NovelSet,
    use_color: bool,
) -> (out: Vec<String>)
    requires
        lhs_in_range(hunk.pairs@, lhs_lines@.len() as int),
        rhs_in_range(hunk.pairs@, rhs_lines@.len() as int),
    ensures
        out.deep_view() == hunk_lines(
            *hunk,
            lhs_lines.deep_view(),
            rhs_lines.deep_view(),
            novel_lhs@,
            novel_rhs@,
            use_color,
        ),
{
    let mut out: Vec<String> = Vec::new();
    out.push(hunk_header(hunk.lhs_range.as_str(), hunk.rhs_range.as_str(), use_color));
    let mut context = leading_context(&hunk.pairs, lhs_lines, novel_lhs);
    let mut inserted = insertion_lines(&hunk.pairs, rhs_lines, novel_rhs);
    let mut trailing = trailing_lines(&hunk.pairs, lhs_lines, novel_lhs);
    let ghost parts = (out.deep_view(), context.deep_view(), inserted.deep_view(),
        trailing.deep_view());
    out.append(&mut context);
    out.append(&mut inserted);
    out.append(&mut trailing);
    proof {
        assert(out.deep_view() =~~= parts.0 + parts.1 + parts.2 + parts.3);
        assert(out.deep_view() =~~= hunk_lines(
            *hunk,
            lhs_lines.deep_view(),
            rhs_lines.deep_view(),
            novel_lhs@,
            novel_rhs@,
            use_color,
        ));
    }
    out
}

/// Renders the whole diff: the file header, then every hunk in order.
pub fn render(
    hunks: &Vec<Hunk>,
    lhs_path: &str,
    rhs_path: &str,
    lhs_lines: &Vec<String>,
    rhs_lines: &Vec<String>,
    novel_lhs: &NovelSet,
    novel_rhs: &NovelSet,
    use_color: bool,
) -> (out: Vec<String>)
    requires
        hunks_in_range(hunks@, lhs_lines@.len() as int, rhs_lines@.len() as int),
    ensures
        out.deep_view() == diff_lines(
            lhs_path@,
            rhs_path@,
            hunks@,
            lhs_lines.deep_view(),
            rhs_lines.deep_view(),
            novel_lhs@,
            novel_rhs@,
            use_color,
        ),
{
    let ghost ll = lhs_lines.deep_view();
    let ghost rl = rhs_lines.deep_view();
    let mut out = file_header(lhs_path, rhs_path, use_color);
    let mut i: usize = 0;
    proof {
        assert(hunks@.skip(0) =~= hunks@);
        assert(out.deep_view() + hunks_lines(hunks@, ll, rl, novel_lhs@, novel_rhs@, use_color)
            =~= diff_lines(
            lhs_path@,
            rhs_path@,
            hunks@,
            ll,
            rl,
            novel_lhs@,
            novel_rhs@,
            use_color,
        ));
    }
    while i < hunks.len()
        invariant
            i <= hunks@.len(),
            hunks_in_range(hunks@, lhs_lines@.len() as int, rhs_lines@.len() as int),
            ll == lhs_lines.deep_view(),
            rl == rhs_lines.deep_view(),
            out.deep_view() + hunks_lines(
                hunks@.skip(i as int),
                ll,
                rl,
                novel_lhs@,
                novel_rhs@,
                use_color,
            ) == diff_lines(
                lhs_path@,
                rhs_path@,
                hunks@,
                ll,
                rl,
                novel_lhs@,
                novel_rhs@,
                use_color,
            ),
        decreases hunks@.len() - i,
    {
        proof {
            assert(hunks@.skip(i as int)[0] == hunks@[i as int]);
            assert(hunks@.skip(i as int).drop_first() =~= hunks@.skip(i + 1));
        }
        let mut h = render_hunk(&hunks[i], lhs_lines, rhs_lines, novel_lhs, novel_rhs, use_color);
        let ghost before = out.deep_view();
        let ghost h_view = h.deep_view();
        out.append(&mut h);
        proof {
            assert(out.deep_view() =~~= before + h_view);
            assert(out.deep_view() + hunks_lines(
                hunks@.skip(i + 1),
                ll,
                rl,
                novel_lhs@,
                novel_rhs@,
                use_color,
            ) =~~= diff_lines(
                lhs_path@,
                rhs_path@,
                hunks@,
                ll,
                rl,
                novel_lhs@,
                novel_rhs@,
                use_color,
            ));
        }
        i = i + 1;
    }
    proof {
        assert(hunks@.skip(hunks@.len() as int) =~= Seq::<Hunk>::empty());
        assert(out.deep_view() =~~= diff_lines(
            lhs_path@,
            rhs_path@,
            hunks@,
            ll,
            rl,
            novel_lhs@,
            novel_rhs@,
            use_color,
        ));
    }
    out
}

/// Checks the range invariant that rendering relies on, so that a caller
/// holding unchecked input can test it before rendering.
pub fn check_hunks_in_range(hunks: &Vec<Hunk>, lhs_len: usize, rhs_len: usize) -> (r: bool)
    ensures
        r == hunks_in_range(hunks@, lhs_len as int, rhs_len as int),
{
    let mut i: usize = 0;
    while i < hunks.len()
        invariant
            i <= hunks@.len(),
            forall|k: int|
                0 <= k < i ==> lhs_in_range(#[trigger] hunks@[k].pairs@, lhs_len as int)
                    && rhs_in_range(hunks@[k].pairs@, rhs_len as int),
        decreases hunks@.len() - i,
    {
        let pairs = &hunks[i].pairs;
        let mut j: usize = 0;
        while j < pairs.len()
            invariant
                j <= pairs@.len(),
                pairs == &hunks@[i as int].pairs,
                i < hunks@.len(),
                forall|k: int|
                    0 <= k < j ==> (#[trigger] pairs@[k].lhs matches Some(n) ==> n < lhs_len),
                forall|k: int|
                    0 <= k < j ==> (#[trigger] pairs@[k].rhs matches Some(m) ==> m < rhs_len),
            decreases pairs@.len() - j,
        {
            match pairs[j].lhs {
                Some(n) => if n >= lhs_len {
                    return false;
                },
                None => {},
            }
            match pairs[j].rhs {
                Some(m) => if m >= rhs_len {
                    return false;
                },
                None => {},
            }
            j = j + 1;
        }
        proof {
            assert(lhs_in_range(hunks@[i as int].pairs@, lhs_len as int));
            assert(rhs_in_range(hunks@[i as int].pairs@, rhs_len as int));
        }
        i = i + 1;
    }
    true
}

} // verus!
