use owo_colors::OwoColorize;
use unified_diff::align::{AlignedPair, Hunk, NovelSet};
use unified_diff::render::{
    check_hunks_in_range, file_header, hunk_header, insertion_lines, leading_context, render,
    render_hunk, trailing_lines,
};

fn pair(lhs: Option<usize>, rhs: Option<usize>) -> AlignedPair {
    AlignedPair::new(lhs, rhs)
}

fn strings(v: Vec<&str>) -> Vec<String> {
    v.into_iter().map(|s| s.to_string()).collect()
}

#[test]
fn file_header_plain_is_the_two_prefixed_paths() {
    let header = file_header("a.txt", "b.txt", false);
    assert_eq!(header, strings(vec!["--- a.txt", "+++ b.txt"]));
}

#[test]
fn file_header_colored_wraps_the_same_content_in_escapes() {
    let header = file_header("a.txt", "b.txt", true);
    assert_eq!(header.len(), 2);
    assert_eq!(header[0], "\u{1b}[1m\u{1b}[33m--- a.txt\u{1b}[39m\u{1b}[0m");
    assert_eq!(header[1], "\u{1b}[1m\u{1b}[33m+++ b.txt\u{1b}[39m\u{1b}[0m");
}

#[test]
fn styling_adds_no_line_breaks() {
    let header = file_header("a.txt", "b.txt", true);
    assert!(!header[0].contains('\n'));
    assert!(!header[1].contains('\n'));
}

#[test]
fn header_styling_matches_the_styling_engine() {
    // The styled header must be exactly what the styling engine itself
    // produces for the same content.
    let header = file_header("a.txt", "b.txt", true);
    assert_eq!(header[0], format!("{}", "--- a.txt".yellow().bold()));
    assert_eq!(header[1], format!("{}", "+++ b.txt".yellow().bold()));
}

#[test]
fn hunk_header_formats_the_supplied_ranges() {
    assert_eq!(hunk_header("1,3", "1,4", false), "@@ -1,3 +1,4 @@");
}

#[test]
fn hunk_header_colored_wraps_the_plain_header() {
    assert_eq!(
        hunk_header("1,3", "1,4", true),
        "\u{1b}[1m\u{1b}[33m@@ -1,3 +1,4 @@\u{1b}[39m\u{1b}[0m"
    );
}

#[test]
fn leading_context_stops_at_first_novel_left_line() {
    // The left side's first three lines are shared, the fourth is novel:
    // exactly the first three come out, and nothing after the fourth,
    // shared or not.
    let pairs = vec![
        pair(Some(0), Some(0)),
        pair(Some(1), Some(1)),
        pair(Some(2), Some(2)),
        pair(Some(3), None),
        pair(Some(4), Some(3)),
    ];
    let lhs = strings(vec!["a", "b", "c", "d", "e"]);
    let novel_lhs = NovelSet::from_lines(vec![3]);
    let out = leading_context(&pairs, &lhs, &novel_lhs);
    assert_eq!(out, strings(vec![" a", " b", " c"]));
}

#[test]
fn leading_context_skips_pairs_without_left_line() {
    let pairs = vec![pair(None, Some(0)), pair(Some(0), Some(1))];
    let lhs = strings(vec!["x"]);
    let novel_lhs = NovelSet::from_lines(vec![]);
    let out = leading_context(&pairs, &lhs, &novel_lhs);
    assert_eq!(out, strings(vec![" x"]));
}

#[test]
fn insertions_are_exactly_the_novel_right_lines_in_order() {
    let pairs = vec![
        pair(Some(0), Some(0)),
        pair(None, Some(1)),
        pair(Some(1), Some(2)),
        pair(None, Some(3)),
    ];
    let rhs = strings(vec!["r0", "r1", "r2", "r3"]);
    let novel_rhs = NovelSet::from_lines(vec![1, 3]);
    let out = insertion_lines(&pairs, &rhs, &novel_rhs);
    assert_eq!(out, strings(vec!["+r1", "+r3"]));
}

#[test]
fn insertions_emit_nothing_when_no_right_line_is_novel() {
    let pairs = vec![pair(Some(0), Some(0)), pair(Some(1), Some(1))];
    let rhs = strings(vec!["r0", "r1"]);
    let novel_rhs = NovelSet::from_lines(vec![]);
    assert_eq!(insertion_lines(&pairs, &rhs, &novel_rhs), Vec::<String>::new());
}

#[test]
fn trailing_lines_start_at_the_first_novel_left_line() {
    // Lines before the first novel one are never emitted; from it to the
    // end every left line comes out, marked by its own novelty.
    let pairs = vec![
        pair(Some(0), Some(0)),
        pair(Some(1), Some(1)),
        pair(Some(2), Some(2)),
    ];
    let lhs = strings(vec!["a", "b", "c"]);
    let novel_lhs = NovelSet::from_lines(vec![1]);
    let out = trailing_lines(&pairs, &lhs, &novel_lhs);
    assert_eq!(out, strings(vec!["+b", " c"]));
}

#[test]
fn trailing_lines_emit_nothing_when_no_left_line_is_novel() {
    let pairs = vec![pair(Some(0), Some(0)), pair(Some(1), Some(1))];
    let lhs = strings(vec!["a", "b"]);
    let novel_lhs = NovelSet::from_lines(vec![]);
    assert_eq!(trailing_lines(&pairs, &lhs, &novel_lhs), Vec::<String>::new());
}

#[test]
fn end_to_end_hunk_body() {
    // Left lines a, b, c against right lines a, b2, c, aligned pairwise,
    // with line 1 novel on both sides.
    let hunk = Hunk {
        lhs_range: "1,3".to_string(),
        rhs_range: "1,3".to_string(),
        pairs: vec![
            pair(Some(0), Some(0)),
            pair(Some(1), Some(1)),
            pair(Some(2), Some(2)),
        ],
    };
    let lhs = strings(vec!["a", "b", "c"]);
    let rhs = strings(vec!["a", "b2", "c"]);
    let novel_lhs = NovelSet::from_lines(vec![1]);
    let novel_rhs = NovelSet::from_lines(vec![1]);
    let out = render_hunk(&hunk, &lhs, &rhs, &novel_lhs, &novel_rhs, false);
    assert_eq!(
        out,
        strings(vec!["@@ -1,3 +1,3 @@", " a", "+b2", "+b", " c"])
    );
}

#[test]
fn unchanged_hunk_is_full_context_only() {
    let hunk = Hunk {
        lhs_range: "1,2".to_string(),
        rhs_range: "1,2".to_string(),
        pairs: vec![pair(Some(0), Some(0)), pair(Some(1), Some(1))],
    };
    let lhs = strings(vec!["same", "text"]);
    let rhs = strings(vec!["same", "text"]);
    let novel = NovelSet::from_lines(vec![]);
    let out = render_hunk(&hunk, &lhs, &rhs, &novel, &novel, false);
    assert_eq!(out, strings(vec!["@@ -1,2 +1,2 @@", " same", " text"]));
}

#[test]
fn every_body_line_starts_with_space_or_plus() {
    let hunk = Hunk {
        lhs_range: "1,3".to_string(),
        rhs_range: "1,3".to_string(),
        pairs: vec![
            pair(Some(0), Some(0)),
            pair(None, Some(1)),
            pair(Some(1), None),
            pair(Some(2), Some(2)),
        ],
    };
    let lhs = strings(vec!["a", "b", "c"]);
    let rhs = strings(vec!["a", "x", "c"]);
    let novel_lhs = NovelSet::from_lines(vec![1]);
    let novel_rhs = NovelSet::from_lines(vec![1]);
    let out = render_hunk(&hunk, &lhs, &rhs, &novel_lhs, &novel_rhs, false);
    for line in out.iter().skip(1) {
        let first = line.chars().next().unwrap();
        assert!(first == ' ' || first == '+', "bad prefix in {:?}", line);
    }
}

#[test]
fn render_emits_header_then_each_hunk_in_order() {
    let hunks = vec![
        Hunk {
            lhs_range: "1,1".to_string(),
            rhs_range: "1,1".to_string(),
            pairs: vec![pair(Some(0), Some(0))],
        },
        Hunk {
            lhs_range: "2,1".to_string(),
            rhs_range: "2,1".to_string(),
            pairs: vec![pair(Some(1), Some(1))],
        },
    ];
    let lhs = strings(vec!["one", "two"]);
    let rhs = strings(vec!["one", "two"]);
    let novel = NovelSet::from_lines(vec![]);
    let out = render(&hunks, "l.txt", "r.txt", &lhs, &rhs, &novel, &novel, false);
    assert_eq!(
        out,
        strings(vec![
            "--- l.txt",
            "+++ r.txt",
            "@@ -1,1 +1,1 @@",
            " one",
            "@@ -2,1 +2,1 @@",
            " two",
        ])
    );
}

#[test]
fn novel_set_membership() {
    let set = NovelSet::from_lines(vec![2, 5]);
    assert!(set.contains(2));
    assert!(set.contains(5));
    assert!(!set.contains(0));
    assert!(!set.contains(4));
}

#[test]
fn range_check_accepts_valid_hunks() {
    let hunks = vec![Hunk {
        lhs_range: "1,1".to_string(),
        rhs_range: "1,1".to_string(),
        pairs: vec![pair(Some(0), Some(1))],
    }];
    assert!(check_hunks_in_range(&hunks, 1, 2));
}

#[test]
fn range_check_rejects_out_of_range_line_numbers() {
    let hunks = vec![Hunk {
        lhs_range: "1,1".to_string(),
        rhs_range: "1,1".to_string(),
        pairs: vec![pair(Some(3), None)],
    }];
    assert!(!check_hunks_in_range(&hunks, 3, 5));
    let hunks = vec![Hunk {
        lhs_range: "1,1".to_string(),
        rhs_range: "1,1".to_string(),
        pairs: vec![pair(None, Some(5))],
    }];
    assert!(!check_hunks_in_range(&hunks, 3, 5));
}
