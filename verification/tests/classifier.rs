use sloc::classify::count_lines;
use sloc::lang::{lookup, CommentSyntax, Language};

fn lines(xs: &[&str]) -> Vec<Vec<u8>> {
    xs.iter().map(|s| s.as_bytes().to_vec()).collect()
}

fn count(xs: &[&str], ext: &str, include_empty: bool, include_comments: bool) -> usize {
    let lang = lookup(ext.as_bytes());
    count_lines(&lines(xs), lang.as_ref(), include_empty, include_comments)
}

#[test]
fn hash_full_comment_counts_one() {
    assert_eq!(count(&["# full comment", "x = 1"], "py", false, false), 1);
}

#[test]
fn block_comment_spanning_lines() {
    let input = ["code();", "/* comment", "more comment */", "more_code();"];
    assert_eq!(count(&input, "rs", false, false), 2);
}

#[test]
fn closing_line_with_trailing_text_counts() {
    let input = ["code();", "/* comment", "more comment */ tail", "more_code();"];
    assert_eq!(count(&input, "rs", false, false), 3);
}

#[test]
fn block_opening_midline_counts_opening_line() {
    assert_eq!(count(&["x = 1; /* note", "end note */"], "rs", false, false), 1);
}

#[test]
fn block_opening_at_line_start_does_not_count() {
    assert_eq!(count(&["/* note", "end note */", "x = 1;"], "rs", false, false), 1);
}

#[test]
fn blank_lines_excluded_before_comment_analysis() {
    let input = ["", "   ", "\t", "x = 1"];
    assert_eq!(count(&input, "py", false, false), 1);
    assert_eq!(count(&input, "xyz", false, false), 1);
    assert_eq!(count(&input, "py", false, true), 1);
}

#[test]
fn blank_lines_included_when_asked() {
    let input = ["", "   ", "x = 1"];
    assert_eq!(count(&input, "py", true, false), 3);
    assert_eq!(count(&input, "xyz", true, true), 3);
}

#[test]
fn unknown_extension_counts_raw() {
    let input = ["# looks like a comment", "/* this too", "x = 1"];
    assert!(lookup(b"xyz").is_none());
    assert_eq!(count(&input, "xyz", false, false), 3);
    assert_eq!(count(&input, "xyz", false, true), 3);
}

#[test]
fn known_language_with_comments_included_counts_raw() {
    let input = ["// c", "/* a", "*/", "x = 1;"];
    assert_eq!(count(&input, "rs", false, true), 4);
}

#[test]
fn unclosed_block_consumes_rest_without_counting() {
    assert_eq!(count(&["/* open", "a", "b"], "rs", false, false), 0);
    assert_eq!(count(&["x(); /* open", "a", "b"], "rs", false, false), 1);
}

#[test]
fn one_line_block_at_start_opens_block() {
    // The open marker is at position 0 and no close marker precedes it, so
    // the rule fires, the line is skipped, and the scan consumes following
    // lines until another close marker.
    assert_eq!(count(&["/* x */", "y"], "rs", false, false), 0);
    assert_eq!(count(&["/* x */", "y */", "z"], "rs", false, false), 1);
}

#[test]
fn close_marker_before_open_marker_does_not_fire() {
    assert_eq!(count(&["*/ x /*"], "rs", false, false), 1);
}

#[test]
fn line_prefix_applies_after_trimming() {
    assert_eq!(count(&["   // indented comment", "x = 1;"], "rs", false, false), 1);
}

#[test]
fn counting_twice_gives_the_same_result() {
    let input = ["code();", "/* comment", "more comment */", "more_code();", "", "// c"];
    let a = count(&input, "rs", false, false);
    let b = count(&input, "rs", false, false);
    assert_eq!(a, b);
}

#[test]
fn empty_input_counts_zero() {
    assert_eq!(count(&[], "rs", false, false), 0);
    assert_eq!(count(&[], "xyz", true, true), 0);
}

#[test]
fn blank_line_inside_block_is_consumed() {
    let input = ["/* a", "", "*/ x", "y"];
    assert_eq!(count(&input, "rs", true, false), 2);
    assert_eq!(count(&input, "rs", false, false), 2);
}

#[test]
fn blank_lines_count_as_code_when_included() {
    let input = ["# c", "", "x = 1"];
    assert_eq!(count(&input, "py", true, false), 2);
}

#[test]
fn php_has_two_line_markers_and_a_block() {
    let input = ["# c", "// c", "/* a", "b */", "$x = 1;"];
    assert_eq!(count(&input, "php", false, false), 1);
}

#[test]
fn ruby_block_comment() {
    let input = ["=begin", "doc", "=end", "x = 1"];
    assert_eq!(count(&input, "rb", false, false), 1);
}

#[test]
fn batch_line_markers() {
    let input = ["Rem hello", ":: note", "echo hi"];
    assert_eq!(count(&input, "bat", false, false), 1);
}

#[test]
fn matlab_block_comment() {
    // A block opening at line start is shadowed by the `%` line marker, so
    // only a block that opens mid-line hides the following lines.
    let input = ["% c", "%{", "inside", "}%", "x = 1"];
    assert_eq!(count(&input, "m", false, false), 3);
    let midline = ["x = 1; %{", "inside", "}%", "y = 2"];
    assert_eq!(count(&midline, "m", false, false), 2);
}

#[test]
fn scheme_block_comment() {
    let input = ["; c", "#|", "inside", "|#", "(define x 1)"];
    assert_eq!(count(&input, "ss", false, false), 1);
}

#[test]
fn typescript_only_doc_blocks_are_comments() {
    let input = ["// not a comment here", "/** doc", "x */", "const a = 1;"];
    assert_eq!(count(&input, "ts", false, false), 2);
}

#[test]
fn haskell_block_comment() {
    let input = ["-- c", "{- a", "b -}", "x = 1"];
    assert_eq!(count(&input, "hs", false, false), 1);
}

#[test]
fn custom_language_uses_its_rules() {
    let lang = Language::new("Custom", vec![CommentSyntax::LineStart("!!")]);
    let input = ["!! note", "work"];
    assert_eq!(count_lines(&lines(&input), Some(&lang), false, false), 1);
}

#[test]
fn language_without_rules_counts_raw() {
    let lang = Language::new("Bare", Vec::new());
    let input = ["# not a comment here", "", "x = 1"];
    assert_eq!(count_lines(&lines(&input), Some(&lang), false, false), 2);
    assert_eq!(count_lines(&lines(&input), Some(&lang), true, false), 3);
}

#[test]
fn html_block_comment() {
    let input = ["<!-- hidden", "still hidden -->", "<p>hi</p>"];
    assert_eq!(count(&input, "html", false, false), 1);
}
