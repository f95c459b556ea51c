//! The line classifier: a single forward pass that decides, for every
//! physical line of one file, whether it counts as a significant line.
//!
//! Lines are trimmed first; blank lines are dropped before any comment
//! analysis when blanks are excluded. When comments are counted, or the
//! language is unknown, every kept line counts. Otherwise the pass keeps one
//! piece of state: whether it is inside a block comment and, if so, which
//! close marker it is looking for.

use vstd::prelude::*;
use vstd::string::StringSliceAdditionalSpecFns;

use crate::bytes::{find_in, find_pat, match_at, starts_with_pat, trim, trimmed};
use crate::lang::{CommentSyntax, Language, LanguageModel, RuleModel};

verus! {

/// What the classifier decides about one line seen outside a block comment.
#[verifier::ext_equal]
pub enum ActionModel {
    /// No rule matched: the line counts as code.
    Code,
    /// A line-prefix marker matched: the whole line is a comment.
    CommentLine,
    /// A block rule fired: a block comment opens here. `code_before` says
    /// whether the open marker starts past the beginning of the line, in
    /// which case the opening line itself counts; `close` is the marker that
    /// ends the block.
    OpenBlock { code_before: bool, close: Seq<u8> },
}

/// The one piece of state carried from line to line: scanning normally, or
/// inside a block comment looking for its close marker.
#[verifier::ext_equal]
pub enum ModeModel {
    Normal,
    InBlock { close: Seq<u8> },
}

/// Some line-prefix rule marks the whole (trimmed) line as a comment.
pub open spec fn is_comment_line(line: Seq<u8>, rules: Seq<RuleModel>) -> bool {
    exists|k: int|
        0 <= k < rules.len() && ((#[trigger] rules[k]) matches RuleModel::LineStart(m)
            && match_at(line, m, 0))
}

/// A block rule fires on a line when its open marker occurs and no close
/// marker occurs strictly before the open marker.
pub open spec fn range_fires(line: Seq<u8>, open_m: Seq<u8>, close_m: Seq<u8>) -> bool {
    find_in(line, open_m) matches Some(i) && (find_in(line, close_m) matches Some(j) ==> j >= i)
}

/// The first block rule at or after position `k` that fires on `line`:
/// whether code precedes its open marker, and its close marker.
pub open spec fn block_open_from(line: Seq<u8>, rules: Seq<RuleModel>, k: int) -> Option<
    (bool, Seq<u8>),
>
    decreases rules.len() - k,
{
    if k < 0 || k >= rules.len() {
        None
    } else {
        match rules[k] {
            RuleModel::LineStart(_) => block_open_from(line, rules, k + 1),
            RuleModel::Range(o, c) => if range_fires(line, o, c) {
                Some((find_in(line, o)->Some_0 > 0, c))
            } else {
                block_open_from(line, rules, k + 1)
            },
        }
    }
}

/// How one trimmed line is classified outside a block comment: the
/// line-prefix rules are tried first, then the block rules, each category in
/// listed order; if nothing matches, the line is code.
pub open spec fn line_action(line: Seq<u8>, rules: Seq<RuleModel>) -> ActionModel {
    if is_comment_line(line, rules) {
        ActionModel::CommentLine
    } else {
        match block_open_from(line, rules, 0) {
            Some((code_before, close)) => ActionModel::OpenBlock { code_before, close },
            None => ActionModel::Code,
        }
    }
}

/// The number of significant lines among `lines[i..]`, starting in `mode`.
///
/// Outside a block, a line counts unless a rule marks it as comment; a line
/// that opens a block counts exactly when code precedes the open marker.
/// Inside a block, lines are consumed without counting until one holds the
/// close marker; that closing line is excluded only when the close marker
/// ends exactly at the end of the line, and is otherwise counted as code
/// without being re-examined.
pub open spec fn count_from(lines: Seq<Seq<u8>>, rules: Seq<RuleModel>, i: int, mode: ModeModel) -> nat
    decreases lines.len() - i,
{
    if i < 0 || i >= lines.len() {
        0
    } else {
        match mode {
            ModeModel::Normal => match line_action(lines[i], rules) {
                ActionModel::Code => 1 + count_from(lines, rules, i + 1, ModeModel::Normal),
                ActionModel::CommentLine => count_from(lines, rules, i + 1, ModeModel::Normal),
                ActionModel::OpenBlock { code_before, close } => (if code_before {
                    1nat
                } else {
                    0nat
                }) + count_from(lines, rules, i + 1, ModeModel::InBlock { close }),
            },
            ModeModel::InBlock { close } => match find_in(lines[i], close) {
                Some(j) => (if j + close.len() == lines[i].len() {
                    0nat
                } else {
                    1nat
                }) + count_from(lines, rules, i + 1, ModeModel::Normal),
                None => count_from(lines, rules, i + 1, mode),
            },
        }
    }
}

/// The lines that reach counting: each line trimmed, and, unless blanks are
/// included, lines that are empty after trimming dropped.
pub open spec fn kept_lines(lines: Seq<Seq<u8>>, include_empty: bool) -> Seq<Seq<u8>>
    decreases lines.len(),
{
    if lines.len() == 0 {
        Seq::empty()
    } else {
        let rest = kept_lines(lines.drop_last(), include_empty);
        let t = trimmed(lines.last());
        if include_empty || t.len() > 0 {
            rest.push(t)
        } else {
            rest
        }
    }
}

/// The count the classifier owes: the kept lines are counted raw when
/// comments are included or the language is unknown, and through the comment
/// state machine otherwise.
pub open spec fn counted_lines(
    lines: Seq<Seq<u8>>,
    lang: Option<LanguageModel>,
    include_empty: bool,
    include_comments: bool,
) -> nat {
    let kept = kept_lines(lines, include_empty);
    if include_comments || lang is None {
        kept.len()
    } else {
        count_from(kept, lang->Some_0.rules, 0, ModeModel::Normal)
    }
}

/// What the classifier decided about one line, as executable data: the
/// counterpart of `ActionModel` with the close marker as a string.
pub enum ScanAction {
    Code,
    CommentLine,
    OpenBlock { code_before: bool, close: &'static str },
}

impl View for ScanAction {
    type V = ActionModel;

    open spec fn view(&self) -> ActionModel {
        match *self {
            ScanAction::Code => ActionModel::Code,
            ScanAction::CommentLine => ActionModel::CommentLine,
            ScanAction::OpenBlock { code_before, close } => ActionModel::OpenBlock {
                code_before,
                close: close.spec_bytes(),
            },
        }
    }
}

/// Classifies one already-trimmed line against the comment rules, exactly as
/// `line_action` describes.
pub fn classify_line(line: &[u8], rules: &Vec<CommentSyntax>) -> (a: ScanAction)
    ensures
        a@ == line_action(line@, rules.deep_view()),
{
    let ghost rv = rules.deep_view();
    let n = rules.len();
    let mut k: usize = 0;
    while k < n
        invariant
            n == rules@.len(),
            rv == rules.deep_view(),
            k <= n,
            forall|t: int|
                0 <= t < k ==> !((#[trigger] rv[t]) matches RuleModel::LineStart(m) && match_at(
                    line@,
                    m,
                    0,
                )),
        decreases n - k,
    {
        match rules[k] {
            CommentSyntax::LineStart(m) => {
                if starts_with_pat(line, m.as_bytes()) {
                    proof {
                        assert(rv[k as int] matches RuleModel::LineStart(mm) && match_at(
                            line@,
                            mm,
                            0,
                        ));
                    }
                    return ScanAction::CommentLine;
                }
            },
            CommentSyntax::Range(_, _) => {},
        }
        k = k + 1;
    }
    proof {
        assert(!is_comment_line(line@, rv));
    }
    let mut k: usize = 0;
    while k < n
        invariant
            n == rules@.len(),
            rv == rules.deep_view(),
            k <= n,
            !is_comment_line(line@, rv),
            block_open_from(line@, rv, 0) == block_open_from(line@, rv, k as int),
        decreases n - k,
    {
        match rules[k] {
            CommentSyntax::LineStart(_) => {},
            CommentSyntax::Range(o, c) => {
                match find_pat(line, o.as_bytes()) {
                    Some(i) => {
                        let fires = match find_pat(line, c.as_bytes()) {
                            None => true,
                            Some(j) => j >= i,
                        };
                        if fires {
                            proof {
                                assert(range_fires(line@, o.spec_bytes(), c.spec_bytes()));
                                assert(block_open_from(line@, rv, k as int) == Some(
                                    (i as int > 0, c.spec_bytes()),
                                ));
                            }
                            return ScanAction::OpenBlock { code_before: i > 0, close: c };
                        }
                    },
                    None => {},
                }
            },
        }
        proof {
            assert(block_open_from(line@, rv, k as int) == block_open_from(line@, rv, k + 1));
        }
        k = k + 1;
    }
    ScanAction::Code
}

/// The scanning state as the executable pass carries it: the close marker
/// being searched for, when inside a block comment.
pub open spec fn mode_view(pending: Option<&'static str>) -> ModeModel {
    match pending {
        None => ModeModel::Normal,
        Some(c) => ModeModel::InBlock { close: c.spec_bytes() },
    }
}

/// The language the classifier was given, if any, as a model.
pub open spec fn lang_view(language: Option<&Language>) -> Option<LanguageModel> {
    match language {
        Some(l) => Some(l@),
        None => None,
    }
}

/// Counts the significant lines of one file, given its physical lines, the
/// language looked up from its extension (or `None` for an unknown one), and
/// whether blank lines and comment lines are to be counted.
pub fn count_lines(
    lines: &Vec<Vec<u8>>,
    language: Option<&Language>,
    include_empty: bool,
    include_comments: bool,
) -> (n: usize)
    ensures
        n == counted_lines(lines.deep_view(), lang_view(language), include_empty, include_comments),
{
    let ghost lv = lines.deep_view();
    let mut kept: Vec<Vec<u8>> = Vec::new();
    let mut idx: usize = 0;
    while idx < lines.len()
        invariant
            lv == lines.deep_view(),
            idx <= lines@.len(),
            kept.deep_view() == kept_lines(lv.take(idx as int), include_empty),
        decreases lines@.len() - idx,
    {
        let ghost kept0 = kept.deep_view();
        proof {
            assert(lv[idx as int] == lines@[idx as int]@);
        }
        let t = trim(lines[idx].as_slice());
        if include_empty || t.len() > 0 {
            kept.push(t);
        }
        proof {
            assert(lv.take(idx + 1).drop_last() =~= lv.take(idx as int));
            assert(lv.take(idx + 1).last() == lv[idx as int]);
            if include_empty || trimmed(lv[idx as int]).len() > 0 {
                assert(kept.deep_view() =~~= kept0.push(trimmed(lv[idx as int])));
            }
        }
        idx = idx + 1;
    }
    proof {
        assert(lv.take(lines@.len() as int) =~= lv);
    }
    let lang = match language {
        None => {
            return kept.len();
        },
        Some(lang) => lang,
    };
    if include_comments {
        return kept.len();
    }
    let ghost keptv = kept.deep_view();
    let ghost rv = lang.comments.deep_view();
    let kept_n = kept.len();
    let mut n: usize = 0;
    let mut pending: Option<&'static str> = None;
    let mut i: usize = 0;
    while i < kept_n
        invariant
            kept_n == kept@.len(),
            keptv == kept.deep_view(),
            rv == lang.comments.deep_view(),
            i <= kept_n,
            n <= i,
            n + count_from(keptv, rv, i as int, mode_view(pending)) == count_from(
                keptv,
                rv,
                0,
                ModeModel::Normal,
            ),
        decreases kept_n - i,
    {
        proof {
            assert(kept@[i as int]@ == keptv[i as int]);
        }
        match pending {
            None => {
                let act = classify_line(kept[i].as_slice(), &lang.comments);
                match act {
                    ScanAction::Code => {
                        n = n + 1;
                    },
                    ScanAction::CommentLine => {},
                    ScanAction::OpenBlock { code_before, close } => {
                        if code_before {
                            n = n + 1;
                        }
                        pending = Some(close);
                    },
                }
            },
            Some(c) => {
                let llen = kept[i].len();
                match find_pat(kept[i].as_slice(), c.as_bytes()) {
                    Some(j) => {
                        proof {
                            crate::bytes::lemma_find_at_props(keptv[i as int], c.spec_bytes(), 0);
                            assert(match_at(keptv[i as int], c.spec_bytes(), j as int));
                            assert(j + c.spec_bytes().len() <= llen);
                        }
                        if !(j + c.len() == llen) {
                            n = n + 1;
                        }
                        pending = None;
                    },
                    None => {},
                }
            },
        }
        i = i + 1;
    }
    n
}

/// With comments included in the count, classification degenerates to raw
/// counting: the result is exactly the number of kept (optionally non-blank)
/// lines, whatever the language.
pub proof fn lemma_comments_included_is_raw(
    lines: Seq<Seq<u8>>,
    lang: Option<LanguageModel>,
    include_empty: bool,
)
    ensures
        counted_lines(lines, lang, include_empty, true) == kept_lines(lines, include_empty).len(),
{
}

proof fn lemma_no_rules_counts_all_from(ls: Seq<Seq<u8>>, i: int)
    requires
        0 <= i <= ls.len(),
    ensures
        count_from(ls, Seq::empty(), i, ModeModel::Normal) == ls.len() - i,
    decreases ls.len() - i,
{
    if i < ls.len() {
        assert(!is_comment_line(ls[i], Seq::empty()));
        assert(block_open_from(ls[i], Seq::empty(), 0) is None);
        assert(line_action(ls[i], Seq::empty()) == ActionModel::Code);
        lemma_no_rules_counts_all_from(ls, i + 1);
    }
}

/// A language without any comment rule is counted raw even when comments are
/// excluded: no line ever matches, so every kept line counts.
pub proof fn lemma_no_rules_is_raw(
    lines: Seq<Seq<u8>>,
    name: Seq<char>,
    include_empty: bool,
)
    ensures
        counted_lines(
            lines,
            Some(LanguageModel { name, rules: Seq::empty() }),
            include_empty,
            false,
        ) == kept_lines(lines, include_empty).len(),
{
    lemma_no_rules_counts_all_from(kept_lines(lines, include_empty), 0);
}

/// Counting is a pure function of the lines, the language and the two flags:
/// equal inputs always give equal counts, so counting the same file twice
/// yields the same result.
pub proof fn lemma_count_deterministic(
    lines1: Seq<Seq<u8>>,
    lines2: Seq<Seq<u8>>,
    lang1: Option<LanguageModel>,
    lang2: Option<LanguageModel>,
    include_empty: bool,
    include_comments: bool,
)
    requires
        lines1 == lines2,
        lang1 == lang2,
    ensures
        counted_lines(lines1, lang1, include_empty, include_comments) == counted_lines(
            lines2,
            lang2,
            include_empty,
            include_comments,
        ),
{
}

proof fn lemma_kept_insert_blank(lines: Seq<Seq<u8>>, k: int, blank: Seq<u8>)
    requires
        0 <= k <= lines.len(),
        trimmed(blank).len() == 0,
    ensures
        kept_lines(lines.insert(k, blank), false) == kept_lines(lines, false),
    decreases lines.len(),
{
    let ins = lines.insert(k, blank);
    if k == lines.len() {
        assert(ins.drop_last() =~= lines);
        assert(ins.last() == blank);
    } else {
        assert(ins.last() == lines.last());
        assert(ins.drop_last() =~= lines.drop_last().insert(k, blank));
        lemma_kept_insert_blank(lines.drop_last(), k, blank);
    }
}

/// With blank lines excluded, a line that is empty after trimming is dropped
/// before comment analysis ever runs: inserting such a line anywhere leaves
/// the count unchanged, for every language (known or not) and either comment
/// flag.
pub proof fn lemma_blank_line_invisible(
    lines: Seq<Seq<u8>>,
    k: int,
    blank: Seq<u8>,
    lang: Option<LanguageModel>,
    include_comments: bool,
)
    requires
        0 <= k <= lines.len(),
        trimmed(blank).len() == 0,
    ensures
        counted_lines(lines.insert(k, blank), lang, false, include_comments) == counted_lines(
            lines,
            lang,
            false,
            include_comments,
        ),
{
    lemma_kept_insert_blank(lines, k, blank);
}

/// An unknown language is counted raw: the result is the number of kept
/// lines, and the comment flag has no effect on it.
pub proof fn lemma_unknown_language_is_raw(
    lines: Seq<Seq<u8>>,
    include_empty: bool,
    include_comments: bool,
)
    ensures
        counted_lines(lines, None, include_empty, include_comments) == kept_lines(
            lines,
            include_empty,
        ).len(),
        counted_lines(lines, None, include_empty, include_comments) == counted_lines(
            lines,
            None,
            include_empty,
            !include_comments,
        ),
{
}

proof fn lemma_in_block_no_close_from(
    ls: Seq<Seq<u8>>,
    rules: Seq<RuleModel>,
    i: int,
    close: Seq<u8>,
)
    requires
        0 <= i <= ls.len(),
        forall|j: int| i <= j < ls.len() ==> find_in(#[trigger] ls[j], close) is None,
    ensures
        count_from(ls, rules, i, ModeModel::InBlock { close }) == 0,
    decreases ls.len() - i,
{
    if i < ls.len() {
        lemma_in_block_no_close_from(ls, rules, i + 1, close);
    }
}

/// An unclosed block comment consumes everything to the end of the input
/// without counting it: when a line opens a block whose close marker occurs
/// on no later line, the whole tail contributes only the opening line, and
/// that only when code precedes the open marker.
pub proof fn lemma_unclosed_block(
    ls: Seq<Seq<u8>>,
    rules: Seq<RuleModel>,
    i: int,
    code_before: bool,
    close: Seq<u8>,
)
    requires
        0 <= i < ls.len(),
        line_action(ls[i], rules) == (ActionModel::OpenBlock { code_before, close }),
        forall|j: int| i < j < ls.len() ==> find_in(#[trigger] ls[j], close) is None,
    ensures
        count_from(ls, rules, i, ModeModel::Normal) == (if code_before {
            1nat
        } else {
            0nat
        }),
{
    lemma_in_block_no_close_from(ls, rules, i + 1, close);
}

} // verus!


