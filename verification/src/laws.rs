//! What holds of every scan.

use crate::error::{report_views, ErrorReport, ErrorReportView};
use crate::grammar::{
    comment_end, continues_word, digits_end, end_token, is_decimal_digit,
    lemma_comment_end_bounds, lemma_digits_end_bounds, lemma_line_end_bounds,
    lemma_step_advances, lemma_word_end_bounds, lex, lex_from, line_end, optional, pair_at,
    span_of, starts_word, step, word_end, Base, Lexed,
};
use crate::lexer::Lexer;
use crate::span::SpanView;
use crate::text::is_white_space;
use crate::token::{token_views, TokenKind, TokenView};
use vstd::prelude::*;

verus! {

/// Whether `s` holds nothing but white space and comments from `i` on. A
/// line comment runs from `//` to the end of its line; a block comment runs
/// from `/*` to the `*/` that closes it, with the block comments nested in
/// it, and must be closed.
pub open spec fn is_blank_from(s: Seq<char>, i: int) -> bool
    decreases s.len() - i,
{
    if !(0 <= i < s.len()) {
        true
    } else if is_white_space(s[i]) {
        is_blank_from(s, i + 1)
    } else if pair_at(s, i, '/', '/') {
        proof {
            lemma_line_end_bounds(s, i + 2);
        }
        is_blank_from(s, line_end(s, i + 2))
    } else if pair_at(s, i, '/', '*') {
        proof {
            lemma_comment_end_bounds(s, i + 2, 1);
        }
        match comment_end(s, i + 2, 1) {
            Some(end) => is_blank_from(s, end),
            None => false,
        }
    } else {
        false
    }
}

/// Whether `s` is a word: a letter or `_`, and after it letters, digits and
/// `_` only.
pub open spec fn is_word(s: Seq<char>) -> bool {
    &&& s.len() > 0
    &&& starts_word(s[0])
    &&& forall|j: int| 0 <= j < s.len() ==> continues_word(#[trigger] s[j])
}

/// From a place after which only white space and comments follow, the scan
/// yields the end token and nothing else.
proof fn lemma_blank_rest_yields_end_token(s: Seq<char>, name: Seq<char>, i: int)
    requires
        0 <= i <= s.len(),
        is_blank_from(s, i),
    ensures
        lex_from(s, name, i).tokens == seq![end_token(s, name)],
        lex_from(s, name, i).reports == Seq::<ErrorReportView>::empty(),
    decreases s.len() - i,
{
    if i < s.len() {
        lemma_step_advances(s, name, i);
        let here = step(s, name, i);
        assert(here.token is None && here.report is None && is_blank_from(s, here.next)) by {
            if is_white_space(s[i]) {
            } else if pair_at(s, i, '/', '/') {
                assert(line_end(s, i) == line_end(s, i + 1));
                assert(line_end(s, i + 1) == line_end(s, i + 2));
            } else {
                assert(pair_at(s, i, '/', '*'));
            }
        }
        lemma_blank_rest_yields_end_token(s, name, here.next);
        let rest = lex_from(s, name, here.next);
        assert(optional(here.token) + rest.tokens =~= rest.tokens);
        assert(optional(here.report) + rest.reports =~= rest.reports);
    }
}

/// A text of white space and comments alone yields the end token and
/// nothing else, and no diagnostic, so that its scan does not fail.
pub proof fn lemma_blank_text_yields_end_token(s: Seq<char>, name: Seq<char>)
    requires
        is_blank_from(s, 0),
    ensures
        lex(s, name).tokens == seq![end_token(s, name)],
        lex(s, name).reports == Seq::<ErrorReportView>::empty(),
        !failed_by(lex(s, name)),
{
    lemma_blank_rest_yields_end_token(s, name, 0);
}

/// A word ends where the text ends if nothing but characters of words
/// follows.
proof fn lemma_word_runs_to_end(s: Seq<char>, i: int)
    requires
        0 <= i <= s.len(),
        forall|j: int| i <= j < s.len() ==> continues_word(#[trigger] s[j]),
    ensures
        word_end(s, i) == s.len(),
    decreases s.len() - i,
{
    if i < s.len() {
        lemma_word_runs_to_end(s, i + 1);
    }
}

/// A text that is one word and no keyword yields one `Identifier` token
/// whose text is the word, then the end token, and no diagnostic.
pub proof fn lemma_word_yields_identifier(s: Seq<char>, name: Seq<char>)
    requires
        is_word(s),
        s != "let"@,
    ensures
        lex(s, name).tokens == seq![
            TokenView::new(TokenKind::Identifier, span_of(name, 0, s.len() - 1), s),
            end_token(s, name),
        ],
        lex(s, name).reports == Seq::<ErrorReportView>::empty(),
{
    lemma_word_runs_to_end(s, 0);
    assert(s.subrange(0, s.len() as int) =~= s);
    let here = step(s, name, 0);
    let rest = lex_from(s, name, s.len() as int);
    assert(here.next == s.len());
    assert(optional(here.token) + rest.tokens =~= seq![here.token->0, end_token(s, name)]);
    assert(optional(here.report) + rest.reports =~= Seq::<ErrorReportView>::empty());
}

/// Every token sequence ends in the end token, and holds no other token of
/// kind `EOF`.
pub proof fn lemma_tokens_end_in_one_end_token(s: Seq<char>, name: Seq<char>, i: int)
    requires
        0 <= i <= s.len(),
    ensures
        lex_from(s, name, i).tokens.len() >= 1,
        lex_from(s, name, i).tokens.last() == end_token(s, name),
        forall|k: int|
            0 <= k < lex_from(s, name, i).tokens.len() - 1 ==> (#[trigger] lex_from(
                s,
                name,
                i,
            ).tokens[k]).kind != TokenKind::EOF,
    decreases s.len() - i,
{
    if i < s.len() {
        lemma_step_advances(s, name, i);
        let here = step(s, name, i);
        lemma_tokens_end_in_one_end_token(s, name, here.next);
        let rest = lex_from(s, name, here.next);
        let all = lex_from(s, name, i).tokens;
        assert(all == optional(here.token) + rest.tokens);
        assert(here.token matches Some(t) ==> t.kind != TokenKind::EOF);
        assert forall|k: int| 0 <= k < all.len() - 1 implies (#[trigger] all[k]).kind
            != TokenKind::EOF by {
            if here.token is Some {
                if k > 0 {
                    assert(all[k] == rest.tokens[k - 1]);
                }
            } else {
                assert(all[k] == rest.tokens[k]);
            }
        }
    }
}

/// The diagnostics of a scan tell whether it failed.
pub open spec fn failed_by(lexed: Lexed) -> bool {
    lexed.reports.len() > 0
}

/// Scanning can be repeated: two fresh scanners of the same text under the
/// same name, each scanning into a sequence that held the same diagnostics
/// before, end with the same tokens, the same diagnostics and the same
/// verdict.
pub proof fn lemma_scanning_is_repeatable(
    first: Lexer,
    first_done: Lexer,
    first_reports: Seq<ErrorReport>,
    first_reports_done: Seq<ErrorReport>,
    second: Lexer,
    second_done: Lexer,
    second_reports: Seq<ErrorReport>,
    second_reports_done: Seq<ErrorReport>,
)
    requires
        first.is_fresh(),
        second.is_fresh(),
        first.same_input(second),
        report_views(first_reports) == report_views(second_reports),
        first_done.scanned_from(first, first_reports_done, first_reports),
        second_done.scanned_from(second, second_reports_done, second_reports),
    ensures
        token_views(first_done.emitted()) == token_views(second_done.emitted()),
        token_views(first_done.emitted()) == lex(first.text(), first.name()).tokens,
        report_views(first_reports_done) == report_views(second_reports_done),
        first_done.failed() == second_done.failed(),
        first_done.failed() == failed_by(lex(first.text(), first.name())),
{
    assert(token_views(first.emitted()) =~= Seq::<TokenView>::empty());
    assert(token_views(second.emitted()) =~= Seq::<TokenView>::empty());
    let whole = lex(first.text(), first.name());
    assert(token_views(first.emitted()) + whole.tokens =~= whole.tokens);
    assert(token_views(second.emitted()) + whole.tokens =~= whole.tokens);
}

/// Whether `span` is a stretch of the text `s` in the source called `name`:
/// it does not end before it starts nor after the text.
pub open spec fn lies_within(span: SpanView, s: Seq<char>, name: Seq<char>) -> bool {
    span.start <= span.end <= s.len() && span.source == name
}

/// Whether `report` and its labels point into the text `s` in the source
/// called `name`.
pub open spec fn points_into(report: ErrorReportView, s: Seq<char>, name: Seq<char>) -> bool {
    &&& lies_within(report.span, s, name)
    &&& forall|k: int|
        0 <= k < report.labels.len() ==> lies_within((#[trigger] report.labels[k]).span, s, name)
    &&& report.debug_labels.len() == 0
}

/// What one step produces points into the text.
proof fn lemma_step_points_into_text(s: Seq<char>, name: Seq<char>, i: int)
    requires
        0 <= i < s.len(),
    ensures
        step(s, name, i).token matches Some(token) ==> lies_within(token.span, s, name),
        step(s, name, i).report matches Some(report) ==> points_into(report, s, name),
{
    let c = s[i];
    lemma_word_end_bounds(s, i + 1);
    lemma_digits_end_bounds(s, Base::Dec, i + 1);
    if i + 2 <= s.len() {
        lemma_digits_end_bounds(s, Base::Bin, i + 2);
        lemma_digits_end_bounds(s, Base::Oct, i + 2);
        lemma_digits_end_bounds(s, Base::Hex, i + 2);
    }
    let end = digits_end(s, Base::Dec, i);
    if is_decimal_digit(c) && end < s.len() {
        lemma_digits_end_bounds(s, Base::Dec, end + 1);
    }
}

/// Every span of a scan is a stretch of the text: that of every token, of
/// every diagnostic and of every label lies within the text, in the source
/// that was scanned, and does not end before it starts.
pub proof fn lemma_spans_lie_within_text(s: Seq<char>, name: Seq<char>, i: int)
    requires
        0 <= i <= s.len(),
    ensures
        forall|k: int|
            0 <= k < lex_from(s, name, i).tokens.len() ==> lies_within(
                (#[trigger] lex_from(s, name, i).tokens[k]).span,
                s,
                name,
            ),
        forall|k: int|
            0 <= k < lex_from(s, name, i).reports.len() ==> points_into(
                #[trigger] lex_from(s, name, i).reports[k],
                s,
                name,
            ),
    decreases s.len() - i,
{
    if i < s.len() {
        lemma_step_advances(s, name, i);
        lemma_step_points_into_text(s, name, i);
        let here = step(s, name, i);
        lemma_spans_lie_within_text(s, name, here.next);
        let rest = lex_from(s, name, here.next);
        let all = lex_from(s, name, i);
        assert(all.tokens == optional(here.token) + rest.tokens);
        assert(all.reports == optional(here.report) + rest.reports);
        assert forall|k: int| 0 <= k < all.tokens.len() implies lies_within(
            (#[trigger] all.tokens[k]).span,
            s,
            name,
        ) by {
            if here.token is Some {
                if k > 0 {
                    assert(all.tokens[k] == rest.tokens[k - 1]);
                }
            } else {
                assert(all.tokens[k] == rest.tokens[k]);
            }
        }
        assert forall|k: int| 0 <= k < all.reports.len() implies points_into(
            #[trigger] all.reports[k],
            s,
            name,
        ) by {
            if here.report is Some {
                if k > 0 {
                    assert(all.reports[k] == rest.reports[k - 1]);
                }
            } else {
                assert(all.reports[k] == rest.reports[k]);
            }
        }
    }
}

} // verus!
