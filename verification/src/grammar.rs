//! What scanning a source text yields, stated as mathematics: the classes of
//! characters, where each kind of lexeme ends, what one step of the scanner
//! produces, and the tokens and diagnostics of a whole text.

use crate::error::{Color, ErrorReportKind, ErrorReportView, LabelView};
use crate::span::SpanView;
use crate::text::{char_debug, is_white_space};
use crate::token::{TokenKind, TokenView};
use vstd::prelude::*;

verus! {

/// The base of an integer literal.
#[derive(Debug, Clone, Copy, PartialEq, Eq, Structural)]
pub enum Base {
    Bin,
    Oct,
    Dec,
    Hex,
}

/// Whether `c` is one of the letters `a` to `z` and `A` to `Z`.
pub open spec fn is_letter(c: char) -> bool {
    ('a' <= c && c <= 'z') || ('A' <= c && c <= 'Z')
}

/// Whether `c` is one of the digits `0` to `9`.
pub open spec fn is_decimal_digit(c: char) -> bool {
    '0' <= c && c <= '9'
}

/// Whether `c` is a letter or a digit as above.
pub open spec fn is_alphanumeric(c: char) -> bool {
    is_letter(c) || is_decimal_digit(c)
}

/// Whether an identifier or keyword may begin with `c`.
pub open spec fn starts_word(c: char) -> bool {
    is_letter(c) || c == '_'
}

/// Whether an identifier or keyword may go on with `c`.
pub open spec fn continues_word(c: char) -> bool {
    starts_word(c) || is_decimal_digit(c)
}

/// Whether `c` is a digit of `base`. Hexadecimal digits may be written in
/// either case.
pub open spec fn is_digit_of(base: Base, c: char) -> bool {
    match base {
        Base::Bin => '0' <= c && c <= '1',
        Base::Oct => '0' <= c && c <= '7',
        Base::Dec => is_decimal_digit(c),
        Base::Hex => is_decimal_digit(c) || ('a' <= c && c <= 'f') || ('A' <= c && c <= 'F'),
    }
}

/// The name of `base` in a diagnostic.
pub open spec fn base_name(base: Base) -> Seq<char> {
    match base {
        Base::Bin => "Binary"@,
        Base::Oct => "Octal"@,
        Base::Dec => "Decimal"@,
        Base::Hex => "Hexadecimal"@,
    }
}

/// The kind of an integer literal written in `base`.
pub open spec fn literal_kind(base: Base) -> TokenKind {
    match base {
        Base::Bin => TokenKind::IntegerLiteralBin,
        Base::Oct => TokenKind::IntegerLiteralOct,
        Base::Dec => TokenKind::IntegerLiteralDec,
        Base::Hex => TokenKind::IntegerLiteralHex,
    }
}

/// The base that the letter `c` announces after a leading `0`.
pub open spec fn announced_base(c: char) -> Option<Base> {
    if c == 'b' {
        Some(Base::Bin)
    } else if c == 'o' {
        Some(Base::Oct)
    } else if c == 'x' {
        Some(Base::Hex)
    } else {
        None
    }
}

/// The kind of the word `text`: that of the keyword it spells, or
/// `Identifier`.
pub open spec fn word_kind(text: Seq<char>) -> TokenKind {
    if text == "let"@ {
        TokenKind::Let
    } else {
        TokenKind::Identifier
    }
}

/// `text` without the separators `_` that may stand between digits.
pub open spec fn without_separators(text: Seq<char>) -> Seq<char> {
    text.filter(|c: char| c != '_')
}

/// What a further character adds to a numeral's text: nothing if it is a
/// separator, and else itself.
pub proof fn lemma_without_separators_push(text: Seq<char>, c: char)
    ensures
        without_separators(text.push(c)) == if c == '_' {
            without_separators(text)
        } else {
            without_separators(text).push(c)
        },
{
    text.lemma_filter_push(c, |c: char| c != '_');
}

/// No characters make an empty text.
pub proof fn lemma_without_separators_empty()
    ensures
        without_separators(Seq::<char>::empty()) == Seq::<char>::empty(),
{
    reveal_with_fuel(Seq::filter, 1);
}

/// The character at `i`, if there is one.
pub open spec fn char_at(s: Seq<char>, i: int) -> Option<char> {
    if 0 <= i < s.len() {
        Some(s[i])
    } else {
        None
    }
}

/// Where the word that goes through `i` ends: the first position from `i` on
/// that holds no character of a word.
pub open spec fn word_end(s: Seq<char>, i: int) -> int
    decreases s.len() - i,
{
    if 0 <= i < s.len() && continues_word(s[i]) {
        word_end(s, i + 1)
    } else {
        i
    }
}

/// A word ends at or after the place where it is entered, within the text.
pub proof fn lemma_word_end_bounds(s: Seq<char>, i: int)
    requires
        0 <= i <= s.len(),
    ensures
        i <= word_end(s, i) <= s.len(),
    decreases s.len() - i,
{
    if i < s.len() && continues_word(s[i]) {
        lemma_word_end_bounds(s, i + 1);
    }
}

/// Where the run of digits of `base` and separators that goes through `i`
/// ends.
pub open spec fn digits_end(s: Seq<char>, base: Base, i: int) -> int
    decreases s.len() - i,
{
    if 0 <= i < s.len() && (is_digit_of(base, s[i]) || s[i] == '_') {
        digits_end(s, base, i + 1)
    } else {
        i
    }
}

/// A run of digits ends at or after the place where it is entered, within
/// the text.
pub proof fn lemma_digits_end_bounds(s: Seq<char>, base: Base, i: int)
    requires
        0 <= i <= s.len(),
    ensures
        i <= digits_end(s, base, i) <= s.len(),
    decreases s.len() - i,
{
    if i < s.len() && (is_digit_of(base, s[i]) || s[i] == '_') {
        lemma_digits_end_bounds(s, base, i + 1);
    }
}

/// Whether the run of digits that goes through `i` runs into a letter or a
/// digit that `base` does not have.
pub open spec fn digits_fail(s: Seq<char>, base: Base, i: int) -> bool {
    let end = digits_end(s, base, i);
    end < s.len() && is_alphanumeric(s[end])
}

/// Where the line that goes through `i` ends: the position of the next line
/// feed, or the end of the text.
pub open spec fn line_end(s: Seq<char>, i: int) -> int
    decreases s.len() - i,
{
    if 0 <= i < s.len() && s[i] != '\n' {
        line_end(s, i + 1)
    } else {
        i
    }
}

/// A line ends at or after the place where it is entered, within the text.
pub proof fn lemma_line_end_bounds(s: Seq<char>, i: int)
    requires
        0 <= i <= s.len(),
    ensures
        i <= line_end(s, i) <= s.len(),
    decreases s.len() - i,
{
    if i < s.len() && s[i] != '\n' {
        lemma_line_end_bounds(s, i + 1);
    }
}

/// Whether `s` holds `first` at `i` and `second` right after it.
pub open spec fn pair_at(s: Seq<char>, i: int, first: char, second: char) -> bool {
    0 <= i && i + 1 < s.len() && s[i] == first && s[i + 1] == second
}

/// Where a block comment ends that is open `depth` levels deep at `i`: the
/// position after the `*/` that closes the outermost level, or `None` if the
/// text ends first. Every `/*` inside opens a level and every `*/` closes one.
pub open spec fn comment_end(s: Seq<char>, i: int, depth: nat) -> Option<int>
    decreases s.len() - i,
{
    if depth == 0 {
        Some(i)
    } else if !(0 <= i < s.len()) {
        None
    } else if pair_at(s, i, '/', '*') {
        comment_end(s, i + 2, depth + 1)
    } else if pair_at(s, i, '*', '/') {
        comment_end(s, i + 2, (depth - 1) as nat)
    } else {
        comment_end(s, i + 1, depth)
    }
}

/// A comment that ends does so at or after the place where it is entered,
/// within the text.
pub proof fn lemma_comment_end_bounds(s: Seq<char>, i: int, depth: nat)
    requires
        0 <= i <= s.len(),
    ensures
        comment_end(s, i, depth) matches Some(end) ==> i <= end <= s.len(),
    decreases s.len() - i,
{
    if depth == 0 || i >= s.len() {
    } else if pair_at(s, i, '/', '*') {
        lemma_comment_end_bounds(s, i + 2, depth + 1);
    } else if pair_at(s, i, '*', '/') {
        lemma_comment_end_bounds(s, i + 2, (depth - 1) as nat);
    } else {
        lemma_comment_end_bounds(s, i + 1, depth);
    }
}

/// The span from `start` to `end` in the source called `name`.
pub open spec fn span_of(name: Seq<char>, start: int, end: int) -> SpanView {
    SpanView { start: start as nat, end: end as nat, source: name }
}

/// The diagnostic for a literal of `base` that began at `start` and ran into
/// a character at `at` that cannot be part of it.
pub open spec fn invalid_integer(name: Seq<char>, base: Base, start: int, at: int) -> ErrorReportView {
    let span = span_of(name, start, at);
    ErrorReportView::new(ErrorReportKind::SyntaxError, span, "Invalid Integer Literal"@).with_label(
        LabelView::new(span).with_message(base_name(base) + " integer literal"@).with_color(
            Color::BrightBlue,
        ).with_order(1),
    ).with_label(
        LabelView::new(span_of(name, at, at)).with_message("Invalid character"@).with_color(
            Color::Red,
        ),
    )
}

/// The diagnostic for a number that began at `start` and has a second `.` at
/// `at`.
pub open spec fn invalid_float(name: Seq<char>, start: int, at: int) -> ErrorReportView {
    ErrorReportView::new(
        ErrorReportKind::SyntaxError,
        span_of(name, start, at),
        "Invalid Float Literal"@,
    ).with_label(
        LabelView::new(span_of(name, at, at)).with_message(
            "Second fractional indicator"@,
        ).with_color(Color::Red),
    )
}

/// The diagnostic for a block comment that was opened at `start` and is
/// still open at `end`, where the text ends.
pub open spec fn unterminated_comment(name: Seq<char>, start: int, end: int) -> ErrorReportView {
    ErrorReportView::new(
        ErrorReportKind::SyntaxError,
        span_of(name, start, end),
        "Unterminated Multi-Line Comment"@,
    ).with_label(
        LabelView::new(span_of(name, start, start + 2)).with_message(
            "Comment started here"@,
        ).with_color(Color::Red),
    )
}

/// The diagnostic for a character at `span` with which no token begins,
/// where `shown` is the character as it is written in the title.
pub open spec fn rejected_character(span: SpanView, shown: Seq<char>) -> ErrorReportView {
    ErrorReportView::new(ErrorReportKind::UnexpectedCharacter, span, shown).with_label(
        LabelView::new(span).with_message("Not a valid character."@).with_color(Color::Red),
    )
}

/// The diagnostic for the character `c` at `at`, with which no token begins.
/// The title shows the character as the standard library writes it for
/// debugging.
pub open spec fn unexpected_character(name: Seq<char>, at: int, c: char) -> ErrorReportView {
    rejected_character(span_of(name, at, at), char_debug(c))
}

/// What the scanner does at one position: where it goes on, and the token or
/// the diagnostic that it produces there, if any.
pub struct Step {
    pub next: int,
    pub token: Option<TokenView>,
    pub report: Option<ErrorReportView>,
}

impl Step {
    /// Going on at `next` with nothing produced.
    pub open spec fn skip(next: int) -> Step {
        Step { next, token: None, report: None }
    }

    /// Going on at `next` after producing `token`.
    pub open spec fn emit(next: int, token: TokenView) -> Step {
        Step { next, token: Some(token), report: None }
    }

    /// Going on at `next` after reporting `report`.
    pub open spec fn fail(next: int, report: ErrorReportView) -> Step {
        Step { next, token: None, report: Some(report) }
    }
}

/// The step for a word that begins at `i`. The span of a word ends at its
/// last character.
pub open spec fn word_step(s: Seq<char>, name: Seq<char>, i: int) -> Step {
    let end = word_end(s, i);
    let text = s.subrange(i, end);
    Step::emit(end, TokenView::new(word_kind(text), span_of(name, i, end - 1), text))
}

/// Reading the digits of `base` from `from` on, for a literal that began at
/// `start`: the run is read to its end, and reported where it fails.
pub open spec fn digits_step(s: Seq<char>, name: Seq<char>, base: Base, start: int, from: int) -> Step {
    let end = digits_end(s, base, from);
    if digits_fail(s, base, from) {
        Step::fail(end, invalid_integer(name, base, start, end))
    } else {
        Step::skip(end)
    }
}

/// The step for the one-character token of kind `kind` at `i`.
pub open spec fn mark_step(s: Seq<char>, name: Seq<char>, i: int, kind: TokenKind) -> Step {
    Step::emit(i + 1, TokenView::new(kind, span_of(name, i, i + 1), s.subrange(i, i + 1)))
}

/// The step for an integer literal at `i` that announces `base` by a prefix
/// of two characters. The prefix is no part of the token's text.
pub open spec fn based_step(s: Seq<char>, name: Seq<char>, i: int, base: Base) -> Step {
    let end = digits_end(s, base, i + 2);
    if digits_fail(s, base, i + 2) {
        Step::fail(end, invalid_integer(name, base, i, end))
    } else {
        Step::emit(
            end,
            TokenView::new(
                literal_kind(base),
                span_of(name, i, end),
                without_separators(s.subrange(i + 2, end)),
            ),
        )
    }
}

/// The step for a number that began at `start` and has its `.` at `dot`. A
/// second `.` right after the digits is reported and read, so that the scan
/// goes on after it and nothing comes of the number.
pub open spec fn fraction_step(s: Seq<char>, name: Seq<char>, start: int, dot: int) -> Step {
    let end = digits_end(s, Base::Dec, dot + 1);
    if digits_fail(s, Base::Dec, dot + 1) {
        Step::fail(end, invalid_integer(name, Base::Dec, start, end))
    } else if char_at(s, end) == Some('.') {
        Step::fail(end + 1, invalid_float(name, start, end))
    } else {
        Step::emit(
            end,
            TokenView::new(
                TokenKind::FloatLiteral,
                span_of(name, start, end),
                without_separators(s.subrange(start, end)),
            ),
        )
    }
}

/// The step for a number that begins with a decimal digit at `i`.
pub open spec fn number_step(s: Seq<char>, name: Seq<char>, i: int) -> Step {
    let end = digits_end(s, Base::Dec, i);
    if digits_fail(s, Base::Dec, i) {
        Step::fail(end, invalid_integer(name, Base::Dec, i, end))
    } else if char_at(s, end) == Some('.') {
        fraction_step(s, name, i, end)
    } else {
        Step::emit(
            end,
            TokenView::new(
                TokenKind::IntegerLiteralDec,
                span_of(name, i, end),
                without_separators(s.subrange(i, end)),
            ),
        )
    }
}

/// The step for a block comment that opens at `i`.
pub open spec fn comment_step(s: Seq<char>, name: Seq<char>, i: int) -> Step {
    match comment_end(s, i + 2, 1) {
        Some(end) => Step::skip(end),
        None => Step::fail(s.len() as int, unterminated_comment(name, i, s.len() as int)),
    }
}

/// The step of the scanner at `i`. The cases are tried in this order: white
/// space, a word, an integer with a base prefix, a number that begins with a
/// digit, a number that begins with `.`, comments, the one-character tokens,
/// and last the character with which no token begins.
pub open spec fn step(s: Seq<char>, name: Seq<char>, i: int) -> Step
    recommends
        0 <= i < s.len(),
{
    let c = s[i];
    let following = char_at(s, i + 1);
    if is_white_space(c) {
        Step::skip(i + 1)
    } else if starts_word(c) {
        word_step(s, name, i)
    } else if c == '0' && following is Some && announced_base(following->0) is Some {
        based_step(s, name, i, announced_base(following->0)->0)
    } else if is_decimal_digit(c) {
        number_step(s, name, i)
    } else if c == '.' {
        if following is Some && is_decimal_digit(following->0) {
            fraction_step(s, name, i, i)
        } else {
            mark_step(s, name, i, TokenKind::Period)
        }
    } else if c == '/' {
        if following == Some('/') {
            Step::skip(line_end(s, i))
        } else if following == Some('*') {
            comment_step(s, name, i)
        } else {
            mark_step(s, name, i, TokenKind::Slash)
        }
    } else if c == ';' {
        mark_step(s, name, i, TokenKind::SemiColon)
    } else if c == '=' {
        mark_step(s, name, i, TokenKind::Equals)
    } else {
        Step::fail(i + 1, unexpected_character(name, i, c))
    }
}

/// Every step reads at least one character and none beyond the text.
pub proof fn lemma_step_advances(s: Seq<char>, name: Seq<char>, i: int)
    requires
        0 <= i < s.len(),
    ensures
        i < step(s, name, i).next <= s.len(),
{
    let c = s[i];
    lemma_word_end_bounds(s, i + 1);
    lemma_digits_end_bounds(s, Base::Dec, i + 1);
    lemma_line_end_bounds(s, i + 1);
    if i + 2 <= s.len() {
        lemma_digits_end_bounds(s, Base::Bin, i + 2);
        lemma_digits_end_bounds(s, Base::Oct, i + 2);
        lemma_digits_end_bounds(s, Base::Hex, i + 2);
        lemma_comment_end_bounds(s, i + 2, 1);
    }
    let end = digits_end(s, Base::Dec, i);
    if is_decimal_digit(c) && end < s.len() {
        lemma_digits_end_bounds(s, Base::Dec, end + 1);
    }
}

/// The token that ends every token sequence: empty, at the end of the text.
pub open spec fn end_token(s: Seq<char>, name: Seq<char>) -> TokenView {
    TokenView::new(TokenKind::EOF, span_of(name, s.len() as int, s.len() as int), Seq::empty())
}

/// The tokens and the diagnostics of a text, each in the order of the text.
pub struct Lexed {
    pub tokens: Seq<TokenView>,
    pub reports: Seq<ErrorReportView>,
}

/// The sequence of what `item` holds: one element or none.
pub open spec fn optional<A>(item: Option<A>) -> Seq<A> {
    match item {
        Some(a) => seq![a],
        None => Seq::empty(),
    }
}

/// Appending the one element that an option holds puts it at the end.
pub proof fn lemma_append_some<A>(items: Seq<A>, item: A)
    ensures
        items + optional(Some(item)) == items.push(item),
{
    assert(items + optional(Some(item)) =~= items.push(item));
}

/// Appending what an empty option holds changes nothing.
pub proof fn lemma_append_none<A>(items: Seq<A>)
    ensures
        items + optional(None::<A>) == items,
{
    assert(items + optional(None::<A>) =~= items);
}

/// What scanning `s` from `i` on yields, in the source called `name`: the
/// products of the steps from `i` to the end of the text, and then the end
/// token.
pub open spec fn lex_from(s: Seq<char>, name: Seq<char>, i: int) -> Lexed
    decreases s.len() - i,
{
    let here = step(s, name, i);
    if 0 <= i < s.len() && i < here.next <= s.len() {
        let rest = lex_from(s, name, here.next);
        Lexed {
            tokens: optional(here.token) + rest.tokens,
            reports: optional(here.report) + rest.reports,
        }
    } else {
        Lexed { tokens: seq![end_token(s, name)], reports: Seq::empty() }
    }
}

/// What scanning the whole of `s` yields, in the source called `name`.
pub open spec fn lex(s: Seq<char>, name: Seq<char>) -> Lexed {
    lex_from(s, name, 0)
}

} // verus!
