//! The scanner: one pass over the characters of a source text, which yields
//! its tokens and reports what is malformed without stopping at it.

use crate::error::{report_views, Color, ErrorReport, ErrorReportKind, Label};
use crate::grammar::{
    base_name, based_step, char_at, comment_end, comment_step, continues_word, digits_end,
    digits_fail, digits_step, end_token, fraction_step, is_alphanumeric, is_decimal_digit,
    is_digit_of, lemma_append_none, lemma_append_some, lemma_digits_end_bounds,
    lemma_without_separators_empty, lemma_without_separators_push, lex_from, line_end,
    literal_kind, number_step, optional, pair_at, rejected_character, span_of, starts_word, step,
    unexpected_character, without_separators, word_end, word_step, Base, Step,
};
use crate::span::Span;
use crate::text::{chars_of, debug_char, string_of};
use crate::token::{token_views, Token, TokenKind, TokenView};
use vstd::prelude::*;

verus! {

impl Base {
    /// The name of the base, as diagnostics show it.
    pub fn to_string(self) -> (name: &'static str)
        ensures
            name@ == base_name(self),
    {
        match self {
            Base::Bin => "Binary",
            Base::Oct => "Octal",
            Base::Dec => "Decimal",
            Base::Hex => "Hexadecimal",
        }
    }

    /// Whether `c` is a digit of the base.
    pub fn has_digit(self, c: char) -> (yes: bool)
        ensures
            yes == is_digit_of(self, c),
    {
        match self {
            Base::Bin => '0' <= c && c <= '1',
            Base::Oct => '0' <= c && c <= '7',
            Base::Dec => '0' <= c && c <= '9',
            Base::Hex => ('0' <= c && c <= '9') || ('a' <= c && c <= 'f') || ('A' <= c && c
                <= 'F'),
        }
    }
}

impl From<Base> for TokenKind {
    /// The kind of an integer literal written in `base`.
    fn from(base: Base) -> (kind: Self) {
        match base {
            Base::Bin => TokenKind::IntegerLiteralBin,
            Base::Oct => TokenKind::IntegerLiteralOct,
            Base::Dec => TokenKind::IntegerLiteralDec,
            Base::Hex => TokenKind::IntegerLiteralHex,
        }
    }
}

impl vstd::std_specs::convert::FromSpecImpl<Base> for TokenKind {
    open spec fn obeys_from_spec() -> bool {
        true
    }

    open spec fn from_spec(base: Base) -> Self {
        literal_kind(base)
    }
}

/// The state of one scan: the text, how far it has been read, and what has
/// been produced so far.
pub struct Lexer {
    filename: String,
    source: Vec<char>,
    index: usize,
    had_error: bool,
    tokens: Vec<Token>,
}

/// `reports` is what `before` becomes by `step`.
pub open spec fn records(reports: Seq<ErrorReport>, before: Seq<ErrorReport>, step: Step) -> bool {
    report_views(reports) == report_views(before) + optional(step.report)
}

/// Whether a word may begin with `c`.
fn is_word_start(c: char) -> (yes: bool)
    ensures
        yes == starts_word(c),
{
    ('a' <= c && c <= 'z') || ('A' <= c && c <= 'Z') || c == '_'
}

/// Whether a word may go on with `c`.
fn is_word_part(c: char) -> (yes: bool)
    ensures
        yes == continues_word(c),
{
    is_word_start(c) || ('0' <= c && c <= '9')
}

/// Whether `c` is an ASCII letter or digit.
fn is_letter_or_digit(c: char) -> (yes: bool)
    ensures
        yes == is_alphanumeric(c),
{
    ('a' <= c && c <= 'z') || ('A' <= c && c <= 'Z') || ('0' <= c && c <= '9')
}

/// The diagnostic for a character at `span` with which no token begins,
/// where `shown` is the character as the title is to show it.
pub fn rejection(span: Span, shown: String) -> (report: ErrorReport)
    ensures
        report@ == rejected_character(span@, shown@),
{
    ErrorReport::new(ErrorReportKind::UnexpectedCharacter, span.clone(), shown).with_label(
        Label::new(span).with_message("Not a valid character.").with_color(Color::Red),
    )
}

impl Lexer {
    /// The scanner has not read past the end of its text.
    pub open spec fn wf(&self) -> bool {
        0 <= self.position() <= self.text().len()
    }

    /// The characters of the text.
    pub closed spec fn text(&self) -> Seq<char> {
        self.source@
    }

    /// The name of the source.
    pub closed spec fn name(&self) -> Seq<char> {
        self.filename@
    }

    /// How many characters have been read.
    pub closed spec fn position(&self) -> int {
        self.index as int
    }

    /// The tokens produced so far.
    pub closed spec fn emitted(&self) -> Seq<Token> {
        self.tokens@
    }

    /// Whether the scanner has reported anything.
    pub closed spec fn failed(&self) -> bool {
        self.had_error
    }

    /// `self` scans the text that `other` scans.
    pub open spec fn same_input(&self, other: Lexer) -> bool {
        self.text() == other.text() && self.name() == other.name()
    }

    /// `self` is what `before` becomes by `step`.
    pub open spec fn follows(&self, before: Lexer, step: Step) -> bool {
        &&& self.wf()
        &&& self.same_input(before)
        &&& self.position() == step.next
        &&& token_views(self.emitted()) == token_views(before.emitted()) + optional(step.token)
        &&& self.failed() == (before.failed() || step.report is Some)
    }

    /// The scanner has read nothing and produced nothing.
    pub open spec fn is_fresh(&self) -> bool {
        &&& self.wf()
        &&& self.position() == 0
        &&& self.emitted().len() == 0
        &&& !self.failed()
    }

    /// `self` and `reports` are what `before` and `reports_before` become
    /// when the rest of the text is scanned: the tokens and the diagnostics
    /// of the rest of the text have been added, each to its sequence.
    pub open spec fn scanned_from(
        &self,
        before: Lexer,
        reports: Seq<ErrorReport>,
        reports_before: Seq<ErrorReport>,
    ) -> bool {
        let rest = lex_from(before.text(), before.name(), before.position());
        &&& self.wf()
        &&& self.same_input(before)
        &&& self.position() == self.text().len()
        &&& token_views(self.emitted()) == token_views(before.emitted()) + rest.tokens
        &&& report_views(reports) == report_views(reports_before) + rest.reports
        &&& self.failed() == (before.failed() || rest.reports.len() > 0)
    }

    /// A scanner at the start of `source`, which is called `filename`.
    pub fn new(filename: String, source: &str) -> (lexer: Self)
        ensures
            lexer.is_fresh(),
            lexer.text() == source@,
            lexer.name() == filename@,
    {
        Lexer {
            filename,
            source: chars_of(source),
            index: 0,
            had_error: false,
            tokens: Vec::new(),
        }
    }

    /// The tokens produced so far.
    pub fn tokens(&self) -> (tokens: &Vec<Token>)
        ensures
            tokens@ == self.emitted(),
    {
        &self.tokens
    }

    /// Whether the scanner has reported anything.
    pub fn had_error(&self) -> (failed: bool)
        ensures
            failed == self.failed(),
    {
        self.had_error
    }

    /// Gives up the scanner for the tokens it has produced.
    pub fn into_tokens(self) -> (tokens: Vec<Token>)
        ensures
            tokens@ == self.emitted(),
    {
        self.tokens
    }

    /// The character `offset` places after the one to be read next.
    fn peek(&self, offset: usize) -> (c: Option<char>)
        requires
            self.wf(),
        ensures
            c == char_at(self.text(), self.position() + offset),
    {
        if offset < self.source.len() - self.index {
            Some(self.source[self.index + offset])
        } else {
            None
        }
    }

    /// The span from `start` to `end` in this source.
    fn span(&self, start: usize, end: usize) -> (span: Span)
        ensures
            span@ == span_of(self.name(), start as int, end as int),
    {
        Span::new(start, end, self.filename.clone())
    }

    /// The span of the one place `index` in this source.
    fn span_at(&self, index: usize) -> (span: Span)
        ensures
            span@ == span_of(self.name(), index as int, index as int),
    {
        Span::location(index, self.filename.clone())
    }

    /// The span from `from` to where the scanner stands.
    fn span_from(&self, from: usize) -> (span: Span)
        ensures
            span@ == span_of(self.name(), from as int, self.position()),
    {
        Span::new(from, self.index, self.filename.clone())
    }

    /// Reads one character, unless the text has ended.
    fn advance(&mut self)
        requires
            old(self).wf(),
        ensures
            final(self).wf(),
            final(self).same_input(*old(self)),
            final(self).position() == if old(self).position() < old(self).text().len() {
                old(self).position() + 1
            } else {
                old(self).position()
            },
            final(self).emitted() == old(self).emitted(),
            final(self).failed() == old(self).failed(),
    {
        if self.index < self.source.len() {
            self.index += 1;
        }
    }

    /// Puts `token` at the end of the tokens.
    fn push(&mut self, token: Token)
        ensures
            final(self).wf() == old(self).wf(),
            final(self).same_input(*old(self)),
            final(self).position() == old(self).position(),
            final(self).failed() == old(self).failed(),
            final(self).emitted() == old(self).emitted().push(token),
            token_views(final(self).emitted()) == token_views(old(self).emitted()).push(token@),
    {
        self.tokens.push(token);
        assert(token_views(self.tokens@) =~= token_views(old(self).tokens@).push(token@));
    }

    /// Puts `report` at the end of `reports`; the scan has failed.
    fn push_report(&mut self, reports: &mut Vec<ErrorReport>, report: ErrorReport)
        ensures
            final(self).wf() == old(self).wf(),
            final(self).same_input(*old(self)),
            final(self).position() == old(self).position(),
            final(self).emitted() == old(self).emitted(),
            final(self).failed(),
            final(reports)@ == old(reports)@.push(report),
            report_views(final(reports)@) == report_views(old(reports)@).push(report@),
    {
        reports.push(report);
        self.had_error = true;
        assert(report_views(reports@) =~= report_views(old(reports)@).push(report@));
    }

    /// The text of the numeral written in `from..to`: its characters but
    /// for the separators.
    fn literal_text(&self, from: usize, to: usize) -> (text: String)
        requires
            from <= to <= self.text().len(),
        ensures
            text@ == without_separators(self.text().subrange(from as int, to as int)),
    {
        let mut text = String::new();
        let mut i: usize = from;
        proof {
            lemma_without_separators_empty();
            assert(self.source@.subrange(from as int, from as int) =~= Seq::empty());
        }
        while i < to
            invariant
                from <= i <= to <= self.source.len(),
                text@ == without_separators(self.source@.subrange(from as int, i as int)),
            decreases to - i,
        {
            let c = self.source[i];
            proof {
                lemma_without_separators_push(self.source@.subrange(from as int, i as int), c);
                assert(self.source@.subrange(from as int, i + 1) =~= self.source@.subrange(
                    from as int,
                    i as int,
                ).push(c));
            }
            if c != '_' {
                text.push(c);
            }
            i += 1;
        }
        text
    }

    /// Reads `length` characters and makes them a token of kind `kind`.
    fn push_simple(&mut self, kind: TokenKind, length: usize)
        requires
            old(self).wf(),
            old(self).position() + length <= old(self).text().len(),
        ensures
            final(self).follows(
                *old(self),
                Step::emit(
                    old(self).position() + length,
                    TokenView::new(
                        kind,
                        span_of(
                            old(self).name(),
                            old(self).position(),
                            old(self).position() + length,
                        ),
                        old(self).text().subrange(
                            old(self).position(),
                            old(self).position() + length,
                        ),
                    ),
                ),
            ),
    {
        let start = self.index;
        assert(self.index + length <= self.source.len());
        let text = string_of(&self.source, self.index, self.index + length);
        let mut read: usize = 0;
        while read < length
            invariant
                self.wf(),
                self.same_input(*old(self)),
                self.tokens@ == old(self).tokens@,
                self.had_error == old(self).had_error,
                read <= length,
                start + length <= self.source.len(),
                self.index == start + read,
            decreases length - read,
        {
            self.advance();
            read += 1;
        }
        let span = self.span_from(start);
        let token = Token::new(kind, span, text);
        proof {
            lemma_append_some(token_views(old(self).tokens@), token@);
        }
        self.push(token);
    }

    /// Reads the word that begins here and makes it a token: a keyword if
    /// it spells one, and else an identifier.
    fn lex_word(&mut self)
        requires
            old(self).wf(),
            old(self).position() < old(self).text().len(),
            starts_word(old(self).text()[old(self).position()]),
        ensures
            final(self).follows(
                *old(self),
                word_step(old(self).text(), old(self).name(), old(self).position()),
            ),
            old(self).position() < final(self).position() <= final(self).text().len(),
    {
        let start = self.index;
        self.advance();
        while self.index < self.source.len() && is_word_part(self.source[self.index])
            invariant
                self.wf(),
                self.same_input(*old(self)),
                self.tokens@ == old(self).tokens@,
                self.had_error == old(self).had_error,
                start < self.index <= self.source.len(),
                word_end(self.source@, start as int) == word_end(self.source@, self.index as int),
            decreases self.source.len() - self.index,
        {
            self.advance();
        }
        assert(word_end(self.source@, self.index as int) == self.index);
        let text = string_of(&self.source, start, self.index);
        let is_let = self.index - start == 3 && self.source[start] == 'l' && self.source[start
            + 1] == 'e' && self.source[start + 2] == 't';
        proof {
            reveal_strlit("let");
            if is_let {
                assert(text@ =~= "let"@);
            }
            if text@ == "let"@ {
                assert(text@.len() == 3);
                assert(text@[0] == 'l' && text@[1] == 'e' && text@[2] == 't');
            }
        }
        let kind = if is_let {
            TokenKind::Let
        } else {
            TokenKind::Identifier
        };
        let span = self.span(start, self.index - 1);
        let token = Token::new(kind, span, text);
        proof {
            lemma_append_some(token_views(old(self).tokens@), token@);
        }
        self.push(token);
    }

    /// Whether the character `offset` places after the next one is `c`.
    fn sees(&self, offset: usize, c: char) -> (yes: bool)
        requires
            self.wf(),
        ensures
            yes == (char_at(self.text(), self.position() + offset) == Some(c)),
    {
        match self.peek(offset) {
            Some(found) => found == c,
            None => false,
        }
    }

    /// Whether the character `offset` places after the next one is a decimal
    /// digit.
    fn sees_digit(&self, offset: usize) -> (yes: bool)
        requires
            self.wf(),
        ensures
            yes == match char_at(self.text(), self.position() + offset) {
                Some(c) => is_decimal_digit(c),
                None => false,
            },
    {
        match self.peek(offset) {
            Some(found) => '0' <= found && found <= '9',
            None => false,
        }
    }

    /// Reads the digits of `base`, and the separators between them, of a
    /// literal that began at `start`. A letter or a digit that the base does
    /// not have is reported and left unread, and the result is `Err`.
    fn lex_integer(&mut self, base: Base, start: usize, reports: &mut Vec<ErrorReport>) -> (result:
        Result<(), ()>)
        requires
            old(self).wf(),
            start <= old(self).position(),
        ensures
            result is Err <==> digits_fail(old(self).text(), base, old(self).position()),
            final(self).follows(
                *old(self),
                digits_step(
                    old(self).text(),
                    old(self).name(),
                    base,
                    start as int,
                    old(self).position(),
                ),
            ),
            records(
                final(reports)@,
                old(reports)@,
                digits_step(
                    old(self).text(),
                    old(self).name(),
                    base,
                    start as int,
                    old(self).position(),
                ),
            ),
            old(self).position() <= final(self).position() <= final(self).text().len(),
            final(self).position() == digits_end(old(self).text(), base, old(self).position()),
    {
        while self.index < self.source.len() && (base.has_digit(self.source[self.index])
            || self.source[self.index] == '_')
            invariant
                self.wf(),
                self.same_input(*old(self)),
                self.tokens@ == old(self).tokens@,
                self.had_error == old(self).had_error,
                old(self).index <= self.index <= self.source.len(),
                digits_end(self.source@, base, old(self).index as int) == digits_end(
                    self.source@,
                    base,
                    self.index as int,
                ),
            decreases self.source.len() - self.index,
        {
            self.advance();
        }
        assert(digits_end(self.source@, base, self.index as int) == self.index);
        proof {
            lemma_append_none(token_views(old(self).tokens@));
        }
        if self.index < self.source.len() && is_letter_or_digit(self.source[self.index]) {
            let span = self.span_from(start);
            let mut message = base.to_string().to_owned();
            message.append(" integer literal");
            let report = ErrorReport::new(
                ErrorReportKind::SyntaxError,
                span.clone(),
                "Invalid Integer Literal".to_owned(),
            ).with_label(
                Label::new(span).with_message(message.as_str()).with_color(
                    Color::BrightBlue,
                ).with_order(1),
            ).with_label(
                Label::new(self.span_at(self.index)).with_message("Invalid character").with_color(
                    Color::Red,
                ),
            );
            proof {
                lemma_append_some(report_views(reports@), report@);
            }
            self.push_report(reports, report);
            return Err(());
        }
        proof {
            lemma_append_none(report_views(reports@));
        }
        Ok(())
    }

    /// Reads an integer literal whose first two characters announce `base`.
    fn lex_based(&mut self, base: Base, reports: &mut Vec<ErrorReport>)
        requires
            old(self).wf(),
            old(self).position() + 1 < old(self).text().len(),
        ensures
            final(self).follows(
                *old(self),
                based_step(old(self).text(), old(self).name(), old(self).position(), base),
            ),
            records(
                final(reports)@,
                old(reports)@,
                based_step(old(self).text(), old(self).name(), old(self).position(), base),
            ),
            old(self).position() < final(self).position() <= final(self).text().len(),
    {
        let start = self.index;
        self.advance();
        self.advance();
        if self.lex_integer(base, start, reports).is_err() {
            return ;
        }
        let text = self.literal_text(start + 2, self.index);
        let span = self.span_from(start);
        let token = Token::new(TokenKind::from(base), span, text);
        proof {
            lemma_append_some(token_views(old(self).tokens@), token@);
        }
        self.push(token);
    }

    /// Reads the rest of a number that began at `start`, from its `.` on. A
    /// second `.` is reported and read.
    fn lex_fraction(&mut self, start: usize, reports: &mut Vec<ErrorReport>)
        requires
            old(self).wf(),
            start <= old(self).position() < old(self).text().len(),
            old(self).text()[old(self).position()] == '.',
        ensures
            final(self).follows(
                *old(self),
                fraction_step(
                    old(self).text(),
                    old(self).name(),
                    start as int,
                    old(self).position(),
                ),
            ),
            records(
                final(reports)@,
                old(reports)@,
                fraction_step(
                    old(self).text(),
                    old(self).name(),
                    start as int,
                    old(self).position(),
                ),
            ),
            old(self).position() < final(self).position() <= final(self).text().len(),
    {
        self.advance();
        if self.lex_integer(Base::Dec, start, reports).is_err() {
            return ;
        }
        if self.sees(0, '.') {
            let report = ErrorReport::new(
                ErrorReportKind::SyntaxError,
                self.span_from(start),
                "Invalid Float Literal".to_owned(),
            ).with_label(
                Label::new(self.span_at(self.index)).with_message(
                    "Second fractional indicator",
                ).with_color(Color::Red),
            );
            proof {
                lemma_append_some(report_views(reports@), report@);
            }
            self.push_report(reports, report);
            self.advance();
            return ;
        }
        let text = self.literal_text(start, self.index);
        let span = self.span_from(start);
        let token = Token::new(TokenKind::FloatLiteral, span, text);
        proof {
            lemma_append_some(token_views(old(self).tokens@), token@);
        }
        self.push(token);
    }

    /// Reads a number that begins with a decimal digit.
    fn lex_number(&mut self, reports: &mut Vec<ErrorReport>)
        requires
            old(self).wf(),
            old(self).position() < old(self).text().len(),
            is_decimal_digit(old(self).text()[old(self).position()]),
        ensures
            final(self).follows(
                *old(self),
                number_step(old(self).text(), old(self).name(), old(self).position()),
            ),
            records(
                final(reports)@,
                old(reports)@,
                number_step(old(self).text(), old(self).name(), old(self).position()),
            ),
            old(self).position() < final(self).position() <= final(self).text().len(),
    {
        let start = self.index;
        assert(digits_end(self.source@, Base::Dec, start as int) == digits_end(
            self.source@,
            Base::Dec,
            start + 1,
        ));
        assert(digits_end(self.source@, Base::Dec, start + 1) >= start + 1) by {
            lemma_digits_end_bounds(self.source@, Base::Dec, start + 1);
        }
        if self.lex_integer(Base::Dec, start, reports).is_err() {
            return ;
        }
        if self.sees(0, '.') {
            self.lex_fraction(start, reports);
            return ;
        }
        let text = self.literal_text(start, self.index);
        let span = self.span_from(start);
        let token = Token::new(TokenKind::IntegerLiteralDec, span, text);
        proof {
            lemma_append_some(token_views(old(self).tokens@), token@);
        }
        self.push(token);
    }

    /// Reads a line comment: everything up to the end of the line.
    fn skip_line(&mut self)
        requires
            old(self).wf(),
            old(self).position() < old(self).text().len(),
            old(self).text()[old(self).position()] != '\n',
        ensures
            final(self).follows(
                *old(self),
                Step::skip(line_end(old(self).text(), old(self).position())),
            ),
            old(self).position() < final(self).position() <= final(self).text().len(),
    {
        let start = self.index;
        self.advance();
        while self.index < self.source.len() && self.source[self.index] != '\n'
            invariant
                self.wf(),
                self.same_input(*old(self)),
                self.tokens@ == old(self).tokens@,
                self.had_error == old(self).had_error,
                start < self.index <= self.source.len(),
                line_end(self.source@, start as int) == line_end(self.source@, self.index as int),
            decreases self.source.len() - self.index,
        {
            self.advance();
        }
        assert(line_end(self.source@, self.index as int) == self.index);
        proof {
            lemma_append_none(token_views(old(self).tokens@));
        }
    }

    /// Reads a block comment with the comments nested in it. One that the
    /// text leaves open is reported where it began.
    fn skip_block(&mut self, reports: &mut Vec<ErrorReport>)
        requires
            old(self).wf(),
            pair_at(old(self).text(), old(self).position(), '/', '*'),
        ensures
            final(self).follows(
                *old(self),
                comment_step(old(self).text(), old(self).name(), old(self).position()),
            ),
            records(
                final(reports)@,
                old(reports)@,
                comment_step(old(self).text(), old(self).name(), old(self).position()),
            ),
            old(self).position() < final(self).position() <= final(self).text().len(),
    {
        let start = self.index;
        let mut depth: usize = 1;
        self.advance();
        self.advance();
        while depth > 0 && self.index < self.source.len()
            invariant
                self.wf(),
                self.same_input(*old(self)),
                self.tokens@ == old(self).tokens@,
                self.had_error == old(self).had_error,
                reports@ == old(reports)@,
                start + 2 <= self.index <= self.source.len(),
                depth + start < self.index,
                comment_end(self.source@, start + 2, 1) == comment_end(
                    self.source@,
                    self.index as int,
                    depth as nat,
                ),
            decreases self.source.len() - self.index,
        {
            if self.sees(0, '/') && self.sees(1, '*') {
                depth += 1;
                self.advance();
                self.advance();
            } else if self.sees(0, '*') && self.sees(1, '/') {
                depth -= 1;
                self.advance();
                self.advance();
            } else {
                self.advance();
            }
        }
        proof {
            lemma_append_none(token_views(old(self).tokens@));
        }
        if depth > 0 {
            let report = ErrorReport::new(
                ErrorReportKind::SyntaxError,
                self.span_from(start),
                "Unterminated Multi-Line Comment".to_owned(),
            ).with_label(
                Label::new(self.span(start, start + 2)).with_message(
                    "Comment started here",
                ).with_color(Color::Red),
            );
            proof {
                lemma_append_some(report_views(reports@), report@);
            }
            self.push_report(reports, report);
        } else {
            proof {
                lemma_append_none(report_views(reports@));
            }
        }
    }

    /// Reports the character here, with which no token begins, and reads it.
    fn reject(&mut self, reports: &mut Vec<ErrorReport>)
        requires
            old(self).wf(),
            old(self).position() < old(self).text().len(),
        ensures
            final(self).follows(
                *old(self),
                Step::fail(
                    old(self).position() + 1,
                    unexpected_character(
                        old(self).name(),
                        old(self).position(),
                        old(self).text()[old(self).position()],
                    ),
                ),
            ),
            records(
                final(reports)@,
                old(reports)@,
                Step::fail(
                    old(self).position() + 1,
                    unexpected_character(
                        old(self).name(),
                        old(self).position(),
                        old(self).text()[old(self).position()],
                    ),
                ),
            ),
    {
        let shown = debug_char(self.source[self.index]);
        let report = rejection(self.span_at(self.index), shown);
        proof {
            lemma_append_some(report_views(reports@), report@);
            lemma_append_none(token_views(old(self).tokens@));
        }
        self.push_report(reports, report);
        self.advance();
    }

    /// Takes one step: reads what begins here, be it white space, a
    /// comment, a token or something malformed.
    fn scan(&mut self, reports: &mut Vec<ErrorReport>)
        requires
            old(self).wf(),
            old(self).position() < old(self).text().len(),
        ensures
            final(self).follows(
                *old(self),
                step(old(self).text(), old(self).name(), old(self).position()),
            ),
            records(
                final(reports)@,
                old(reports)@,
                step(old(self).text(), old(self).name(), old(self).position()),
            ),
            old(self).position() < final(self).position() <= final(self).text().len(),
    {
        let c = self.source[self.index];
        proof {
            lemma_append_none(report_views(reports@));
            lemma_append_none(token_views(old(self).tokens@));
        }
        if c.is_whitespace() {
            self.advance();
        } else if is_word_start(c) {
            self.lex_word();
        } else if c == '0' && (self.sees(1, 'b') || self.sees(1, 'o') || self.sees(1, 'x')) {
            let base = if self.sees(1, 'b') {
                Base::Bin
            } else if self.sees(1, 'o') {
                Base::Oct
            } else {
                Base::Hex
            };
            self.lex_based(base, reports);
        } else if '0' <= c && c <= '9' {
            self.lex_number(reports);
        } else if c == '.' {
            if self.sees_digit(1) {
                let start = self.index;
                self.lex_fraction(start, reports);
            } else {
                self.push_simple(TokenKind::Period, 1);
            }
        } else if c == '/' {
            if self.sees(1, '/') {
                self.skip_line();
            } else if self.sees(1, '*') {
                self.skip_block(reports);
            } else {
                self.push_simple(TokenKind::Slash, 1);
            }
        } else if c == ';' {
            self.push_simple(TokenKind::SemiColon, 1);
        } else if c == '=' {
            self.push_simple(TokenKind::Equals, 1);
        } else {
            self.reject(reports);
        }
    }

    /// Scans the rest of the text. Every token goes to the end of the
    /// scanner's tokens, and the end token after them; every diagnostic goes
    /// to the end of `reports`. Nothing malformed stops the scan: the
    /// scanner reads to the end of the text, and has failed if it reported
    /// anything.
    pub fn lex_tokens(&mut self, reports: &mut Vec<ErrorReport>)
        requires
            old(self).wf(),
        ensures
            final(self).scanned_from(*old(self), final(reports)@, old(reports)@),
    {
        let ghost whole = lex_from(self.source@, self.filename@, self.index as int);
        while self.index < self.source.len()
            invariant
                self.wf(),
                self.same_input(*old(self)),
                whole == lex_from(old(self).text(), old(self).name(), old(self).position()),
                token_views(self.tokens@) + lex_from(
                    self.source@,
                    self.filename@,
                    self.index as int,
                ).tokens == token_views(old(self).tokens@) + whole.tokens,
                report_views(reports@) + lex_from(
                    self.source@,
                    self.filename@,
                    self.index as int,
                ).reports == report_views(old(reports)@) + whole.reports,
                report_views(reports@).len() >= report_views(old(reports)@).len(),
                self.had_error == (old(self).had_error || report_views(reports@).len()
                    > report_views(old(reports)@).len()),
            decreases self.source.len() - self.index,
        {
            let ghost before = *self;
            let ghost reports_before = reports@;
            let ghost here = step(self.source@, self.filename@, self.index as int);
            let ghost rest = lex_from(self.source@, self.filename@, here.next);
            self.scan(reports);
            proof {
                let now = lex_from(before.source@, before.filename@, before.index as int);
                assert(now.tokens == optional(here.token) + rest.tokens);
                assert(now.reports == optional(here.report) + rest.reports);
                assert(token_views(self.tokens@) + rest.tokens =~= token_views(before.tokens@)
                    + now.tokens);
                assert(report_views(reports@) + rest.reports =~= report_views(reports_before)
                    + now.reports);
                assert(report_views(reports@).len() == report_views(reports_before).len()
                    + optional(here.report).len());
            }
        }
        proof {
            let last = lex_from(self.source@, self.filename@, self.index as int);
            assert(last.tokens == seq![end_token(self.source@, self.filename@)]);
            assert(last.reports == Seq::<crate::error::ErrorReportView>::empty());
            assert(report_views(reports@) + last.reports =~= report_views(reports@));
        }
        let ghost scanned = *self;
        self.push_simple(TokenKind::EOF, 0);
        proof {
            assert(self.source@.subrange(scanned.index as int, scanned.index as int)
                =~= Seq::<char>::empty());
            assert(token_views(self.tokens@) =~= token_views(scanned.tokens@) + seq![
                end_token(self.source@, self.filename@),
            ]);
        }
    }
}

} // verus!
