//! The parser: it reads the tokens of a text and recognises, for now, one
//! atom.

use crate::ast::{ASTKind, AST};
use crate::error::{
    report_views, Color, ErrorReport, ErrorReportKind, ErrorReportView, Label, LabelView,
};
use crate::token::{token_kind_name, Token, TokenKind, TokenView};
use std::rc::Rc;
use vstd::prelude::*;

verus! {

/// Why no atom begins with `token`, if none does: the text has ended, or the
/// token is none that an atom begins with.
pub open spec fn atom_failure(token: TokenView) -> Option<ErrorReportView> {
    match token.kind {
        TokenKind::StringLiteral => None,
        TokenKind::EOF => Some(
            ErrorReportView::new(ErrorReportKind::Custom, token.span, "Unexpected EOF"@),
        ),
        _ => Some(
            ErrorReportView::new(
                ErrorReportKind::UnexpectedToken,
                token.span,
                token_kind_name(token.kind),
            ).with_label(LabelView::new(token.span).with_color(Color::Red)),
        ),
    }
}

/// Why `token` is not the token of kind `kind` that is asked for, if it is
/// not. The report carries `message` as a label at the token.
pub open spec fn consume_failure(token: TokenView, kind: TokenKind, message: Seq<char>) -> Option<
    ErrorReportView,
> {
    let label = LabelView::new(token.span).with_message(message).with_color(Color::Red);
    if token.kind == kind {
        None
    } else if token.kind == TokenKind::EOF {
        Some(
            ErrorReportView::new(
                ErrorReportKind::Custom,
                token.span,
                "Unexpected EOF"@,
            ).with_label(label),
        )
    } else {
        Some(
            ErrorReportView::new(
                ErrorReportKind::UnexpectedToken,
                token.span,
                "got "@ + token_kind_name(token.kind),
            ).with_label(label),
        )
    }
}

/// Why `token` does not end a line, if it does not: a line ends with `;` or
/// with the text.
pub open spec fn line_end_failure(token: TokenView) -> Option<ErrorReportView> {
    if token.kind == TokenKind::SemiColon || token.kind == TokenKind::EOF {
        None
    } else {
        Some(
            ErrorReportView::new(
                ErrorReportKind::UnexpectedToken,
                token.span,
                "Expected end of line but got "@ + token_kind_name(token.kind),
            ).with_label(LabelView::new(token.span).with_color(Color::Red)),
        )
    }
}

/// The state of one parse: the tokens and how far they have been read.
pub struct Parser<'a> {
    tokens: &'a [Token],
    position: usize,
    had_error: bool,
}

impl<'a> Parser<'a> {
    /// The tokens that are parsed.
    pub closed spec fn tokens(&self) -> Seq<Token> {
        self.tokens@
    }

    /// How many tokens have been read.
    pub closed spec fn position(&self) -> int {
        self.position as int
    }

    /// Whether the parser has reported anything.
    pub closed spec fn failed(&self) -> bool {
        self.had_error
    }

    /// There is a token to be read next.
    pub open spec fn wf(&self) -> bool {
        0 <= self.position() < self.tokens().len()
    }

    /// The token to be read next.
    pub open spec fn current(&self) -> Token {
        self.tokens()[self.position()]
    }

    /// Whether a token follows the one to be read next.
    pub open spec fn can_advance(&self) -> bool {
        self.position() + 1 < self.tokens().len()
    }

    /// A parser at the first of `tokens`. There must be one: a token
    /// sequence ends with the end token.
    pub fn new(tokens: &'a [Token]) -> (parser: Self)
        requires
            tokens@.len() > 0,
        ensures
            parser.wf(),
            parser.tokens() == tokens@,
            parser.position() == 0,
            !parser.failed(),
    {
        Parser { tokens, position: 0, had_error: false }
    }

    /// Whether the parser has reported anything.
    pub fn had_error(&self) -> (failed: bool)
        ensures
            failed == self.failed(),
    {
        self.had_error
    }

    /// The token to be read next.
    fn peek(&self) -> (token: &'a Token)
        requires
            self.wf(),
        ensures
            *token == self.current(),
    {
        &self.tokens[self.position]
    }

    /// Puts `report` at the end of `reports`; the parse has failed.
    fn push_report(&mut self, reports: &mut Vec<ErrorReport>, report: ErrorReport)
        ensures
            final(self).wf() == old(self).wf(),
            final(self).tokens() == old(self).tokens(),
            final(self).position() == old(self).position(),
            final(self).failed(),
            report_views(final(reports)@) == report_views(old(reports)@).push(report@),
    {
        self.had_error = true;
        reports.push(report);
        assert(report_views(reports@) =~= report_views(old(reports)@).push(report@));
    }

    /// Goes on to the next token, which there must be.
    fn advance(&mut self) -> (token: &'a Token)
        requires
            old(self).wf(),
            old(self).can_advance(),
        ensures
            final(self).wf(),
            final(self).tokens() == old(self).tokens(),
            final(self).position() == old(self).position() + 1,
            final(self).failed() == old(self).failed(),
            *token == final(self).current(),
    {
        let tokens = self.tokens;
        assert(self.position + 1 < tokens.len());
        self.position += 1;
        &tokens[self.position]
    }

    /// Reads the token to be read next if it is of kind `kind`, and else
    /// fails with a report that carries `message`. The token that is read
    /// must not be the last.
    pub fn consume(&mut self, kind: TokenKind, message: &str) -> (result: Result<
        &'a Token,
        ErrorReport,
    >)
        requires
            old(self).wf(),
            old(self).current().kind == kind ==> old(self).can_advance(),
        ensures
            final(self).wf(),
            final(self).tokens() == old(self).tokens(),
            final(self).failed() == old(self).failed(),
            match result {
                Ok(token) => {
                    &&& old(self).current().kind == kind
                    &&& *token == old(self).current()
                    &&& final(self).position() == old(self).position() + 1
                },
                Err(report) => {
                    &&& consume_failure(old(self).current()@, kind, message@) == Some(report@)
                    &&& final(self).position() == old(self).position()
                },
            },
    {
        let token = self.peek();
        if token.kind == kind {
            self.advance();
            Ok(token)
        } else if token.kind == TokenKind::EOF {
            Err(
                ErrorReport::new(
                    ErrorReportKind::Custom,
                    token.span.clone(),
                    "Unexpected EOF".to_owned(),
                ).with_label(
                    Label::new(token.span.clone()).with_message(message).with_color(Color::Red),
                ),
            )
        } else {
            let mut title = "got ".to_owned();
            title.append(token.kind.name());
            Err(
                ErrorReport::new(
                    ErrorReportKind::UnexpectedToken,
                    token.span.clone(),
                    title,
                ).with_label(
                    Label::new(token.span.clone()).with_message(message).with_color(Color::Red),
                ),
            )
        }
    }

    /// Succeeds if a line ends here, with `;` or with the text, and reads
    /// nothing.
    pub fn consume_line_end(&mut self) -> (result: Result<(), ErrorReport>)
        requires
            old(self).wf(),
        ensures
            *final(self) == *old(self),
            match result {
                Ok(_) => line_end_failure(old(self).current()@) is None,
                Err(report) => line_end_failure(old(self).current()@) == Some(report@),
            },
    {
        let token = self.peek();
        match token.kind {
            TokenKind::SemiColon => Ok(()),
            TokenKind::EOF => Ok(()),
            _ => {
                let mut title = "Expected end of line but got ".to_owned();
                title.append(token.kind.name());
                Err(
                    ErrorReport::new(
                        ErrorReportKind::UnexpectedToken,
                        token.span.clone(),
                        title,
                    ).with_label(Label::new(token.span.clone()).with_color(Color::Red)),
                )
            },
        }
    }

    /// Parses the tokens. A failure goes to the end of `reports` and gives
    /// `None`.
    pub fn parse(&mut self, reports: &mut Vec<ErrorReport>) -> (tree: Option<Rc<AST>>)
        requires
            old(self).wf(),
            old(self).current().kind == TokenKind::StringLiteral ==> old(self).can_advance(),
        ensures
            final(self).wf(),
            final(self).tokens() == old(self).tokens(),
            match tree {
                Some(node) => {
                    &&& atom_failure(old(self).current()@) is None
                    &&& node.span@ == old(self).current().span@
                    &&& node.kind matches ASTKind::StringLiteral(text)
                    &&& text@ == old(self).current().text@
                    &&& final(self).position() == old(self).position() + 1
                    &&& final(self).failed() == old(self).failed()
                    &&& final(reports)@ == old(reports)@
                },
                None => {
                    &&& atom_failure(old(self).current()@) matches Some(failure)
                    &&& report_views(final(reports)@) == report_views(old(reports)@).push(
                        failure,
                    )
                    &&& final(self).position() == old(self).position()
                    &&& final(self).failed()
                },
            },
    {
        match self.parse_atom() {
            Ok(node) => Some(node),
            Err(error) => {
                self.push_report(reports, error);
                None
            },
        }
    }

    /// Parses an atom: a string literal. Anything else fails, and nothing is
    /// read.
    pub fn parse_atom(&mut self) -> (result: Result<Rc<AST>, ErrorReport>)
        requires
            old(self).wf(),
            old(self).current().kind == TokenKind::StringLiteral ==> old(self).can_advance(),
        ensures
            final(self).wf(),
            final(self).tokens() == old(self).tokens(),
            final(self).failed() == old(self).failed(),
            match result {
                Ok(node) => {
                    &&& atom_failure(old(self).current()@) is None
                    &&& node.span@ == old(self).current().span@
                    &&& node.kind matches ASTKind::StringLiteral(text)
                    &&& text@ == old(self).current().text@
                    &&& final(self).position() == old(self).position() + 1
                },
                Err(report) => {
                    &&& atom_failure(old(self).current()@) == Some(report@)
                    &&& final(self).position() == old(self).position()
                },
            },
    {
        let token = self.peek();
        match token.kind {
            TokenKind::StringLiteral => {
                self.advance();
                Ok(
                    Rc::new(
                        AST::new(token.span.clone(), ASTKind::StringLiteral(token.text.clone())),
                    ),
                )
            },
            TokenKind::EOF => Err(
                ErrorReport::new(
                    ErrorReportKind::Custom,
                    token.span.clone(),
                    "Unexpected EOF".to_owned(),
                ),
            ),
            _ => Err(
                ErrorReport::new(
                    ErrorReportKind::UnexpectedToken,
                    token.span.clone(),
                    token.kind.name().to_owned(),
                ).with_label(Label::new(token.span.clone()).with_color(Color::Red)),
            ),
        }
    }
}

} // verus!
