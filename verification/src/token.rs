//! Tokens: the classified units that scanning produces.

use crate::span::{location_text, Span, SpanView};
use crate::text::{debug_str, str_debug};
use vstd::prelude::*;

verus! {

/// What a token is.
#[derive(Debug, Clone, Copy, PartialEq, Eq, Structural)]
pub enum TokenKind {
    Period,
    Slash,
    Equals,
    SemiColon,
    Let,
    Identifier,
    StringLiteral,
    IntegerLiteralBin,
    IntegerLiteralHex,
    IntegerLiteralOct,
    IntegerLiteralDec,
    FloatLiteral,
    EOF,
}

/// The name of `kind`.
pub open spec fn token_kind_name(kind: TokenKind) -> Seq<char> {
    match kind {
        TokenKind::Period => "Period"@,
        TokenKind::Slash => "Slash"@,
        TokenKind::Equals => "Equals"@,
        TokenKind::SemiColon => "SemiColon"@,
        TokenKind::Let => "Let"@,
        TokenKind::Identifier => "Identifier"@,
        TokenKind::StringLiteral => "StringLiteral"@,
        TokenKind::IntegerLiteralBin => "IntegerLiteralBin"@,
        TokenKind::IntegerLiteralHex => "IntegerLiteralHex"@,
        TokenKind::IntegerLiteralOct => "IntegerLiteralOct"@,
        TokenKind::IntegerLiteralDec => "IntegerLiteralDec"@,
        TokenKind::FloatLiteral => "FloatLiteral"@,
        TokenKind::EOF => "EOF"@,
    }
}

impl TokenKind {
    /// The name of the kind.
    pub fn name(self) -> (name: &'static str)
        ensures
            name@ == token_kind_name(self),
    {
        match self {
            TokenKind::Period => "Period",
            TokenKind::Slash => "Slash",
            TokenKind::Equals => "Equals",
            TokenKind::SemiColon => "SemiColon",
            TokenKind::Let => "Let",
            TokenKind::Identifier => "Identifier",
            TokenKind::StringLiteral => "StringLiteral",
            TokenKind::IntegerLiteralBin => "IntegerLiteralBin",
            TokenKind::IntegerLiteralHex => "IntegerLiteralHex",
            TokenKind::IntegerLiteralOct => "IntegerLiteralOct",
            TokenKind::IntegerLiteralDec => "IntegerLiteralDec",
            TokenKind::FloatLiteral => "FloatLiteral",
            TokenKind::EOF => "EOF",
        }
    }
}

/// A classified stretch of source text.
#[derive(Debug)]
pub struct Token {
    pub kind: TokenKind,
    pub span: Span,
    /// The text of the token. For a number this is the numeral as written,
    /// without its base prefix and without digit separators.
    pub text: String,
    /// Reserved: no scanner sets it yet.
    pub newline_before: bool,
}

/// The mathematical content of a [`Token`].
pub struct TokenView {
    pub kind: TokenKind,
    pub span: SpanView,
    pub text: Seq<char>,
    pub newline_before: bool,
}

impl View for Token {
    type V = TokenView;

    open spec fn view(&self) -> TokenView {
        TokenView {
            kind: self.kind,
            span: self.span@,
            text: self.text@,
            newline_before: self.newline_before,
        }
    }
}

impl Clone for Token {
    fn clone(&self) -> (copy: Self)
        ensures
            copy == *self,
    {
        Token {
            kind: self.kind,
            span: self.span.clone(),
            text: self.text.clone(),
            newline_before: self.newline_before,
        }
    }
}

/// The views of the tokens of `tokens`, in order.
pub open spec fn token_views(tokens: Seq<Token>) -> Seq<TokenView> {
    tokens.map_values(|t: Token| t@)
}

impl TokenView {
    /// The token of kind `kind` at `span` with the text `text`, not marked as
    /// following a line break.
    pub open spec fn new(kind: TokenKind, span: SpanView, text: Seq<char>) -> TokenView {
        TokenView { kind, span, text, newline_before: false }
    }
}

/// How a token is written, given its text between quotes: its kind, its
/// span and the quoted text, and a mark if it follows a line break.
pub open spec fn token_text_with(token: TokenView, quoted: Seq<char>) -> Seq<char> {
    "Token{"@ + token_kind_name(token.kind) + ", "@ + location_text(token.span) + ", "@ + quoted
        + (if token.newline_before {
        ", nl=true"@
    } else {
        Seq::empty()
    }) + "}"@
}

/// How a token is written: with its text as the standard library writes a
/// string for debugging.
pub open spec fn token_text(token: TokenView) -> Seq<char> {
    token_text_with(token, str_debug(token.text))
}

impl Token {
    /// The token of kind `kind` at `span` with the text `text`.
    pub fn new(kind: TokenKind, span: Span, text: String) -> (token: Self)
        ensures
            token == (Token { kind, span, text, newline_before: false }),
            token@ == TokenView::new(kind, span@, text@),
    {
        Token { kind, span, text, newline_before: false }
    }

    /// The token as text, with `quoted` for its text between quotes.
    pub fn to_string_with(&self, quoted: &str) -> (text: String)
        ensures
            text@ == token_text_with(self@, quoted@),
    {
        let mut text = "Token{".to_owned();
        text.append(self.kind.name());
        text.append(", ");
        text.append(self.span.to_string().as_str());
        text.append(", ");
        text.append(quoted);
        if self.newline_before {
            text.append(", nl=true");
        } else {
            assert(text@ + Seq::<char>::empty() =~= text@);
        }
        text.append("}");
        text
    }

    /// The token as text.
    pub fn to_string(&self) -> (text: String)
        ensures
            text@ == token_text(self@),
    {
        let quoted = debug_str(self.text.as_str());
        self.to_string_with(quoted.as_str())
    }
}

} // verus!
