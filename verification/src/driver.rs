//! The front end as a whole: a text is scanned and, if it is well formed,
//! parsed.

use crate::ast::{ASTKind, AST};
use crate::error::{report_views, ErrorReport};
use crate::grammar::lex;
use crate::laws::lemma_tokens_end_in_one_end_token;
use crate::lexer::Lexer;
use crate::parser::{atom_failure, Parser};
use crate::token::{token_views, Token, TokenKind, TokenView};
use std::rc::Rc;
use vstd::prelude::*;

verus! {

/// How far the front end came with a text.
pub enum Analysis {
    /// The text is malformed: it was scanned and not parsed.
    Unlexed { tokens: Vec<Token> },
    /// The tokens are no program.
    Unparsed { tokens: Vec<Token> },
    /// The text was parsed.
    Parsed { tokens: Vec<Token>, tree: Rc<AST> },
}

impl Analysis {
    /// The tokens of the text.
    pub open spec fn tokens(self) -> Seq<Token> {
        match self {
            Analysis::Unlexed { tokens } => tokens@,
            Analysis::Unparsed { tokens } => tokens@,
            Analysis::Parsed { tokens, .. } => tokens@,
        }
    }

    /// The exit status with which a program ends that came no further than
    /// this: 64 for a malformed text, 69 for tokens that are no program, and
    /// none where the text was parsed.
    pub fn exit_code(&self) -> (code: Option<i32>)
        ensures
            code == match *self {
                Analysis::Unlexed { .. } => Some(64i32),
                Analysis::Unparsed { .. } => Some(69i32),
                Analysis::Parsed { .. } => None,
            },
    {
        match self {
            Analysis::Unlexed { .. } => Some(64),
            Analysis::Unparsed { .. } => Some(69),
            Analysis::Parsed { .. } => None,
        }
    }
}

/// Scans `contents`, the text of the source called `filename`, and parses
/// its tokens unless the scan reported anything. All diagnostics go to the
/// end of `reports`, in the order in which they arose.
pub fn analyze(filename: String, contents: &str, reports: &mut Vec<ErrorReport>) -> (analysis:
    Analysis)
    ensures
        token_views(analysis.tokens()) == lex(contents@, filename@).tokens,
        lex(contents@, filename@).reports.len() > 0 ==> {
            &&& analysis is Unlexed
            &&& report_views(final(reports)@) == report_views(old(reports)@) + lex(
                contents@,
                filename@,
            ).reports
        },
        lex(contents@, filename@).reports.len() == 0 ==> match atom_failure(
            lex(contents@, filename@).tokens[0],
        ) {
            Some(failure) => {
                &&& analysis is Unparsed
                &&& report_views(final(reports)@) == report_views(old(reports)@).push(failure)
            },
            None => {
                &&& analysis matches Analysis::Parsed { tree, .. }
                &&& tree.span@ == lex(contents@, filename@).tokens[0].span
                &&& tree.kind matches ASTKind::StringLiteral(text)
                &&& text@ == lex(contents@, filename@).tokens[0].text
                &&& report_views(final(reports)@) == report_views(old(reports)@)
            },
        },
{
    let mut lexer = Lexer::new(filename, contents);
    lexer.lex_tokens(reports);
    let ghost lexed = lex(contents@, filename@);
    proof {
        lemma_tokens_end_in_one_end_token(contents@, filename@, 0);
        assert(token_views(Seq::<Token>::empty()) =~= Seq::<TokenView>::empty());
        assert(Seq::<TokenView>::empty() + lexed.tokens =~= lexed.tokens);
    }
    let failed = lexer.had_error();
    let tokens = lexer.into_tokens();
    assert(token_views(tokens@) == lexed.tokens);
    if failed {
        return Analysis::Unlexed { tokens };
    }
    assert(report_views(reports@) =~= report_views(old(reports)@)) by {
        assert(report_views(old(reports)@) + lexed.reports =~= report_views(old(reports)@));
    }
    assert(tokens@.len() == lexed.tokens.len());
    assert(tokens@[0]@ == lexed.tokens[0]);
    assert(tokens@[0].kind == TokenKind::StringLiteral ==> tokens@.len() > 1) by {
        assert(lexed.tokens.last().kind == TokenKind::EOF);
    }
    let mut parser = Parser::new(tokens.as_slice());
    let parsed = parser.parse(reports);
    match parsed {
        Some(tree) => Analysis::Parsed { tokens, tree },
        None => Analysis::Unparsed { tokens },
    }
}

} // verus!
