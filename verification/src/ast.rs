//! Syntax trees.

use crate::span::Span;
use std::rc::Rc;
use vstd::prelude::*;

verus! {

/// What a node of the syntax tree is.
pub enum ASTKind {
    StringLiteral(String),
    IntegerLiteral(isize),
    /// A floating-point number, held as the bits of its IEEE 754 binary64
    /// form.
    FloatLiteral(u64),
    Add(Rc<AST>, Rc<AST>),
}

/// A node of the syntax tree, with the stretch of source it stands for.
pub struct AST {
    pub span: Span,
    pub kind: ASTKind,
}

impl AST {
    /// The node of kind `kind` that stands for `span`.
    pub fn new(span: Span, kind: ASTKind) -> (node: Self)
        ensures
            node == (AST { span, kind }),
    {
        AST { span, kind }
    }
}

} // verus!
