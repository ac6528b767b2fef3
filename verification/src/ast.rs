use vstd::prelude::*;

verus! {

/// A literal expression node: the tagged kind from the grammar, with the
/// raw lexeme text where one exists.
#[derive(Clone, PartialEq, Eq, Debug)]
pub enum Lit {
    /// A base-10 integer lexeme.
    Number(String),
    /// A single character scalar.
    Char(String),
    /// A string literal (no lowering is defined for these).
    Str(String),
    /// `true` or `false`.
    Boolean(String),
    /// The `null` literal (no lowering is defined for it).
    Null,
}

/// An expression node: a literal, or an identifier that is resolved
/// eagerly against the symbol table when the expression is lowered.
#[derive(Clone, PartialEq, Eq, Debug)]
pub enum Expr {
    Literal(Lit),
    Identifier(String),
}

/// A top-level statement node, tagged with its rule kind from the closed
/// set the grammar produces.
#[derive(Clone, PartialEq, Eq, Debug)]
pub enum Stmt {
    /// `declare <identifier>: <typing>;`
    VarDeclaration { identifier: String, typing: String },
    /// `<identifier> = <literal>;`
    VarDefinition { identifier: String, value: Lit },
    /// `<identifier>(<expression>, ...);`
    FnCall { identifier: String, args: Vec<Expr> },
    /// The end-of-input marker; lowers to nothing.
    EndOfInput,
}

} // verus!
