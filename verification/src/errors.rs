use vstd::prelude::*;

verus! {

/// The error taxonomy of the lowering engine.
///
/// Every lowering operation either succeeds or fails the entire compilation
/// with one of these kinds; there is no partial or recovered compilation.
#[derive(Clone, Copy, PartialEq, Eq, Structural, Debug)]
pub enum LowerError {
    /// A declaration names a type keyword the registry does not recognize.
    UnknownType,
    /// A declaration rebinds a name that is already bound.
    DuplicateDeclaration,
    /// An assignment or expression names a variable never declared.
    UndeclaredVariable,
    /// A literal's text is malformed for its tagged kind (overflow,
    /// non-numeric text, more than one character scalar).
    LiteralParseError,
    /// A recognized feature with no lowering defined (string, pointer and
    /// null types and literals).
    Unsupported,
    /// A call names a function outside the closed runtime set.
    UnknownFunction,
    /// A runtime-function id is absent from the declaration table. The
    /// table is built exhaustively over a closed enum, so this kind is
    /// kept for taxonomy completeness and is never produced here.
    UnknownRuntimeFn,
}

/// A fatal diagnostic: the failing statement's position in the input
/// sequence, and the taxonomy kind of its failure.
#[derive(Clone, Copy, PartialEq, Eq, Structural, Debug)]
pub struct Diagnostic {
    /// Index of the failing statement in the lowered sequence.
    pub stmt_index: usize,
    /// What went wrong there.
    pub error: LowerError,
}

} // verus!
