//! The failures of a lexing or evaluation pass.
//!
//! A `Fatal` condition ends the pass. A typed failure of the object model
//! (`ObjError`) is kept apart from it, so that a caller can tell the two.

use vstd::prelude::*;
use crate::object::Capability;
use crate::object::ObjError;
use crate::object::ObjErrorView;
use crate::object::ObjType;
use crate::object::Oper;
use crate::token::LParen;
use crate::token::Quote;
use crate::token::RParen;

verus! {

/// A condition that ends the current pass. Positions count characters from
/// the start of the source text.
#[derive(Debug, PartialEq)]
pub enum Fatal {
    /// A dotted path ends in a separator. `pos` is where the path starts.
    BadPath { path: String, pos: usize },
    /// A backslash is followed by a character that names no escape. `pos`
    /// is where that character stands.
    UnknownEscape { ch: char, pos: usize },
    /// A text literal is not closed. `pos` is where its opening quote stands.
    UnterminatedText { quote: Quote, pos: usize },
    /// A block is closed by a bracket of another kind. `pos` is where the
    /// closing bracket stands.
    MismatchedBracket { open: LParen, found: RParen, pos: usize },
    /// A block is not closed. `pos` is where its opening bracket stands.
    UnterminatedBlock { open: LParen, pos: usize },
    /// A run of symbol characters is no sigil of the registry. `pos` is
    /// where the run starts.
    UnknownOperator { sigil: String, pos: usize },
    /// A character that starts no token stands in a statement. `pos` is
    /// where it stands.
    UnknownCharacter { ch: char, pos: usize },
    /// A character that starts no token was reached inside a block.
    UnknownToken { ch: char },
    /// An assignment sign stands where no assignment can be.
    StrayAssignment,
    /// A closing bracket stands outside any block.
    StrayBracket { found: RParen },
    /// The target of an assignment is not a bare identifier.
    BadAssignmentTarget,
    /// The right side of an assignment leaves no value.
    MissingValue,
    /// An identifier is not bound.
    UnboundIdentifier { name: String },
    /// A number literal stands for no 64-bit signed integer.
    BadNumber { raw: String },
    /// A square or curly block was reached; both are reserved.
    ReservedBlock { open: LParen },
    /// An operator ran with fewer than two operands on the stack.
    MissingOperand { oper: Oper },
    /// A capability was asked of a variant that does not implement it.
    MissingCapability { capability: Capability, variant: ObjType },
}

/// The mathematical value a `Fatal` stands for.
pub enum FatalView {
    BadPath { path: Seq<char>, pos: int },
    UnknownEscape { ch: char, pos: int },
    UnterminatedText { quote: Quote, pos: int },
    MismatchedBracket { open: LParen, found: RParen, pos: int },
    UnterminatedBlock { open: LParen, pos: int },
    UnknownOperator { sigil: Seq<char>, pos: int },
    UnknownCharacter { ch: char, pos: int },
    UnknownToken { ch: char },
    StrayAssignment,
    StrayBracket { found: RParen },
    BadAssignmentTarget,
    MissingValue,
    UnboundIdentifier { name: Seq<char> },
    BadNumber { raw: Seq<char> },
    ReservedBlock { open: LParen },
    MissingOperand { oper: Oper },
    MissingCapability { capability: Capability, variant: ObjType },
}

impl View for Fatal {
    type V = FatalView;

    open spec fn view(&self) -> FatalView {
        match *self {
            Fatal::BadPath { path, pos } => FatalView::BadPath { path: path@, pos: pos as int },
            Fatal::UnknownEscape { ch, pos } => FatalView::UnknownEscape { ch, pos: pos as int },
            Fatal::UnterminatedText { quote, pos } => FatalView::UnterminatedText {
                quote,
                pos: pos as int,
            },
            Fatal::MismatchedBracket { open, found, pos } => FatalView::MismatchedBracket {
                open,
                found,
                pos: pos as int,
            },
            Fatal::UnterminatedBlock { open, pos } => FatalView::UnterminatedBlock {
                open,
                pos: pos as int,
            },
            Fatal::UnknownOperator { sigil, pos } => FatalView::UnknownOperator {
                sigil: sigil@,
                pos: pos as int,
            },
            Fatal::UnknownCharacter { ch, pos } => FatalView::UnknownCharacter {
                ch,
                pos: pos as int,
            },
            Fatal::UnknownToken { ch } => FatalView::UnknownToken { ch },
            Fatal::StrayAssignment => FatalView::StrayAssignment,
            Fatal::StrayBracket { found } => FatalView::StrayBracket { found },
            Fatal::BadAssignmentTarget => FatalView::BadAssignmentTarget,
            Fatal::MissingValue => FatalView::MissingValue,
            Fatal::UnboundIdentifier { name } => FatalView::UnboundIdentifier { name: name@ },
            Fatal::BadNumber { raw } => FatalView::BadNumber { raw: raw@ },
            Fatal::ReservedBlock { open } => FatalView::ReservedBlock { open },
            Fatal::MissingOperand { oper } => FatalView::MissingOperand { oper },
            Fatal::MissingCapability { capability, variant } => FatalView::MissingCapability {
                capability,
                variant,
            },
        }
    }
}

/// A token kind that the grammar reserves and the evaluator does not yet
/// connect to a value.
#[derive(Clone, Copy, PartialEq, Eq, Debug, Structural)]
pub enum Reserved {
    Text,
    Path,
    Separator,
}

/// Why an evaluation has no result.
#[derive(Debug, PartialEq)]
pub enum EvalError {
    /// A condition that ends the pass.
    Fatal(Fatal),
    /// A reserved token kind was reached: a feature that is not there yet,
    /// not a fault of the program.
    Unimplemented(Reserved),
    /// A typed failure of the object model.
    Object(ObjError),
}

/// The mathematical value an `EvalError` stands for.
pub enum EvalErrorView {
    Fatal(FatalView),
    Unimplemented(Reserved),
    Object(ObjErrorView),
}

impl View for EvalError {
    type V = EvalErrorView;

    open spec fn view(&self) -> EvalErrorView {
        match *self {
            EvalError::Fatal(f) => EvalErrorView::Fatal(f@),
            EvalError::Unimplemented(r) => EvalErrorView::Unimplemented(r),
            EvalError::Object(e) => EvalErrorView::Object(e@),
        }
    }
}

/// How the evaluator takes a failure of the object model: a capability that
/// the variant lacks ends the pass, every other failure stays typed.
pub open spec fn spec_classify(e: ObjErrorView) -> EvalErrorView {
    match e {
        ObjErrorView::NotImplemented { capability, variant } => EvalErrorView::Fatal(
            FatalView::MissingCapability { capability, variant },
        ),
        _ => EvalErrorView::Object(e),
    }
}

/// How the evaluator takes a failure of the object model.
pub fn classify(e: ObjError) -> (r: EvalError)
    ensures
        r@ == spec_classify(e@),
{
    match e {
        ObjError::NotImplemented { capability, variant } => EvalError::Fatal(
            Fatal::MissingCapability { capability, variant },
        ),
        other => EvalError::Object(other),
    }
}

} // verus!
