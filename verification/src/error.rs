use vstd::prelude::*;

use crate::lex::{Pos, PosV, TokKind};
use crate::types::Datatype;

verus! {

/// What went wrong while compiling a program.
#[derive(Debug, PartialEq, Eq, Structural, Clone, Copy)]
pub enum ErrorKind {
    /// A backslash in a literal is followed by a byte that is no escape.
    InvalidEscape(u8),
    /// A token would start before the first column of its line.
    PositionUnderflow,
    /// A token holds no bytes.
    EmptyToken,
    /// A token is none of the words, symbols or literals of the language.
    InvalidToken,
    /// An identifier holds a byte that identifiers may not hold.
    InvalidIdentChar(u8),
    /// A token is no valid UTF-8 text.
    InvalidUtf8,
    /// The tokens ran out where another one was needed.
    UnexpectedEnd,
    /// A type was expected.
    ExpectedType,
    /// A token of the given kind was expected.
    ExpectedToken(TokKind),
    /// A token of one of several kinds was expected.
    ExpectedOneOf,
    /// The source holds no tokens.
    EmptyProgram,
    /// Only functions and includes may stand at the top level.
    UnexpectedTopLevel,
    /// An expression was expected.
    ExpectedFactor,
    /// A statement was expected.
    ExpectedStatement,
    /// An assignment or a function call was expected.
    ExpectedAssignOrCall,
    /// No node of the tree carries the token.
    NodeNotFound,
    /// A variable has no known type.
    UnknownVarType,
    /// A variable is used that was not declared.
    VarNotFound,
    /// A function is called that was not declared.
    FuncNotFound,
    /// A node that cannot stand in an expression stands in one.
    UnexpectedExprNode,
    /// Values of two types that do not mix are mixed: expected, got.
    MixedTypes(Datatype, Datatype),
    /// An expression has no type.
    NoExprType,
    /// A subscript is not a number.
    SubscriptNotInt(Datatype),
    /// A value of this type cannot be subscripted.
    CannotSubscript(Datatype),
    /// A value of this type cannot be dereferenced.
    CannotDeref(Datatype),
    /// A function returns a value of the wrong type: expected, got.
    InvalidReturnType(Datatype, Datatype),
    /// A value cannot be assigned: its type, the target's type.
    CannotAssign(Datatype, Datatype),
    /// A system call is given something that is neither a number nor a pointer.
    SyscallArg,
    /// A function is called with too many or too few arguments.
    ArgCount,
    /// A function is given an argument of the wrong type: expected, got.
    ArgType(Datatype, Datatype),
    /// A condition is not a number.
    CondType(Datatype),
    /// A function has no parameter list.
    MissingSignature,
    /// A node does not have the children that its kind has.
    MalformedTree,
    /// A call, a system call or a function has more arguments than there
    /// are registers to pass them in.
    TooManyArgs,
    /// A variable is declared again in a scope where it is declared.
    Redeclared,
    /// A `break` or `continue` stands outside a loop.
    InvalidScope,
    /// A node that has no code of its own is asked for code.
    UnexpectedNode,
    /// A function has no body.
    MissingBody,
    /// An assignment writes to something that cannot be written to.
    UnexpectedAssignTarget,
    /// An integer literal holds a byte below `0`, or does not fit in 64 bits.
    IntLiteralRange,
    /// A position cannot be counted from 1 in 32 bits.
    PositionOverflow,
    /// The stack frame of a function outgrows 64-bit offsets.
    FrameTooLarge,
}

/// An error with the position and the text of the offending token.
#[derive(Debug)]
pub struct CompileError {
    pub kind: ErrorKind,
    pub pos: Pos,
    pub text: Vec<u8>,
}

/// The mathematical value of a `CompileError`.
pub struct ErrV {
    pub kind: ErrorKind,
    pub pos: PosV,
    pub text: Seq<u8>,
}

impl View for CompileError {
    type V = ErrV;

    open spec fn view(&self) -> ErrV {
        ErrV { kind: self.kind, pos: self.pos@, text: self.text@ }
    }
}

/// A result with its value and its error taken as values.
pub open spec fn res_view<T: View>(r: Result<T, CompileError>) -> Result<T::V, ErrV> {
    match r {
        Ok(x) => Ok(x@),
        Err(e) => Err(e@),
    }
}

} // verus!
