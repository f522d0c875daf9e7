use vstd::prelude::*;
use crate::enums::{Token, TokenView};

verus! {

/// Why parsing stopped. `found` is the token at `position`, `None` at the end
/// of the tokens.
#[derive(Debug, PartialEq)]
pub enum ParseError {
    /// The token `expected` was required.
    UnexpectedToken { expected: Token, found: Option<Token>, position: usize },
    /// An identifier was required.
    ExpectedIdentifier { found: Option<Token>, position: usize },
    /// A number was required, behind a minus sign.
    ExpectedNumber { found: Option<Token>, position: usize },
    /// An expression was required, and no expression starts with `found`.
    ExpectedExpression { found: Option<Token>, position: usize },
    /// The number at `position`, behind a minus sign, has no negative in 32 bits.
    LiteralOutOfRange { position: usize },
}

/// The mathematical model of a [`ParseError`].
pub enum ParseErrorView {
    UnexpectedToken { expected: TokenView, found: Option<TokenView>, position: int },
    ExpectedIdentifier { found: Option<TokenView>, position: int },
    ExpectedNumber { found: Option<TokenView>, position: int },
    ExpectedExpression { found: Option<TokenView>, position: int },
    LiteralOutOfRange { position: int },
}

/// The model of an optional token.
pub open spec fn found_view(found: Option<Token>) -> Option<TokenView> {
    match found {
        Some(t) => Some(t@),
        None => None,
    }
}

impl View for ParseError {
    type V = ParseErrorView;

    open spec fn view(&self) -> ParseErrorView {
        match self {
            ParseError::UnexpectedToken { expected, found, position } => {
                ParseErrorView::UnexpectedToken {
                    expected: expected@,
                    found: found_view(*found),
                    position: *position as int,
                }
            },
            ParseError::ExpectedIdentifier { found, position } => {
                ParseErrorView::ExpectedIdentifier {
                    found: found_view(*found),
                    position: *position as int,
                }
            },
            ParseError::ExpectedNumber { found, position } => ParseErrorView::ExpectedNumber {
                found: found_view(*found),
                position: *position as int,
            },
            ParseError::ExpectedExpression { found, position } => {
                ParseErrorView::ExpectedExpression {
                    found: found_view(*found),
                    position: *position as int,
                }
            },
            ParseError::LiteralOutOfRange { position } => ParseErrorView::LiteralOutOfRange {
                position: *position as int,
            },
        }
    }
}

/// Why evaluation stopped.
#[derive(Debug, PartialEq)]
pub enum EvalError {
    /// A variable was read that the environment does not bind.
    UndefinedVariable { name: String },
    /// A function was called that the function table does not hold.
    UndefinedFunction { name: String },
    /// An operator met operands of kinds it is not defined for.
    TypeMismatch,
    /// A division by zero, with both operands.
    DivisionByZero { lhs: i32, rhs: i32 },
    /// The body of the called function ended without a `return`.
    MissingReturnValue { name: String },
    /// The exact result of an arithmetic operation does not fit in 32 bits.
    Overflow,
    /// Calls were nested deeper than the limit that evaluation was given.
    CallDepthExceeded,
    /// A host function refused its arguments.
    InvalidArgument,
}

/// The mathematical model of an [`EvalError`].
pub enum EvalErrorView {
    UndefinedVariable { name: Seq<char> },
    UndefinedFunction { name: Seq<char> },
    TypeMismatch,
    DivisionByZero { lhs: i32, rhs: i32 },
    MissingReturnValue { name: Seq<char> },
    Overflow,
    CallDepthExceeded,
    InvalidArgument,
}

impl View for EvalError {
    type V = EvalErrorView;

    open spec fn view(&self) -> EvalErrorView {
        match self {
            EvalError::UndefinedVariable { name } => EvalErrorView::UndefinedVariable {
                name: name@,
            },
            EvalError::UndefinedFunction { name } => EvalErrorView::UndefinedFunction {
                name: name@,
            },
            EvalError::TypeMismatch => EvalErrorView::TypeMismatch,
            EvalError::DivisionByZero { lhs, rhs } => EvalErrorView::DivisionByZero {
                lhs: *lhs,
                rhs: *rhs,
            },
            EvalError::MissingReturnValue { name } => EvalErrorView::MissingReturnValue {
                name: name@,
            },
            EvalError::Overflow => EvalErrorView::Overflow,
            EvalError::CallDepthExceeded => EvalErrorView::CallDepthExceeded,
            EvalError::InvalidArgument => EvalErrorView::InvalidArgument,
        }
    }
}

impl Clone for EvalError {
    fn clone(&self) -> (r: Self)
        ensures
            r@ == self@,
    {
        match self {
            EvalError::UndefinedVariable { name } => EvalError::UndefinedVariable {
                name: name.clone(),
            },
            EvalError::UndefinedFunction { name } => EvalError::UndefinedFunction {
                name: name.clone(),
            },
            EvalError::TypeMismatch => EvalError::TypeMismatch,
            EvalError::DivisionByZero { lhs, rhs } => EvalError::DivisionByZero {
                lhs: *lhs,
                rhs: *rhs,
            },
            EvalError::MissingReturnValue { name } => EvalError::MissingReturnValue {
                name: name.clone(),
            },
            EvalError::Overflow => EvalError::Overflow,
            EvalError::CallDepthExceeded => EvalError::CallDepthExceeded,
            EvalError::InvalidArgument => EvalError::InvalidArgument,
        }
    }
}

} // verus!
