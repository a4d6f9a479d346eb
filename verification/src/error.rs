//! Errors of constant evaluation, and the ways an evaluation can end
//! without a value.

use crate::access::AccessError;
use crate::span::{Span, Spanned};
use crate::text::{decimal, decimal_string};
use crate::value::{IrValue, ValueKind, ValueV};
use vstd::prelude::*;
use vstd::std_specs::convert::FromSpecImpl;
use vstd::string::*;

verus! {

/// What went wrong.
#[derive(Clone, Copy, Debug, PartialEq, Eq, Structural)]
#[allow(inconsistent_fields)]
pub enum IrErrorKind {
    /// The budget of the evaluation is used up.
    BudgetExceeded,
    /// An expression that cannot be evaluated at compile time.
    NotConst,
    /// A break that no loop caught.
    BreakOutsideOfLoop,
    /// A value of one category stood where another was needed.
    Expected { expected: ValueKind, actual: ValueKind },
    /// An integer division by zero.
    DivisionByZero,
    /// A shift amount that does not fit in 32 unsigned bits.
    BadShiftOperand,
    /// A break with a value inside a loop that has a condition.
    BreakWithValue,
    /// An assignment between values that cannot be combined.
    UnsupportedOperands,
    /// A name that no scope binds.
    MissingLocal,
    /// An object without the field asked for.
    MissingField,
    /// A vector or tuple without the index asked for.
    MissingIndex { index: usize },
    /// A scope was needed and there was none.
    MissingScope,
    /// A scope was closed out of turn.
    ScopeMismatch,
    /// A constant function called with the wrong number of arguments.
    ArgumentCountMismatch { actual: usize, expected: usize },
    /// A shared cell could not be borrowed.
    Access { error: AccessError },
}

impl IrErrorKind {
    /// How the error reads.
    pub open spec fn message(self) -> Seq<char> {
        match self {
            IrErrorKind::BudgetExceeded => "budget exceeded"@,
            IrErrorKind::NotConst => "not a constant expression"@,
            IrErrorKind::BreakOutsideOfLoop => "break outside of loop"@,
            IrErrorKind::Expected { expected, actual } => "expected `"@ + expected.name()
                + "` but got `"@ + actual.name() + "`"@,
            IrErrorKind::DivisionByZero => "division by zero"@,
            IrErrorKind::BadShiftOperand => "cannot be converted to shift operand"@,
            IrErrorKind::BreakWithValue => "break with value is not supported for conditional loops"@,
            IrErrorKind::UnsupportedOperands => "unsupported operands"@,
            IrErrorKind::MissingLocal => "missing local"@,
            IrErrorKind::MissingField => "missing field"@,
            IrErrorKind::MissingIndex { index } => "missing index "@ + decimal(index as nat),
            IrErrorKind::MissingScope => "expected at least one scope"@,
            IrErrorKind::ScopeMismatch => "scope length mismatch"@,
            IrErrorKind::ArgumentCountMismatch { actual, expected } => "argument count mismatch, got "@
                + decimal(actual as nat) + " but expected "@ + decimal(expected as nat),
            IrErrorKind::Access { error } => error.message(),
        }
    }

    /// Renders the error.
    pub fn to_string(&self) -> (s: String)
        ensures
            s@ == self.message(),
    {
        match self {
            IrErrorKind::BudgetExceeded => String::from_str("budget exceeded"),
            IrErrorKind::NotConst => String::from_str("not a constant expression"),
            IrErrorKind::BreakOutsideOfLoop => String::from_str("break outside of loop"),
            IrErrorKind::Expected { expected, actual } => {
                let mut s = String::from_str("expected `");
                s.append(expected.as_str());
                s.append("` but got `");
                s.append(actual.as_str());
                s.append("`");
                s
            },
            IrErrorKind::DivisionByZero => String::from_str("division by zero"),
            IrErrorKind::BadShiftOperand => String::from_str("cannot be converted to shift operand"),
            IrErrorKind::BreakWithValue => String::from_str(
                "break with value is not supported for conditional loops",
            ),
            IrErrorKind::UnsupportedOperands => String::from_str("unsupported operands"),
            IrErrorKind::MissingLocal => String::from_str("missing local"),
            IrErrorKind::MissingField => String::from_str("missing field"),
            IrErrorKind::MissingIndex { index } => {
                let mut s = String::from_str("missing index ");
                s.append(decimal_string(*index).as_str());
                s
            },
            IrErrorKind::MissingScope => String::from_str("expected at least one scope"),
            IrErrorKind::ScopeMismatch => String::from_str("scope length mismatch"),
            IrErrorKind::ArgumentCountMismatch { actual, expected } => {
                let mut s = String::from_str("argument count mismatch, got ");
                s.append(decimal_string(*actual).as_str());
                s.append(" but expected ");
                s.append(decimal_string(*expected).as_str());
                s
            },
            IrErrorKind::Access { error } => error.to_string(),
        }
    }
}

/// An error of constant evaluation: what went wrong, and where.
#[derive(Clone, Copy, Debug, PartialEq, Eq, Structural)]
pub struct IrError {
    pub span: Span,
    pub kind: IrErrorKind,
}

impl IrError {
    /// The error `kind` at `span`.
    pub fn new(span: Span, kind: IrErrorKind) -> (error: IrError)
        ensures
            error == (IrError { span, kind }),
    {
        IrError { span, kind }
    }

    /// The error that `actual` stood at `span` where a value of the category
    /// `expected` was needed.
    pub fn expected(span: Span, expected: ValueKind, actual: &IrValue) -> (error: IrError)
        ensures
            error == expected_error(span, expected, actual@),
    {
        IrError { span, kind: IrErrorKind::Expected { expected, actual: actual.kind() } }
    }

    /// The error that a shared cell could not be borrowed at `span`.
    pub fn access(span: Span, error: AccessError) -> (r: IrError)
        ensures
            r == access_error(span, error),
    {
        IrError { span, kind: IrErrorKind::Access { error } }
    }

    /// Renders the error without its place.
    pub fn to_string(&self) -> (s: String)
        ensures
            s@ == self.kind.message(),
    {
        self.kind.to_string()
    }
}

impl Spanned for IrError {
    open spec fn spanned(&self) -> Span {
        self.span
    }

    fn span(&self) -> (span: Span) {
        self.span
    }
}

/// The error that `actual` stood at `span` where a value of the category
/// `expected` was needed.
pub open spec fn expected_error(span: Span, expected: ValueKind, actual: ValueV) -> IrError {
    IrError { span, kind: IrErrorKind::Expected { expected, actual: actual.kind() } }
}

/// The error that a shared cell could not be borrowed at `span`.
pub open spec fn access_error(span: Span, error: AccessError) -> IrError {
    IrError { span, kind: IrErrorKind::Access { error } }
}

/// How a break leaves a loop.
#[derive(Debug)]
pub enum IrEvalBreak {
    /// Leave the innermost loop.
    Inherent,
    /// Leave the innermost loop with a value.
    Value(IrValue),
    /// Leave the nearest loop that has this label.
    Label(String),
}

/// What an [`IrEvalBreak`] stands for.
pub enum BreakV {
    Inherent,
    Value(ValueV),
    Label(Seq<char>),
}

impl View for IrEvalBreak {
    type V = BreakV;

    open spec fn view(&self) -> BreakV {
        match *self {
            IrEvalBreak::Inherent => BreakV::Inherent,
            IrEvalBreak::Value(v) => BreakV::Value(v@),
            IrEvalBreak::Label(l) => BreakV::Label(l@),
        }
    }
}

/// How an evaluation ends when it yields no value.
#[derive(Debug)]
pub enum IrEvalOutcome {
    /// The expression is legal but cannot be evaluated at compile time.
    NotConst(Span),
    /// A hard error.
    Error(IrError),
    /// A break on its way to the loop that catches it.
    Break(Span, IrEvalBreak),
}

/// What an [`IrEvalOutcome`] stands for.
pub enum OutcomeV {
    NotConst(Span),
    Error(IrError),
    Break(Span, BreakV),
}

impl View for IrEvalOutcome {
    type V = OutcomeV;

    open spec fn view(&self) -> OutcomeV {
        match *self {
            IrEvalOutcome::NotConst(span) => OutcomeV::NotConst(span),
            IrEvalOutcome::Error(error) => OutcomeV::Error(error),
            IrEvalOutcome::Break(span, b) => OutcomeV::Break(span, b@),
        }
    }
}

impl IrEvalOutcome {
    /// The outcome that what stands at `spanned` is no constant expression.
    pub fn not_const<S: Spanned>(spanned: &S) -> (outcome: IrEvalOutcome)
        ensures
            outcome@ == OutcomeV::NotConst(spanned.spanned()),
    {
        IrEvalOutcome::NotConst(spanned.span())
    }
}

impl From<IrError> for IrEvalOutcome {
    fn from(error: IrError) -> (outcome: IrEvalOutcome) {
        IrEvalOutcome::Error(error)
    }
}

impl FromSpecImpl<IrError> for IrEvalOutcome {
    open spec fn obeys_from_spec() -> bool {
        true
    }

    open spec fn from_spec(error: IrError) -> IrEvalOutcome {
        IrEvalOutcome::Error(error)
    }
}

} // verus!
