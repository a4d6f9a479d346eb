//! The tree that the evaluator walks.
//!
//! An [`Ir`] is built once and never changed. Every node carries the span of
//! the source it came from.

use crate::span::{Span, Spanned};
use crate::value::IrValue;
use num_bigint::BigInt;
use vstd::prelude::*;

verus! {

/// A binary operator.
#[derive(Clone, Copy, Debug, PartialEq, Eq, Structural)]
pub enum IrBinaryOp {
    Add,
    Sub,
    Mul,
    Div,
    Shl,
    Shr,
    Lt,
    Lte,
    Eq,
    Gt,
    Gte,
}

/// The operator of a compound assignment.
#[derive(Clone, Copy, Debug, PartialEq, Eq, Structural)]
pub enum IrAssignOp {
    Add,
    Sub,
    Mul,
    Div,
    Shl,
    Shr,
}

/// A node of the tree.
#[derive(Debug)]
pub struct Ir {
    pub span: Span,
    pub kind: IrKind,
}

/// The kinds of node.
#[derive(Debug)]
pub enum IrKind {
    /// A block with a scope of its own.
    Scope(IrScope),
    /// A binary operation.
    Binary(IrBinary),
    /// The declaration of a name.
    Decl(IrDecl),
    /// A write to a target.
    SetTarget(IrSet),
    /// A compound assignment to a target.
    Assign(IrAssign),
    /// A string put together from parts.
    Template(IrTemplate),
    /// The value of a name.
    Name(String),
    /// The value of a target.
    Target(IrTarget),
    /// A constant.
    Value(IrValue),
    /// A chain of conditional branches.
    Branches(IrBranches),
    /// A loop.
    Loop(IrLoop),
    /// A break out of a loop.
    Break(IrBreak),
    /// A vector of the values of its items.
    Vec(IrVec),
    /// A tuple of the values of its items.
    Tuple(IrTuple),
    /// An object of the values of its fields.
    Object(IrObject),
    /// A call of a constant function.
    Call(IrCall),
}

/// A block: instructions run for their effect, then an optional expression
/// that gives the value of the block.
#[derive(Debug)]
pub struct IrScope {
    pub span: Span,
    pub instructions: Vec<Ir>,
    pub last: Option<Box<Ir>>,
}

/// A binary operation.
#[derive(Debug)]
pub struct IrBinary {
    pub span: Span,
    pub op: IrBinaryOp,
    pub lhs: Box<Ir>,
    pub rhs: Box<Ir>,
}

/// The declaration of `name` with the value of `value`.
#[derive(Debug)]
pub struct IrDecl {
    pub span: Span,
    pub name: String,
    pub value: Box<Ir>,
}

/// A place to read or write: a name, or a field or index of another place.
#[derive(Debug)]
pub struct IrTarget {
    pub span: Span,
    pub kind: IrTargetKind,
}

/// The kinds of place.
#[derive(Debug)]
pub enum IrTargetKind {
    /// The binding of a name.
    Name(String),
    /// A field of an object.
    Field(Box<IrTarget>, String),
    /// An item of a vector or a tuple.
    Index(Box<IrTarget>, usize),
}

/// A write of the value of `value` to `target`.
#[derive(Debug)]
pub struct IrSet {
    pub span: Span,
    pub target: IrTarget,
    pub value: Box<Ir>,
}

/// A compound assignment of the value of `value` to `target`.
#[derive(Debug)]
pub struct IrAssign {
    pub span: Span,
    pub target: IrTarget,
    pub value: Box<Ir>,
    pub op: IrAssignOp,
}

/// A part of a template.
#[derive(Debug)]
pub enum IrTemplateComponent {
    /// An expression whose value is rendered.
    Ir(Ir),
    /// A literal piece of text.
    String(String),
}

/// A string put together from parts.
#[derive(Debug)]
pub struct IrTemplate {
    pub span: Span,
    pub components: Vec<IrTemplateComponent>,
}

/// A literal in a pattern.
#[derive(Debug)]
pub enum IrLit {
    Bool(bool),
    Integer(BigInt),
    String(String),
}

/// A pattern.
#[derive(Debug)]
pub struct IrPat {
    pub span: Span,
    pub kind: IrPatKind,
}

/// The kinds of pattern.
#[derive(Debug)]
pub enum IrPatKind {
    /// Matches anything and binds nothing.
    Ignore,
    /// Matches anything and binds it to the name.
    Binding(String),
    /// Matches a value equal to the literal.
    Lit(IrLit),
    /// Matches a tuple of as many items, item by item.
    Tuple(Vec<IrPat>),
    /// Matches an object field by field. Without the rest marker the object
    /// may hold no more fields than the pattern names.
    Object(Vec<(String, IrPat)>, bool),
}

/// A conditional binding `let pat = ir`.
#[derive(Debug)]
pub struct IrLet {
    pub span: Span,
    pub pat: IrPat,
    pub ir: Ir,
}

/// The condition of a branch or a loop.
#[derive(Debug)]
pub enum IrCondition {
    /// An expression that gives a boolean.
    Ir(Ir),
    /// A pattern match that may bind names.
    Let(IrLet),
}

/// A chain of conditional branches with an optional default.
#[derive(Debug)]
pub struct IrBranches {
    pub branches: Vec<(IrCondition, IrScope)>,
    pub default_branch: Option<IrScope>,
}

/// A loop.
#[derive(Debug)]
pub struct IrLoop {
    pub span: Span,
    pub label: Option<String>,
    pub condition: Option<Box<IrCondition>>,
    pub body: IrScope,
}

/// A break out of a loop.
#[derive(Debug)]
pub struct IrBreak {
    pub span: Span,
    pub label: Option<String>,
    pub value: Option<Box<Ir>>,
}

/// A vector of the values of its items.
#[derive(Debug)]
pub struct IrVec {
    pub span: Span,
    pub items: Vec<Ir>,
}

/// A tuple of the values of its items.
#[derive(Debug)]
pub struct IrTuple {
    pub span: Span,
    pub items: Vec<Ir>,
}

/// An object of the values of its fields.
#[derive(Debug)]
pub struct IrObject {
    pub span: Span,
    pub assignments: Vec<(String, Ir)>,
}

/// A call of the constant function registered under `target`.
#[derive(Debug)]
pub struct IrCall {
    pub span: Span,
    pub target: u64,
    pub args: Vec<Ir>,
}

impl Spanned for Ir {
    open spec fn spanned(&self) -> Span {
        self.span
    }

    fn span(&self) -> (span: Span) {
        self.span
    }
}

impl Spanned for IrScope {
    open spec fn spanned(&self) -> Span {
        self.span
    }

    fn span(&self) -> (span: Span) {
        self.span
    }
}

impl Spanned for IrTarget {
    open spec fn spanned(&self) -> Span {
        self.span
    }

    fn span(&self) -> (span: Span) {
        self.span
    }
}

impl Spanned for IrCondition {
    open spec fn spanned(&self) -> Span {
        match self {
            IrCondition::Ir(ir) => ir.span,
            IrCondition::Let(ir_let) => ir_let.span,
        }
    }

    fn span(&self) -> (span: Span) {
        match self {
            IrCondition::Ir(ir) => ir.span,
            IrCondition::Let(ir_let) => ir_let.span,
        }
    }
}

} // verus!
