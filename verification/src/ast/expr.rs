//! Expressions, and what they are made of.

use crate::ast::token::{attribute_tokens, attributed_span, span_with_attributes, Attribute, Token};
use crate::span::{Span, Spanned};
use vstd::prelude::*;

verus! {

/// An expression.
#[derive(Debug)]
pub enum Expr {
    /// A literal.
    Lit(Token),
    /// A path.
    Path(Token),
    /// A negation, `-expr`.
    Unary(Token, Box<Expr>),
    /// A block.
    Block(ExprBlock),
    /// A break.
    Break(ExprBreak),
    /// A return.
    Return(ExprReturn),
    /// A yield.
    Yield(ExprYield),
    /// An await.
    Await(ExprAwait),
    /// A literal vector.
    Vec(ExprVec),
}

/// Things that we can break on.
#[derive(Debug)]
pub enum ExprBreakValue {
    /// Breaking a value out of a loop.
    Expr(Box<Expr>),
    /// Break and jump to the given label.
    Label(crate::ast::token::Label),
}

/// A break expression `break [expr]`.
#[derive(Debug)]
pub struct ExprBreak {
    /// The break token.
    pub break_: Token,
    /// An optional expression or label to break with.
    pub expr: Option<ExprBreakValue>,
}

/// A return expression `return [expr]`.
#[derive(Debug)]
pub struct ExprReturn {
    /// The attributes of the `return` statement.
    pub attributes: Vec<Attribute>,
    /// The return token.
    pub return_token: Token,
    /// An optional expression to return.
    pub expr: Option<Box<Expr>>,
}

/// A `yield [expr]` expression to return a value from a generator.
#[derive(Debug)]
pub struct ExprYield {
    /// The attributes of the `yield`.
    pub attributes: Vec<Attribute>,
    /// The yield token.
    pub yield_token: Token,
    /// An optional expression to yield.
    pub expr: Option<Box<Expr>>,
}

/// An await expression `<expr>.await`.
#[derive(Debug)]
pub struct ExprAwait {
    /// Attributes associated with expression.
    pub attributes: Vec<Attribute>,
    /// The expression being awaited.
    pub expr: Box<Expr>,
    /// The dot separating the expression.
    pub dot: Token,
    /// The await token.
    pub await_token: Token,
}

/// Items between brackets, each with the comma that follows it, if one
/// does.
#[derive(Debug)]
pub struct Bracketed {
    pub open: Token,
    pub items: Vec<(Expr, Option<Token>)>,
    pub close: Token,
}

/// A literal vector.
#[derive(Debug)]
pub struct ExprVec {
    /// Attributes associated with vector.
    pub attributes: Vec<Attribute>,
    /// Items in the vector.
    pub items: Bracketed,
}

/// A statement of a block.
#[derive(Debug)]
pub enum Stmt {
    /// An expression.
    Expr(Expr),
    /// An expression that a semicolon ends.
    Semi(Expr, Token),
}

/// A block: statements between braces.
#[derive(Debug)]
pub struct Block {
    pub open: Token,
    pub statements: Vec<Stmt>,
    pub close: Token,
}

/// A block of expressions.
#[derive(Debug)]
pub struct ExprBlock {
    /// The attributes for the block.
    pub attributes: Vec<Attribute>,
    /// The block.
    pub block: Block,
}

/// A function without parameters, `fn name() { .. }`.
#[derive(Debug)]
pub struct ItemFn {
    pub fn_: Token,
    pub name: Token,
    pub open: Token,
    pub close: Token,
    pub body: Block,
}

/// The tokens of the first `n` statements.
pub open spec fn statement_tokens(statements: Seq<Stmt>, n: nat) -> Seq<Token>
    decreases statements, n,
{
    if n == 0 || n > statements.len() {
        Seq::empty()
    } else {
        statement_tokens(statements, (n - 1) as nat) + statements[n - 1].tokens()
    }
}

/// The tokens of an item of a vector: those of the expression, and the
/// comma if there is one.
pub open spec fn item_tokens(item: (Expr, Option<Token>)) -> Seq<Token>
    decreases item, 0nat,
{
    match item.1 {
        Some(comma) => item.0.tokens().push(comma),
        None => item.0.tokens(),
    }
}

/// The tokens of the first `n` items.
pub open spec fn items_tokens(items: Seq<(Expr, Option<Token>)>, n: nat) -> Seq<Token>
    decreases items, n,
{
    if n == 0 || n > items.len() {
        Seq::empty()
    } else {
        items_tokens(items, (n - 1) as nat) + item_tokens(items[n - 1])
    }
}

/// Whether the expressions of the first `n` statements are constant.
pub open spec fn statements_constant(statements: Seq<Stmt>, n: nat) -> bool
    decreases statements, n,
{
    if n == 0 || n > statements.len() {
        true
    } else {
        statements_constant(statements, (n - 1) as nat) && statements[n - 1].expr().constant()
    }
}

/// The tokens of an optional expression.
pub open spec fn optional_tokens(expr: Option<Box<Expr>>) -> Seq<Token>
    decreases expr, 0nat,
{
    match expr {
        Some(expr) => expr.tokens(),
        None => Seq::empty(),
    }
}

impl Stmt {
    /// The expression of the statement.
    pub open spec fn expr(self) -> Expr {
        match self {
            Stmt::Expr(expr) => expr,
            Stmt::Semi(expr, _) => expr,
        }
    }

    /// The tokens that the statement is made of.
    pub open spec fn tokens(self) -> Seq<Token>
        decreases self, 0nat,
    {
        match self {
            Stmt::Expr(expr) => expr.tokens(),
            Stmt::Semi(expr, semi) => expr.tokens().push(semi),
        }
    }
}

impl Expr {
    /// The tokens that the expression is made of.
    pub open spec fn tokens(self) -> Seq<Token>
        decreases self, 0nat,
    {
        match self {
            Expr::Lit(token) => seq![token],
            Expr::Path(token) => seq![token],
            Expr::Unary(op, expr) => seq![op] + expr.tokens(),
            Expr::Block(block) => block.tokens(),
            Expr::Break(b) => b.tokens(),
            Expr::Return(r) => r.tokens(),
            Expr::Yield(y) => y.tokens(),
            Expr::Await(a) => a.tokens(),
            Expr::Vec(v) => v.tokens(),
        }
    }

    /// Whether the expression is a constant expression: a literal, or a
    /// block of constant expressions.
    pub open spec fn constant(self) -> bool
        decreases self, 0nat,
    {
        match self {
            Expr::Lit(_) => true,
            Expr::Block(block) => block.constant(),
            _ => false,
        }
    }

    /// The span of the expression.
    pub open spec fn spanned(self) -> Span
        decreases self, 0nat,
    {
        match self {
            Expr::Lit(token) => token.span,
            Expr::Path(token) => token.span,
            Expr::Unary(op, expr) => op.span.spec_join(expr.spanned()),
            Expr::Block(block) => Spanned::spanned(&block),
            Expr::Break(b) => b.spanned(),
            Expr::Return(r) => r.spanned(),
            Expr::Yield(y) => y.spanned(),
            Expr::Await(a) => a.spanned(),
            Expr::Vec(v) => Spanned::spanned(&v),
        }
    }

    /// Test if the expression is a constant expression.
    pub fn is_const(&self) -> (b: bool)
        ensures
            b == self.constant(),
        decreases self, 0nat,
    {
        match self {
            Expr::Lit(_) => true,
            Expr::Block(block) => block.is_const(),
            _ => false,
        }
    }

    /// Access the span of the expression.
    pub fn span(&self) -> (span: Span)
        ensures
            span == self.spanned(),
        decreases self, 0nat,
    {
        match self {
            Expr::Lit(token) => token.span,
            Expr::Path(token) => token.span,
            Expr::Unary(op, expr) => op.span.join(expr.span()),
            Expr::Block(block) => Spanned::span(block),
            Expr::Break(b) => b.span(),
            Expr::Return(r) => r.span(),
            Expr::Yield(y) => y.span(),
            Expr::Await(a) => a.span(),
            Expr::Vec(v) => Spanned::span(v),
        }
    }
}

impl ExprBreakValue {
    /// The tokens that the value is made of.
    pub open spec fn tokens(self) -> Seq<Token>
        decreases self, 0nat,
    {
        match self {
            ExprBreakValue::Expr(expr) => expr.tokens(),
            ExprBreakValue::Label(label) => seq![label.token],
        }
    }

    /// The span of the value.
    pub open spec fn spanned(self) -> Span
        decreases self, 0nat,
    {
        match self {
            ExprBreakValue::Expr(expr) => expr.spanned(),
            ExprBreakValue::Label(label) => label.token.span,
        }
    }

    /// Access the span of the expression.
    pub fn span(&self) -> (span: Span)
        ensures
            span == self.spanned(),
        decreases self, 0nat,
    {
        match self {
            ExprBreakValue::Expr(expr) => expr.span(),
            ExprBreakValue::Label(label) => label.token.span,
        }
    }
}

impl ExprBreak {
    /// The tokens that the expression is made of.
    pub open spec fn tokens(self) -> Seq<Token>
        decreases self, 0nat,
    {
        match self.expr {
            None => seq![self.break_],
            Some(value) => seq![self.break_] + value.tokens(),
        }
    }

    /// The span of the expression: from its `break` to the end of what it
    /// breaks with.
    pub open spec fn spanned(self) -> Span
        decreases self, 0nat,
    {
        match self.expr {
            Some(expr) => self.break_.span.spec_join(expr.spanned()),
            None => self.break_.span,
        }
    }

    /// Access the span of the expression.
    pub fn span(&self) -> (span: Span)
        ensures
            span == self.spanned(),
        decreases self, 0nat,
    {
        match &self.expr {
            Some(expr) => self.break_.span.join(expr.span()),
            None => self.break_.span,
        }
    }
}

impl ExprReturn {
    /// The tokens that the expression is made of.
    pub open spec fn tokens(self) -> Seq<Token>
        decreases self, 1nat,
    {
        attribute_tokens(self.attributes@).push(self.return_token) + optional_tokens(self.expr)
    }

    /// The span of the expression: from its first attribute or its `return`
    /// to the end of what it returns.
    pub open spec fn spanned(self) -> Span
        decreases self, 0nat,
    {
        attributed_span(
            self.attributes@,
            match self.expr {
                Some(expr) => self.return_token.span.spec_join(expr.spanned()),
                None => self.return_token.span,
            },
        )
    }

    /// Access the span of the expression.
    pub fn span(&self) -> (span: Span)
        ensures
            span == self.spanned(),
        decreases self, 0nat,
    {
        let inner = match &self.expr {
            Some(expr) => self.return_token.span.join(expr.span()),
            None => self.return_token.span,
        };
        span_with_attributes(&self.attributes, inner)
    }
}

impl ExprYield {
    /// The tokens that the expression is made of.
    pub open spec fn tokens(self) -> Seq<Token>
        decreases self, 1nat,
    {
        attribute_tokens(self.attributes@).push(self.yield_token) + optional_tokens(self.expr)
    }

    /// The span of the expression: from its first attribute or its `yield`
    /// to the end of what it yields.
    pub open spec fn spanned(self) -> Span
        decreases self, 0nat,
    {
        attributed_span(
            self.attributes@,
            match self.expr {
                Some(expr) => self.yield_token.span.spec_join(expr.spanned()),
                None => self.yield_token.span,
            },
        )
    }

    /// Access the span of the expression.
    pub fn span(&self) -> (span: Span)
        ensures
            span == self.spanned(),
        decreases self, 0nat,
    {
        let inner = match &self.expr {
            Some(expr) => self.yield_token.span.join(expr.span()),
            None => self.yield_token.span,
        };
        span_with_attributes(&self.attributes, inner)
    }
}

impl ExprAwait {
    /// The tokens that the expression is made of.
    pub open spec fn tokens(self) -> Seq<Token>
        decreases self, 0nat,
    {
        attribute_tokens(self.attributes@) + self.expr.tokens().push(self.dot).push(
            self.await_token,
        )
    }

    /// The span of the expression: from its first attribute or the start
    /// of what is awaited to its `await`.
    pub open spec fn spanned(self) -> Span
        decreases self, 0nat,
    {
        attributed_span(self.attributes@, self.expr.spanned().spec_join(self.await_token.span))
    }

    /// Access the span of the expression.
    pub fn span(&self) -> (span: Span)
        ensures
            span == self.spanned(),
        decreases self, 0nat,
    {
        span_with_attributes(&self.attributes, self.expr.span().join(self.await_token.span))
    }
}

impl Bracketed {
    /// The tokens that the brackets and what they hold are made of.
    pub open spec fn tokens(self) -> Seq<Token>
        decreases self, 0nat,
    {
        (seq![self.open] + items_tokens(self.items@, self.items@.len())).push(self.close)
    }
}

impl ExprVec {
    /// The tokens that the expression is made of.
    pub open spec fn tokens(self) -> Seq<Token>
        decreases self, 1nat,
    {
        attribute_tokens(self.attributes@) + self.items.tokens()
    }
}

impl Spanned for ExprVec {
    open spec fn spanned(&self) -> Span {
        attributed_span(self.attributes@, self.items.open.span.spec_join(self.items.close.span))
    }

    fn span(&self) -> (span: Span) {
        span_with_attributes(&self.attributes, self.items.open.span.join(self.items.close.span))
    }
}

impl Block {
    /// The tokens that the block is made of.
    pub open spec fn tokens(self) -> Seq<Token>
        decreases self, 0nat,
    {
        (seq![self.open] + statement_tokens(self.statements@, self.statements@.len())).push(
            self.close,
        )
    }

    /// Whether every expression of the block is a constant expression.
    pub open spec fn constant(self) -> bool
        decreases self, 0nat,
    {
        statements_constant(self.statements@, self.statements@.len())
    }

    /// Test if the block doesn't produce a value: it is empty, or a
    /// semicolon ends its last statement.
    pub fn produces_nothing(&self) -> (b: bool)
        ensures
            b == (self.statements@.len() == 0 || self.statements@.last() is Semi),
    {
        let n = self.statements.len();
        if n == 0 {
            return true;
        }
        match &self.statements[n - 1] {
            Stmt::Semi(_, _) => true,
            Stmt::Expr(_) => false,
        }
    }

    /// The expression that gives the value of the block: its last
    /// statement, if no semicolon ends it.
    pub fn tail(&self) -> (r: Option<&Expr>)
        ensures
            match r {
                Some(expr) => self.statements@.len() > 0 && self.statements@.last() == Stmt::Expr(
                    *expr,
                ),
                None => self.statements@.len() == 0 || self.statements@.last() is Semi,
            },
    {
        let n = self.statements.len();
        if n == 0 {
            return None;
        }
        match &self.statements[n - 1] {
            Stmt::Expr(expr) => Some(expr),
            Stmt::Semi(_, _) => None,
        }
    }

    /// Test if the block is a constant expression.
    pub fn is_const(&self) -> (b: bool)
        ensures
            b == self.constant(),
        decreases self, 0nat,
    {
        constant_statements(&self.statements, self.statements.len())
    }
}

/// Whether the expressions of the first `n` statements are constant.
fn constant_statements(statements: &Vec<Stmt>, n: usize) -> (b: bool)
    requires
        n <= statements@.len(),
    ensures
        b == statements_constant(statements@, n as nat),
    decreases statements@, n,
{
    if n == 0 {
        return true;
    }
    if !constant_statements(statements, n - 1) {
        return false;
    }
    match &statements[n - 1] {
        Stmt::Expr(expr) => expr.is_const(),
        Stmt::Semi(expr, _) => expr.is_const(),
    }
}

impl Spanned for Block {
    open spec fn spanned(&self) -> Span {
        self.open.span.spec_join(self.close.span)
    }

    fn span(&self) -> (span: Span) {
        self.open.span.join(self.close.span)
    }
}

impl ExprBlock {
    /// The tokens that the expression is made of.
    pub open spec fn tokens(self) -> Seq<Token>
        decreases self, 1nat,
    {
        attribute_tokens(self.attributes@) + self.block.tokens()
    }

    /// Whether the block is a constant expression.
    pub open spec fn constant(self) -> bool
        decreases self, 1nat,
    {
        self.block.constant()
    }

    /// Test if the block expression doesn't produce a value.
    pub fn produces_nothing(&self) -> (b: bool)
        ensures
            b == (self.block.statements@.len() == 0 || self.block.statements@.last() is Semi),
    {
        self.block.produces_nothing()
    }

    /// Test if the block is a constant expression.
    pub fn is_const(&self) -> (b: bool)
        ensures
            b == self.constant(),
        decreases self, 1nat,
    {
        self.block.is_const()
    }
}

impl Spanned for ExprBlock {
    open spec fn spanned(&self) -> Span {
        attributed_span(self.attributes@, self.block.spanned())
    }

    fn span(&self) -> (span: Span) {
        span_with_attributes(&self.attributes, self.block.span())
    }
}

impl ItemFn {
    /// The tokens that the function is made of.
    pub open spec fn tokens(self) -> Seq<Token> {
        seq![self.fn_, self.name, self.open, self.close] + self.body.tokens()
    }
}

} // verus!
