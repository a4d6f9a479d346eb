//! The parser.

use crate::ast::expr::{
    item_tokens, items_tokens, optional_tokens, statement_tokens, Block, Bracketed, Expr, ExprAwait,
    ExprBlock, ExprBreak, ExprBreakValue, ExprReturn, ExprVec, ExprYield, ItemFn, Stmt,
};
use crate::ast::grammar::{
    attributed_end, attributes_end, block_end, break_end, break_phrase_end, expected_at, expr_end,
    is_literal, item_fn_end, items_end, keyword_end, label_end, lemma_attributed_end,
    lemma_attributes_end, lemma_block_end, lemma_break_end, lemma_expr_end, lemma_items_end,
    lemma_keyword_end, lemma_primary_end, lemma_statements_end, postfix_end, primary_end,
    starts_expr, statements_end, takes_attributes,
};
use crate::ast::token::{attribute_tokens, Attribute, Expectation, Kind, Label, ParseError, Token};
use vstd::prelude::*;

verus! {

/// The tokens that are parsed, and how far the parser has come.
#[derive(Debug)]
pub struct Parser {
    pub tokens: Vec<Token>,
    pub position: usize,
}

impl Parser {
    /// A parser at the start of `tokens`.
    pub fn new(tokens: Vec<Token>) -> (parser: Parser)
        ensures
            parser.tokens == tokens,
            parser.position == 0,
    {
        Parser { tokens, position: 0 }
    }

    /// The next token, if there is one.
    pub fn peek(&self) -> (r: Option<Token>)
        ensures
            self.position < self.tokens@.len() ==> r == Some(self.tokens@[self.position as int]),
            self.position >= self.tokens@.len() ==> r is None,
    {
        if self.position < self.tokens.len() {
            Some(self.tokens[self.position])
        } else {
            None
        }
    }

    /// Takes the next token.
    pub fn next(&mut self) -> (r: Result<Token, ParseError>)
        ensures
            final(self).tokens == old(self).tokens,
            old(self).position < old(self).tokens@.len() ==> r == Ok::<Token, ParseError>(
                old(self).tokens@[old(self).position as int],
            ) && final(self).position == old(self).position + 1,
            old(self).position >= old(self).tokens@.len() ==> r == Err::<Token, _>(
                ParseError::Eof,
            ) && final(self).position == old(self).position,
    {
        if self.position < self.tokens.len() {
            let token = self.tokens[self.position];
            self.position = self.position + 1;
            Ok(token)
        } else {
            Err(ParseError::Eof)
        }
    }

    /// Whether all tokens have been taken.
    pub fn is_eof(&self) -> (b: bool)
        ensures
            b == (self.position >= self.tokens@.len()),
    {
        self.position >= self.tokens.len()
    }
}

/// The tokens from `a` to `c` are those from `a` to `b` and those from `b`
/// to `c`.
proof fn lemma_subrange_join(tokens: Seq<Token>, a: int, b: int, c: int)
    requires
        0 <= a <= b <= c <= tokens.len(),
    ensures
        tokens.subrange(a, b) + tokens.subrange(b, c) == tokens.subrange(a, c),
{
    assert(tokens.subrange(a, b) + tokens.subrange(b, c) =~= tokens.subrange(a, c));
}

/// The tokens of the first `n` statements do not hang on the statements
/// that follow.
proof fn lemma_statement_tokens_prefix(a: Seq<Stmt>, b: Seq<Stmt>, n: nat)
    requires
        n <= a.len(),
        n <= b.len(),
        forall|i: int| 0 <= i < n ==> a[i] == b[i],
    ensures
        statement_tokens(a, n) == statement_tokens(b, n),
    decreases n,
{
    if n > 0 {
        lemma_statement_tokens_prefix(a, b, (n - 1) as nat);
    }
}

/// The tokens of the first `n` items do not hang on the items that follow.
proof fn lemma_items_tokens_prefix(
    a: Seq<(Expr, Option<Token>)>,
    b: Seq<(Expr, Option<Token>)>,
    n: nat,
)
    requires
        n <= a.len(),
        n <= b.len(),
        forall|i: int| 0 <= i < n ==> a[i] == b[i],
    ensures
        items_tokens(a, n) == items_tokens(b, n),
    decreases n,
{
    if n > 0 {
        lemma_items_tokens_prefix(a, b, (n - 1) as nat);
    }
}

/// The token of the kind `kind` at `pos`.
fn expect(tokens: &Vec<Token>, pos: usize, kind: Kind, what: Expectation) -> (r: Result<
    Token,
    ParseError,
>)
    ensures
        r == expected_at(tokens@, pos as int, kind, what),
        r is Ok ==> pos < tokens@.len(),
{
    if pos >= tokens.len() {
        return Err(ParseError::Eof);
    }
    let token = tokens[pos];
    if token.kind != kind {
        return Err(ParseError::Expected { what, actual: token });
    }
    Ok(token)
}

/// Whether a token of this kind is a literal.
fn literal(kind: Kind) -> (b: bool)
    ensures
        b == is_literal(kind),
{
    match kind {
        Kind::Number => true,
        Kind::LitStr => true,
        Kind::LitByteStr => true,
        Kind::LitByte => true,
        Kind::LitChar => true,
        _ => false,
    }
}

/// Whether attributes can stand before a phrase that starts with a token
/// of this kind.
fn attributable(kind: Kind) -> (b: bool)
    ensures
        b == takes_attributes(kind),
{
    match kind {
        Kind::Open => true,
        Kind::Return => true,
        Kind::Yield => true,
        Kind::OpenBracket => true,
        _ => false,
    }
}

/// Parses the attributes that start at `pos`.
fn parse_attributes(tokens: &Vec<Token>, pos: usize) -> (r: (Vec<Attribute>, usize))
    requires
        pos <= tokens@.len(),
    ensures
        r.1 == attributes_end(tokens@, pos as int),
        pos <= r.1 <= tokens@.len(),
        attribute_tokens(r.0@) == tokens@.subrange(pos as int, r.1 as int),
{
    let mut attributes: Vec<Attribute> = Vec::new();
    let mut at = pos;
    assert(attribute_tokens(attributes@) =~= tokens@.subrange(pos as int, at as int));
    while at < tokens.len() && tokens[at].kind == Kind::Attribute
        invariant
            pos <= at <= tokens@.len(),
            attributes_end(tokens@, pos as int) == attributes_end(tokens@, at as int),
            attribute_tokens(attributes@) == tokens@.subrange(pos as int, at as int),
        decreases tokens@.len() - at,
    {
        let ghost before = attributes@;
        attributes.push(Attribute { token: tokens[at] });
        assert(attribute_tokens(attributes@) =~= attribute_tokens(before).push(tokens@[at as int]));
        at += 1;
        assert(attribute_tokens(attributes@) =~= tokens@.subrange(pos as int, at as int));
    }
    (attributes, at)
}

/// Parses the expression that starts at `pos`.
fn parse_expr(tokens: &Vec<Token>, pos: usize) -> (r: Result<(Expr, usize), ParseError>)
    requires
        pos <= tokens@.len(),
    ensures
        match expr_end(tokens@, pos as int) {
            Ok(end) => r is Ok && r->Ok_0.1 == end && pos < end <= tokens@.len()
                && r->Ok_0.0.tokens() == tokens@.subrange(pos as int, end),
            Err(error) => r == Err::<(Expr, usize), _>(error),
        },
    decreases tokens@.len() - pos, 3nat,
{
    let (primary, start) = match parse_primary(tokens, pos) {
        Ok(pair) => pair,
        Err(error) => {
            return Err(error);
        },
    };
    let n = tokens.len();
    let mut expr = primary;
    let mut at = start;
    while at < n && at + 1 < n && tokens[at].kind == Kind::Dot && tokens[at + 1].kind == Kind::Await
        invariant
            n == tokens@.len(),
            pos < start <= at <= n,
            postfix_end(tokens@, start as int) == postfix_end(tokens@, at as int),
            expr.tokens() == tokens@.subrange(pos as int, at as int),
        decreases n - at,
    {
        let dot = tokens[at];
        let await_token = tokens[at + 1];
        let ghost inner = expr.tokens();
        let attributes: Vec<Attribute> = Vec::new();
        assert(attribute_tokens(attributes@) =~= Seq::<Token>::empty());
        let awaited = ExprAwait { attributes, expr: Box::new(expr), dot, await_token };
        assert(awaited.tokens() =~= inner.push(dot).push(await_token));
        assert(inner.push(dot).push(await_token) =~= tokens@.subrange(pos as int, at + 2));
        expr = Expr::Await(awaited);
        assert(expr.tokens() == awaited.tokens());
        at += 2;
    }
    Ok((expr, at))
}

/// Parses the expression without `.await`s that starts at `pos`.
fn parse_primary(tokens: &Vec<Token>, pos: usize) -> (r: Result<(Expr, usize), ParseError>)
    requires
        pos <= tokens@.len(),
    ensures
        match primary_end(tokens@, pos as int) {
            Ok(end) => r is Ok && r->Ok_0.1 == end && pos < end <= tokens@.len()
                && r->Ok_0.0.tokens() == tokens@.subrange(pos as int, end),
            Err(error) => r == Err::<(Expr, usize), _>(error),
        },
    decreases tokens@.len() - pos, 2nat,
{
    if pos >= tokens.len() {
        return Err(ParseError::Eof);
    }
    let token = tokens[pos];
    proof {
        lemma_primary_end(tokens@, pos as int);
    }
    if literal(token.kind) {
        assert(seq![token] =~= tokens@.subrange(pos as int, pos + 1));
        Ok((Expr::Lit(token), pos + 1))
    } else if token.kind == Kind::Ident {
        assert(seq![token] =~= tokens@.subrange(pos as int, pos + 1));
        Ok((Expr::Path(token), pos + 1))
    } else if token.kind == Kind::Dash {
        match parse_expr(tokens, pos + 1) {
            Ok((expr, end)) => {
                assert(seq![token] + expr.tokens() =~= tokens@.subrange(pos as int, end as int));
                let ghost inner = expr.tokens();
                let unary = Expr::Unary(token, Box::new(expr));
                assert(unary.tokens() == seq![token] + inner);
                Ok((unary, end))
            },
            Err(error) => Err(error),
        }
    } else if token.kind == Kind::Break {
        match parse_break(tokens, pos) {
            Ok((b, end)) => {
                let expr = Expr::Break(b);
                assert(expr.tokens() == tokens@.subrange(pos as int, end as int));
                Ok((expr, end))
            },
            Err(error) => Err(error),
        }
    } else if token.kind == Kind::Attribute {
        let (attributes, at) = parse_attributes(tokens, pos);
        proof {
            lemma_attributes_end(tokens@, pos as int);
            lemma_attributed_end(tokens@, at as int);
        }
        match parse_attributed(tokens, at, attributes) {
            Ok((expr, end)) => {
                proof {
                    lemma_subrange_join(tokens@, pos as int, at as int, end as int);
                }
                Ok((expr, end))
            },
            Err(error) => Err(error),
        }
    } else if attributable(token.kind) {
        let attributes: Vec<Attribute> = Vec::new();
        assert(attribute_tokens(attributes@) =~= Seq::<Token>::empty());
        match parse_attributed(tokens, pos, attributes) {
            Ok((expr, end)) => {
                assert(Seq::<Token>::empty() + tokens@.subrange(pos as int, end as int)
                    =~= tokens@.subrange(pos as int, end as int));
                Ok((expr, end))
            },
            Err(error) => Err(error),
        }
    } else {
        Err(ParseError::Expected { what: Expectation::Expr, actual: token })
    }
}

/// Parses the block, return, yield or vector that starts at `pos`, and
/// attaches the attributes that went before.
fn parse_attributed(tokens: &Vec<Token>, pos: usize, attributes: Vec<Attribute>) -> (r: Result<
    (Expr, usize),
    ParseError,
>)
    requires
        pos <= tokens@.len(),
    ensures
        match attributed_end(tokens@, pos as int) {
            Ok(end) => r is Ok && r->Ok_0.1 == end && pos < end <= tokens@.len()
                && r->Ok_0.0.tokens() == attribute_tokens(attributes@) + tokens@.subrange(
                pos as int,
                end,
            ),
            Err(error) => r == Err::<(Expr, usize), _>(error),
        },
    decreases tokens@.len() - pos, 1nat,
{
    if pos >= tokens.len() {
        return Err(ParseError::Eof);
    }
    let token = tokens[pos];
    proof {
        lemma_attributed_end(tokens@, pos as int);
    }
    if token.kind == Kind::Open {
        match parse_block(tokens, pos) {
            Ok((block, end)) => {
                let expr_block = ExprBlock { attributes, block };
                let expr = Expr::Block(expr_block);
                assert(expr.tokens() == expr_block.tokens());
                Ok((expr, end))
            },
            Err(error) => Err(error),
        }
    } else if token.kind == Kind::Return {
        match parse_keyword(tokens, pos) {
            Ok((expr, end)) => {
                let returned = ExprReturn { attributes, return_token: token, expr };
                assert(returned.tokens() =~= attribute_tokens(attributes@) + tokens@.subrange(
                    pos as int,
                    end as int,
                ));
                let expr = Expr::Return(returned);
                assert(expr.tokens() == returned.tokens());
                Ok((expr, end))
            },
            Err(error) => Err(error),
        }
    } else if token.kind == Kind::Yield {
        match parse_keyword(tokens, pos) {
            Ok((expr, end)) => {
                let yielded = ExprYield { attributes, yield_token: token, expr };
                assert(yielded.tokens() =~= attribute_tokens(attributes@) + tokens@.subrange(
                    pos as int,
                    end as int,
                ));
                let expr = Expr::Yield(yielded);
                assert(expr.tokens() == yielded.tokens());
                Ok((expr, end))
            },
            Err(error) => Err(error),
        }
    } else if token.kind == Kind::OpenBracket {
        let items: Vec<(Expr, Option<Token>)> = Vec::new();
        assert(items_tokens(items@, 0) =~= tokens@.subrange(pos + 1, pos + 1));
        match parse_items(tokens, pos, pos + 1, items) {
            Ok((items, end)) => {
                let close = tokens[end - 1];
                let bracketed = Bracketed { open: token, items, close };
                assert(bracketed.tokens() =~= tokens@.subrange(pos as int, end as int));
                let vec = ExprVec { attributes, items: bracketed };
                assert(vec.tokens() == attribute_tokens(attributes@) + bracketed.tokens());
                let expr = Expr::Vec(vec);
                assert(expr.tokens() == vec.tokens());
                Ok((expr, end))
            },
            Err(error) => Err(error),
        }
    } else {
        Err(ParseError::Expected { what: Expectation::Expr, actual: token })
    }
}

/// Parses what follows the `return` or `yield` at `pos`.
fn parse_keyword(tokens: &Vec<Token>, pos: usize) -> (r: Result<
    (Option<Box<Expr>>, usize),
    ParseError,
>)
    requires
        pos < tokens@.len(),
    ensures
        match keyword_end(tokens@, pos as int) {
            Ok(end) => r is Ok && r->Ok_0.1 == end && pos < end <= tokens@.len() && seq![
                tokens@[pos as int],
            ] + optional_tokens(r->Ok_0.0) == tokens@.subrange(pos as int, end),
            Err(error) => r == Err::<(Option<Box<Expr>>, usize), _>(error),
        },
    decreases tokens@.len() - pos, 0nat,
{
    let n = tokens.len();
    proof {
        lemma_keyword_end(tokens@, pos as int);
    }
    if pos + 1 < n && Expr::peek(tokens[pos + 1].kind) {
        match parse_expr(tokens, pos + 1) {
            Ok((expr, end)) => {
                assert(seq![tokens@[pos as int]] + expr.tokens() =~= tokens@.subrange(
                    pos as int,
                    end as int,
                ));
                Ok((Some(Box::new(expr)), end))
            },
            Err(error) => Err(error),
        }
    } else {
        assert(seq![tokens@[pos as int]] + Seq::<Token>::empty() =~= tokens@.subrange(
            pos as int,
            pos + 1,
        ));
        Ok((None, pos + 1))
    }
}

/// Parses the break expression whose `break` stands at `pos`.
fn parse_break(tokens: &Vec<Token>, pos: usize) -> (r: Result<(ExprBreak, usize), ParseError>)
    requires
        pos < tokens@.len(),
    ensures
        match break_end(tokens@, pos as int) {
            Ok(end) => r is Ok && r->Ok_0.1 == end && pos < end <= tokens@.len()
                && r->Ok_0.0.tokens() == tokens@.subrange(pos as int, end),
            Err(error) => r == Err::<(ExprBreak, usize), _>(error),
        },
    decreases tokens@.len() - pos, 1nat,
{
    let break_ = tokens[pos];
    proof {
        lemma_break_end(tokens@, pos as int);
    }
    let n = tokens.len();
    if pos + 1 >= n {
        assert(seq![break_] =~= tokens@.subrange(pos as int, pos + 1));
        return Ok((ExprBreak { break_, expr: None }, pos + 1));
    }
    let token = tokens[pos + 1];
    match token.kind {
        Kind::Label(source) => {
            assert(seq![break_] + seq![token] =~= tokens@.subrange(pos as int, pos + 2));
            Ok(
                (
                    ExprBreak {
                        break_,
                        expr: Some(ExprBreakValue::Label(Label { token, source })),
                    },
                    pos + 2,
                ),
            )
        },
        kind => {
            if Expr::peek(kind) {
                match parse_expr(tokens, pos + 1) {
                    Ok((expr, end)) => {
                        assert(seq![break_] + expr.tokens() =~= tokens@.subrange(
                            pos as int,
                            end as int,
                        ));
                        Ok(
                            (
                                ExprBreak {
                                    break_,
                                    expr: Some(ExprBreakValue::Expr(Box::new(expr))),
                                },
                                end,
                            ),
                        )
                    },
                    Err(error) => Err(error),
                }
            } else {
                assert(seq![break_] =~= tokens@.subrange(pos as int, pos + 1));
                Ok((ExprBreak { break_, expr: None }, pos + 1))
            }
        },
    }
}

/// Parses the block that starts at `pos`.
fn parse_block(tokens: &Vec<Token>, pos: usize) -> (r: Result<(Block, usize), ParseError>)
    requires
        pos <= tokens@.len(),
    ensures
        match block_end(tokens@, pos as int) {
            Ok(end) => r is Ok && r->Ok_0.1 == end && pos < end <= tokens@.len()
                && r->Ok_0.0.tokens() == tokens@.subrange(pos as int, end),
            Err(error) => r == Err::<(Block, usize), _>(error),
        },
    decreases tokens@.len() - pos, 0nat,
{
    if pos >= tokens.len() {
        return Err(ParseError::Eof);
    }
    let open = tokens[pos];
    if open.kind != Kind::Open {
        return Err(ParseError::Expected { what: Expectation::Open, actual: open });
    }
    let statements: Vec<Stmt> = Vec::new();
    assert(statement_tokens(statements@, 0) =~= tokens@.subrange(pos + 1, pos + 1));
    proof {
        lemma_block_end(tokens@, pos as int);
    }
    match parse_statements(tokens, pos, pos + 1, statements) {
        Ok((statements, end)) => {
            let close = tokens[end - 1];
            let block = Block { open, statements, close };
            assert(block.tokens() =~= tokens@.subrange(pos as int, end as int));
            Ok((block, end))
        },
        Err(error) => Err(error),
    }
}

/// Parses the statements of the block that was opened at `open`, from `pos`
/// on, up to its closing brace.
fn parse_statements(tokens: &Vec<Token>, open: usize, pos: usize, statements: Vec<Stmt>) -> (r:
    Result<(Vec<Stmt>, usize), ParseError>)
    requires
        open < pos <= tokens@.len(),
        statement_tokens(statements@, statements@.len()) == tokens@.subrange(
            open + 1,
            pos as int,
        ),
    ensures
        match statements_end(tokens@, pos as int) {
            Ok(end) => r is Ok && r->Ok_0.1 == end && pos < end <= tokens@.len()
                && tokens@[end - 1].kind == Kind::Close && statement_tokens(
                r->Ok_0.0@,
                r->Ok_0.0@.len(),
            ) == tokens@.subrange(open + 1, end - 1),
            Err(error) => r == Err::<(Vec<Stmt>, usize), _>(error),
        },
    decreases tokens@.len() - pos, 4nat,
{
    if pos >= tokens.len() {
        return Err(ParseError::Eof);
    }
    if tokens[pos].kind == Kind::Close {
        return Ok((statements, pos + 1));
    }
    proof {
        lemma_expr_end(tokens@, pos as int);
    }
    let (expr, end) = match parse_expr(tokens, pos) {
        Ok(pair) => pair,
        Err(error) => {
            return Err(error);
        },
    };
    let mut statements = statements;
    let ghost before = statements@;
    if end < tokens.len() && tokens[end].kind == Kind::SemiColon {
        let semi = tokens[end];
        proof {
            lemma_statements_end(tokens@, end + 1);
            lemma_subrange_join(tokens@, open + 1, pos as int, end as int);
            assert(expr.tokens().push(semi) =~= tokens@.subrange(pos as int, end + 1));
            lemma_subrange_join(tokens@, open + 1, pos as int, end + 1);
        }
        statements.push(Stmt::Semi(expr, semi));
        proof {
            lemma_statement_tokens_prefix(before, statements@, before.len());
            assert(statement_tokens(statements@, statements@.len()) == statement_tokens(
                statements@,
                before.len(),
            ) + statements@[before.len() as int].tokens());
        }
        parse_statements(tokens, open, end + 1, statements)
    } else {
        proof {
            lemma_statements_end(tokens@, end as int);
            lemma_subrange_join(tokens@, open + 1, pos as int, end as int);
        }
        statements.push(Stmt::Expr(expr));
        proof {
            lemma_statement_tokens_prefix(before, statements@, before.len());
            assert(statement_tokens(statements@, statements@.len()) == statement_tokens(
                statements@,
                before.len(),
            ) + statements@[before.len() as int].tokens());
        }
        parse_statements(tokens, open, end, statements)
    }
}

/// Parses the items of the vector that was opened at `open`, from `pos`
/// on, up to its closing bracket.
fn parse_items(
    tokens: &Vec<Token>,
    open: usize,
    pos: usize,
    items: Vec<(Expr, Option<Token>)>,
) -> (r: Result<(Vec<(Expr, Option<Token>)>, usize), ParseError>)
    requires
        open < pos <= tokens@.len(),
        items_tokens(items@, items@.len()) == tokens@.subrange(open + 1, pos as int),
    ensures
        match items_end(tokens@, pos as int) {
            Ok(end) => r is Ok && r->Ok_0.1 == end && pos < end <= tokens@.len()
                && tokens@[end - 1].kind == Kind::CloseBracket && items_tokens(
                r->Ok_0.0@,
                r->Ok_0.0@.len(),
            ) == tokens@.subrange(open + 1, end - 1),
            Err(error) => r == Err::<(Vec<(Expr, Option<Token>)>, usize), _>(error),
        },
    decreases tokens@.len() - pos, 4nat,
{
    if pos >= tokens.len() {
        return Err(ParseError::Eof);
    }
    if tokens[pos].kind == Kind::CloseBracket {
        return Ok((items, pos + 1));
    }
    proof {
        lemma_expr_end(tokens@, pos as int);
    }
    let (expr, end) = match parse_expr(tokens, pos) {
        Ok(pair) => pair,
        Err(error) => {
            return Err(error);
        },
    };
    if end >= tokens.len() {
        return Err(ParseError::Eof);
    }
    let next = tokens[end];
    let mut items = items;
    let ghost before = items@;
    if next.kind == Kind::Comma {
        proof {
            lemma_items_end(tokens@, end + 1);
            assert(expr.tokens().push(next) =~= tokens@.subrange(pos as int, end + 1));
            lemma_subrange_join(tokens@, open + 1, pos as int, end + 1);
        }
        items.push((expr, Some(next)));
        proof {
            lemma_items_tokens_prefix(before, items@, before.len());
            assert(items_tokens(items@, items@.len()) == items_tokens(items@, before.len())
                + item_tokens(items@[before.len() as int]));
        }
        parse_items(tokens, open, end + 1, items)
    } else if next.kind == Kind::CloseBracket {
        proof {
            lemma_subrange_join(tokens@, open + 1, pos as int, end as int);
        }
        items.push((expr, None));
        proof {
            lemma_items_tokens_prefix(before, items@, before.len());
            assert(items_tokens(items@, items@.len()) == items_tokens(items@, before.len())
                + item_tokens(items@[before.len() as int]));
        }
        Ok((items, end + 1))
    } else {
        Err(ParseError::Expected { what: Expectation::CloseBracket, actual: next })
    }
}

impl Expr {
    /// Whether an expression can start with a token of this kind.
    pub fn peek(kind: Kind) -> (b: bool)
        ensures
            b == starts_expr(kind),
    {
        literal(kind) || attributable(kind) || match kind {
            Kind::Ident => true,
            Kind::Dash => true,
            Kind::Break => true,
            Kind::Attribute => true,
            _ => false,
        }
    }

    /// Parses an expression.
    pub fn parse(parser: &mut Parser) -> (r: Result<Expr, ParseError>)
        requires
            old(parser).position <= old(parser).tokens@.len(),
        ensures
            final(parser).tokens == old(parser).tokens,
            match expr_end(old(parser).tokens@, old(parser).position as int) {
                Ok(end) => r is Ok && final(parser).position == end && r->Ok_0.tokens()
                    == old(parser).tokens@.subrange(old(parser).position as int, end),
                Err(error) => r == Err::<Expr, _>(error)
                    && final(parser).position == old(parser).position,
            },
    {
        match parse_expr(&parser.tokens, parser.position) {
            Ok((expr, end)) => {
                parser.position = end;
                Ok(expr)
            },
            Err(error) => Err(error),
        }
    }
}

impl ExprBreakValue {
    /// Whether a break value can start with `token`.
    pub fn peek(token: Option<Token>) -> (b: bool)
        ensures
            b == (token matches Some(t) && (t.kind is Label || starts_expr(t.kind))),
    {
        match token {
            Some(t) => match t.kind {
                Kind::Label(_) => true,
                kind => Expr::peek(kind),
            },
            None => false,
        }
    }
}

impl ExprBreak {
    /// Parses a break expression, which must start with `break`.
    pub fn parse(parser: &mut Parser) -> (r: Result<ExprBreak, ParseError>)
        requires
            old(parser).position <= old(parser).tokens@.len(),
        ensures
            final(parser).tokens == old(parser).tokens,
            match break_phrase_end(old(parser).tokens@, old(parser).position as int) {
                Ok(end) => r is Ok && final(parser).position == end && r->Ok_0.tokens()
                    == old(parser).tokens@.subrange(old(parser).position as int, end),
                Err(error) => r == Err::<ExprBreak, _>(error)
                    && final(parser).position == old(parser).position,
            },
    {
        let pos = parser.position;
        if pos >= parser.tokens.len() {
            return Err(ParseError::Eof);
        }
        let token = parser.tokens[pos];
        if token.kind != Kind::Break {
            return Err(ParseError::Expected { what: Expectation::Expr, actual: token });
        }
        match parse_break(&parser.tokens, pos) {
            Ok((expr, end)) => {
                parser.position = end;
                Ok(expr)
            },
            Err(error) => Err(error),
        }
    }
}

impl ExprBlock {
    /// Parse the block expression attaching the given attributes.
    pub fn parse_with_attributes(parser: &mut Parser, attributes: Vec<Attribute>) -> (r: Result<
        ExprBlock,
        ParseError,
    >)
        requires
            old(parser).position <= old(parser).tokens@.len(),
        ensures
            final(parser).tokens == old(parser).tokens,
            match block_end(old(parser).tokens@, old(parser).position as int) {
                Ok(end) => r is Ok && final(parser).position == end && r->Ok_0.attributes
                    == attributes && r->Ok_0.block.tokens() == old(parser).tokens@.subrange(
                    old(parser).position as int,
                    end,
                ),
                Err(error) => r == Err::<ExprBlock, _>(error)
                    && final(parser).position == old(parser).position,
            },
    {
        match parse_block(&parser.tokens, parser.position) {
            Ok((block, end)) => {
                parser.position = end;
                Ok(ExprBlock { attributes, block })
            },
            Err(error) => Err(error),
        }
    }

    /// Parses a block expression: its attributes, then the block.
    pub fn parse(parser: &mut Parser) -> (r: Result<ExprBlock, ParseError>)
        requires
            old(parser).position <= old(parser).tokens@.len(),
        ensures
            final(parser).tokens == old(parser).tokens,
            match block_end(
                old(parser).tokens@,
                attributes_end(old(parser).tokens@, old(parser).position as int),
            ) {
                Ok(end) => r is Ok && final(parser).position == end
                    && r->Ok_0.tokens()
                        == old(parser).tokens@.subrange(old(parser).position as int, end),
                Err(error) => r == Err::<ExprBlock, _>(error)
                    && final(parser).position == old(parser).position,
            },
    {
        let (attributes, at) = parse_attributes(&parser.tokens, parser.position);
        match parse_block(&parser.tokens, at) {
            Ok((block, end)) => {
                proof {
                    lemma_subrange_join(
                        parser.tokens@,
                        parser.position as int,
                        at as int,
                        end as int,
                    );
                }
                parser.position = end;
                Ok(ExprBlock { attributes, block })
            },
            Err(error) => Err(error),
        }
    }
}

impl ItemFn {
    /// Parses a function.
    pub fn parse(parser: &mut Parser) -> (r: Result<ItemFn, ParseError>)
        requires
            old(parser).position <= old(parser).tokens@.len(),
        ensures
            final(parser).tokens == old(parser).tokens,
            match item_fn_end(old(parser).tokens@, old(parser).position as int) {
                Ok(end) => r is Ok && final(parser).position == end && r->Ok_0.tokens()
                    == old(parser).tokens@.subrange(old(parser).position as int, end),
                Err(error) => r == Err::<ItemFn, _>(error)
                    && final(parser).position == old(parser).position,
            },
    {
        let pos = parser.position;
        let n = parser.tokens.len();
        let fn_ = match expect(&parser.tokens, pos, Kind::Fn, Expectation::Fn) {
            Ok(token) => token,
            Err(error) => {
                return Err(error);
            },
        };
        let name = match expect(&parser.tokens, pos + 1, Kind::Ident, Expectation::Ident) {
            Ok(token) => token,
            Err(error) => {
                return Err(error);
            },
        };
        let open = match expect(&parser.tokens, pos + 2, Kind::OpenParen, Expectation::OpenParen) {
            Ok(token) => token,
            Err(error) => {
                return Err(error);
            },
        };
        let close = match expect(
            &parser.tokens,
            pos + 3,
            Kind::CloseParen,
            Expectation::CloseParen,
        ) {
            Ok(token) => token,
            Err(error) => {
                return Err(error);
            },
        };
        match parse_block(&parser.tokens, pos + 4) {
            Ok((body, end)) => {
                assert(seq![fn_, name, open, close] + body.tokens() =~= parser.tokens@.subrange(
                    pos as int,
                    end as int,
                ));
                parser.position = end;
                Ok(ItemFn { fn_, name, open, close, body })
            },
            Err(error) => Err(error),
        }
    }
}

impl Label {
    /// Parses a label.
    pub fn parse(parser: &mut Parser) -> (r: Result<Label, ParseError>)
        ensures
            final(parser).tokens == old(parser).tokens,
            match label_end(old(parser).tokens@, old(parser).position as int) {
                Ok(end) => final(parser).position == end && r is Ok
                    && r->Ok_0.token == old(parser).tokens@[old(parser).position as int]
                        && r->Ok_0.token.kind == Kind::Label(
                    r->Ok_0.source,
                ),
                Err(error) => r == Err::<Label, _>(error)
                    && final(parser).position == old(parser).position,
            },
    {
        let token = match parser.peek() {
            Some(token) => token,
            None => {
                return Err(ParseError::Eof);
            },
        };
        match token.kind {
            Kind::Label(source) => {
                let _ = parser.next();
                Ok(Label { token, source })
            },
            _ => Err(ParseError::Expected { what: Expectation::Label, actual: token }),
        }
    }

    /// Whether a label stands next.
    pub fn peek(parser: &Parser) -> (b: bool)
        ensures
            b == (parser.position < parser.tokens@.len()
                && parser.tokens@[parser.position as int].kind is Label),
    {
        match parser.peek() {
            Some(token) => match token.kind {
                Kind::Label(_) => true,
                _ => false,
            },
            None => false,
        }
    }
}

} // verus!
