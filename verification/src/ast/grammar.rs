//! The grammar: where phrases end.
//!
//! Each function takes the tokens and the position where a phrase is to
//! start, and gives the position after the phrase, or the error that shows
//! that there is none.

use crate::ast::token::{Expectation, Kind, ParseError, Token};
use vstd::prelude::*;

verus! {

/// Whether a token of this kind is a literal.
pub open spec fn is_literal(kind: Kind) -> bool {
    kind == Kind::Number || kind == Kind::LitStr || kind == Kind::LitByteStr || kind
        == Kind::LitByte || kind == Kind::LitChar
}

/// Whether attributes can stand before a phrase that starts with a token
/// of this kind.
pub open spec fn takes_attributes(kind: Kind) -> bool {
    kind == Kind::Open || kind == Kind::Return || kind == Kind::Yield || kind == Kind::OpenBracket
}

/// Whether an expression can start with a token of this kind.
pub open spec fn starts_expr(kind: Kind) -> bool {
    is_literal(kind) || kind == Kind::Ident || kind == Kind::Dash || kind == Kind::Break || kind
        == Kind::Attribute || takes_attributes(kind)
}

/// The position after the attributes that start at `pos`.
pub open spec fn attributes_end(tokens: Seq<Token>, pos: int) -> int
    decreases tokens.len() - pos,
{
    if 0 <= pos < tokens.len() && tokens[pos].kind == Kind::Attribute {
        attributes_end(tokens, pos + 1)
    } else {
        pos
    }
}

/// The position after the `.await`s that start at `pos`.
pub open spec fn postfix_end(tokens: Seq<Token>, pos: int) -> int
    decreases tokens.len() - pos,
{
    if 0 <= pos && pos + 1 < tokens.len() && tokens[pos].kind == Kind::Dot && tokens[pos + 1].kind
        == Kind::Await {
        postfix_end(tokens, pos + 2)
    } else {
        pos
    }
}

/// The position after the expression that starts at `pos`, or why there is
/// none.
pub open spec fn expr_end(tokens: Seq<Token>, pos: int) -> Result<int, ParseError>
    decreases tokens.len() - pos, 3nat,
{
    match primary_end(tokens, pos) {
        Err(error) => Err(error),
        Ok(end) => Ok(postfix_end(tokens, end)),
    }
}

/// The position after the expression without `.await`s that starts at
/// `pos`.
pub open spec fn primary_end(tokens: Seq<Token>, pos: int) -> Result<int, ParseError>
    decreases tokens.len() - pos, 2nat,
{
    if pos < 0 || pos >= tokens.len() {
        Err(ParseError::Eof)
    } else {
        let kind = tokens[pos].kind;
        if is_literal(kind) || kind == Kind::Ident {
            Ok(pos + 1)
        } else if kind == Kind::Dash {
            expr_end(tokens, pos + 1)
        } else if kind == Kind::Break {
            break_end(tokens, pos)
        } else if kind == Kind::Attribute {
            proof {
                lemma_attributes_end(tokens, pos);
            }
            attributed_end(tokens, attributes_end(tokens, pos))
        } else if takes_attributes(kind) {
            attributed_end(tokens, pos)
        } else {
            Err(ParseError::Expected { what: Expectation::Expr, actual: tokens[pos] })
        }
    }
}

/// The position after the phrase that starts at `pos`, where attributes
/// may have gone before: a block, a return, a yield or a vector.
pub open spec fn attributed_end(tokens: Seq<Token>, pos: int) -> Result<int, ParseError>
    decreases tokens.len() - pos, 1nat,
{
    if pos < 0 || pos >= tokens.len() {
        Err(ParseError::Eof)
    } else {
        let kind = tokens[pos].kind;
        if kind == Kind::Open {
            block_end(tokens, pos)
        } else if kind == Kind::Return || kind == Kind::Yield {
            keyword_end(tokens, pos)
        } else if kind == Kind::OpenBracket {
            items_end(tokens, pos + 1)
        } else {
            Err(ParseError::Expected { what: Expectation::Expr, actual: tokens[pos] })
        }
    }
}

/// The position after the return or yield whose keyword stands at `pos`.
pub open spec fn keyword_end(tokens: Seq<Token>, pos: int) -> Result<int, ParseError>
    decreases tokens.len() - pos, 0nat,
{
    if pos < 0 || pos + 1 >= tokens.len() {
        Ok(pos + 1)
    } else if starts_expr(tokens[pos + 1].kind) {
        expr_end(tokens, pos + 1)
    } else {
        Ok(pos + 1)
    }
}

/// The position after the break expression whose `break` stands at `pos`.
pub open spec fn break_end(tokens: Seq<Token>, pos: int) -> Result<int, ParseError>
    decreases tokens.len() - pos, 1nat,
{
    if pos < 0 || pos + 1 >= tokens.len() {
        Ok(pos + 1)
    } else if tokens[pos + 1].kind is Label {
        Ok(pos + 2)
    } else if starts_expr(tokens[pos + 1].kind) {
        expr_end(tokens, pos + 1)
    } else {
        Ok(pos + 1)
    }
}

/// The position after the block that starts at `pos`, or why there is
/// none.
pub open spec fn block_end(tokens: Seq<Token>, pos: int) -> Result<int, ParseError>
    decreases tokens.len() - pos, 0nat,
{
    if pos < 0 || pos >= tokens.len() {
        Err(ParseError::Eof)
    } else if tokens[pos].kind != Kind::Open {
        Err(ParseError::Expected { what: Expectation::Open, actual: tokens[pos] })
    } else {
        statements_end(tokens, pos + 1)
    }
}

/// The position after the closing brace of the block whose statements go
/// on at `pos`.
pub open spec fn statements_end(tokens: Seq<Token>, pos: int) -> Result<int, ParseError>
    decreases tokens.len() - pos, 4nat,
{
    if pos < 0 || pos >= tokens.len() {
        Err(ParseError::Eof)
    } else if tokens[pos].kind == Kind::Close {
        Ok(pos + 1)
    } else {
        match expr_end(tokens, pos) {
            Err(error) => Err(error),
            Ok(end) => if end <= pos || end > tokens.len() {
                Err(ParseError::Eof)
            } else if end < tokens.len() && tokens[end].kind == Kind::SemiColon {
                statements_end(tokens, end + 1)
            } else {
                statements_end(tokens, end)
            },
        }
    }
}

/// The position after the closing bracket of the vector whose items go on
/// at `pos`.
pub open spec fn items_end(tokens: Seq<Token>, pos: int) -> Result<int, ParseError>
    decreases tokens.len() - pos, 4nat,
{
    if pos < 0 || pos >= tokens.len() {
        Err(ParseError::Eof)
    } else if tokens[pos].kind == Kind::CloseBracket {
        Ok(pos + 1)
    } else {
        match expr_end(tokens, pos) {
            Err(error) => Err(error),
            Ok(end) => if end <= pos || end >= tokens.len() {
                Err(ParseError::Eof)
            } else if tokens[end].kind == Kind::Comma {
                items_end(tokens, end + 1)
            } else if tokens[end].kind == Kind::CloseBracket {
                Ok(end + 1)
            } else {
                Err(ParseError::Expected { what: Expectation::CloseBracket, actual: tokens[end] })
            },
        }
    }
}

/// The position after the break expression that starts at `pos`, or why
/// there is none.
pub open spec fn break_phrase_end(tokens: Seq<Token>, pos: int) -> Result<int, ParseError> {
    if pos < 0 || pos >= tokens.len() {
        Err(ParseError::Eof)
    } else if tokens[pos].kind != Kind::Break {
        Err(ParseError::Expected { what: Expectation::Expr, actual: tokens[pos] })
    } else {
        break_end(tokens, pos)
    }
}

/// The position after the label at `pos`, or why there is none.
pub open spec fn label_end(tokens: Seq<Token>, pos: int) -> Result<int, ParseError> {
    if pos < 0 || pos >= tokens.len() {
        Err(ParseError::Eof)
    } else if !(tokens[pos].kind is Label) {
        Err(ParseError::Expected { what: Expectation::Label, actual: tokens[pos] })
    } else {
        Ok(pos + 1)
    }
}

/// The token of the kind `kind` at `pos`, or why there is none.
pub open spec fn expected_at(tokens: Seq<Token>, pos: int, kind: Kind, what: Expectation) -> Result<
    Token,
    ParseError,
> {
    if pos < 0 || pos >= tokens.len() {
        Err(ParseError::Eof)
    } else if tokens[pos].kind != kind {
        Err(ParseError::Expected { what, actual: tokens[pos] })
    } else {
        Ok(tokens[pos])
    }
}

/// The position after the function that starts at `pos`, or why there is
/// none.
pub open spec fn item_fn_end(tokens: Seq<Token>, pos: int) -> Result<int, ParseError> {
    match expected_at(tokens, pos, Kind::Fn, Expectation::Fn) {
        Err(error) => Err(error),
        Ok(_) => match expected_at(tokens, pos + 1, Kind::Ident, Expectation::Ident) {
            Err(error) => Err(error),
            Ok(_) => match expected_at(tokens, pos + 2, Kind::OpenParen, Expectation::OpenParen) {
                Err(error) => Err(error),
                Ok(_) => match expected_at(
                    tokens,
                    pos + 3,
                    Kind::CloseParen,
                    Expectation::CloseParen,
                ) {
                    Err(error) => Err(error),
                    Ok(_) => block_end(tokens, pos + 4),
                },
            },
        },
    }
}

/// Attributes end at or after where they start, and inside the tokens.
pub proof fn lemma_attributes_end(tokens: Seq<Token>, pos: int)
    requires
        0 <= pos <= tokens.len(),
    ensures
        pos <= attributes_end(tokens, pos) <= tokens.len(),
        pos < tokens.len() && tokens[pos].kind == Kind::Attribute ==> pos < attributes_end(
            tokens,
            pos,
        ),
    decreases tokens.len() - pos,
{
    if pos < tokens.len() && tokens[pos].kind == Kind::Attribute {
        lemma_attributes_end(tokens, pos + 1);
    }
}

/// The `.await`s end at or after where they start, and inside the tokens.
pub proof fn lemma_postfix_end(tokens: Seq<Token>, pos: int)
    requires
        0 <= pos <= tokens.len(),
    ensures
        pos <= postfix_end(tokens, pos) <= tokens.len(),
    decreases tokens.len() - pos,
{
    if pos + 1 < tokens.len() && tokens[pos].kind == Kind::Dot && tokens[pos + 1].kind
        == Kind::Await {
        lemma_postfix_end(tokens, pos + 2);
    }
}

/// An expression ends after where it starts, and inside the tokens.
pub proof fn lemma_expr_end(tokens: Seq<Token>, pos: int)
    ensures
        expr_end(tokens, pos) matches Ok(end) ==> 0 <= pos < end <= tokens.len(),
    decreases tokens.len() - pos, 3nat,
{
    lemma_primary_end(tokens, pos);
    match primary_end(tokens, pos) {
        Ok(end) => {
            lemma_postfix_end(tokens, end);
        },
        Err(_) => {},
    }
}

/// An expression without `.await`s ends after where it starts, and inside
/// the tokens.
pub proof fn lemma_primary_end(tokens: Seq<Token>, pos: int)
    ensures
        primary_end(tokens, pos) matches Ok(end) ==> 0 <= pos < end <= tokens.len(),
    decreases tokens.len() - pos, 2nat,
{
    if 0 <= pos < tokens.len() {
        let kind = tokens[pos].kind;
        if is_literal(kind) || kind == Kind::Ident {
        } else if kind == Kind::Dash {
            lemma_expr_end(tokens, pos + 1);
        } else if kind == Kind::Break {
            lemma_break_end(tokens, pos);
        } else if kind == Kind::Attribute {
            lemma_attributes_end(tokens, pos);
            lemma_attributed_end(tokens, attributes_end(tokens, pos));
        } else if takes_attributes(kind) {
            lemma_attributed_end(tokens, pos);
        }
    }
}

/// What attributes may stand before ends after where it starts, and inside
/// the tokens.
pub proof fn lemma_attributed_end(tokens: Seq<Token>, pos: int)
    ensures
        attributed_end(tokens, pos) matches Ok(end) ==> 0 <= pos < end <= tokens.len(),
    decreases tokens.len() - pos, 1nat,
{
    if 0 <= pos < tokens.len() {
        let kind = tokens[pos].kind;
        if kind == Kind::Open {
            lemma_block_end(tokens, pos);
        } else if kind == Kind::Return || kind == Kind::Yield {
            lemma_keyword_end(tokens, pos);
        } else if kind == Kind::OpenBracket {
            lemma_items_end(tokens, pos + 1);
        }
    }
}

/// A return or yield ends after its keyword, and inside the tokens.
pub proof fn lemma_keyword_end(tokens: Seq<Token>, pos: int)
    requires
        0 <= pos < tokens.len(),
    ensures
        keyword_end(tokens, pos) matches Ok(end) ==> pos < end <= tokens.len(),
    decreases tokens.len() - pos, 0nat,
{
    if pos + 1 < tokens.len() && starts_expr(tokens[pos + 1].kind) {
        lemma_expr_end(tokens, pos + 1);
    }
}

/// A break expression ends after its `break`, and inside the tokens.
pub proof fn lemma_break_end(tokens: Seq<Token>, pos: int)
    requires
        0 <= pos < tokens.len(),
    ensures
        break_end(tokens, pos) matches Ok(end) ==> pos < end <= tokens.len(),
    decreases tokens.len() - pos, 1nat,
{
    if pos + 1 < tokens.len() && !(tokens[pos + 1].kind is Label) && starts_expr(
        tokens[pos + 1].kind,
    ) {
        lemma_expr_end(tokens, pos + 1);
    }
}

/// A block ends after where it starts, and inside the tokens.
pub proof fn lemma_block_end(tokens: Seq<Token>, pos: int)
    ensures
        block_end(tokens, pos) matches Ok(end) ==> 0 <= pos < end <= tokens.len(),
    decreases tokens.len() - pos, 0nat,
{
    if 0 <= pos < tokens.len() && tokens[pos].kind == Kind::Open {
        lemma_statements_end(tokens, pos + 1);
    }
}

/// The statements of a block end after where they go on, and inside the
/// tokens.
pub proof fn lemma_statements_end(tokens: Seq<Token>, pos: int)
    ensures
        statements_end(tokens, pos) matches Ok(end) ==> 0 <= pos < end <= tokens.len(),
    decreases tokens.len() - pos, 4nat,
{
    if 0 <= pos < tokens.len() && tokens[pos].kind != Kind::Close {
        lemma_expr_end(tokens, pos);
        match expr_end(tokens, pos) {
            Err(_) => {},
            Ok(end) => {
                if end < tokens.len() && tokens[end].kind == Kind::SemiColon {
                    lemma_statements_end(tokens, end + 1);
                } else {
                    lemma_statements_end(tokens, end);
                }
            },
        }
    }
}

/// The items of a vector end after where they go on, and inside the
/// tokens.
pub proof fn lemma_items_end(tokens: Seq<Token>, pos: int)
    ensures
        items_end(tokens, pos) matches Ok(end) ==> 0 <= pos < end <= tokens.len(),
    decreases tokens.len() - pos, 4nat,
{
    if 0 <= pos < tokens.len() && tokens[pos].kind != Kind::CloseBracket {
        lemma_expr_end(tokens, pos);
        match expr_end(tokens, pos) {
            Err(_) => {},
            Ok(end) => {
                if end < tokens.len() && tokens[end].kind == Kind::Comma {
                    lemma_items_end(tokens, end + 1);
                }
            },
        }
    }
}

} // verus!
