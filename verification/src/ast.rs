//! A small surface syntax: tokens, expressions, and the parser.
//!
//! ```text
//! item    := 'fn' IDENT '(' ')' block
//! expr    := primary ('.' 'await')*
//! primary := LITERAL | IDENT | '-' expr | 'break' (LABEL | expr)?
//!          | ATTRIBUTE* (block | 'return' expr? | 'yield' expr? | vec)
//! block   := '{' (expr ';'?)* '}'
//! vec     := '[' (expr (',' expr)* ','?)? ']'
//! ```
//!
//! Parsing is stated in two parts. The functions of [`grammar`] say, over the
//! token sequence alone, whether a phrase starts at a position and where it
//! ends. The parser is proved to accept exactly then, to stop exactly there,
//! and to build a tree whose tokens are the ones it read.

pub mod expr;
pub mod grammar;
pub mod parser;
pub mod token;

pub use expr::{
    Block, Bracketed, Expr, ExprAwait, ExprBlock, ExprBreak, ExprBreakValue, ExprReturn, ExprVec,
    ExprYield, ItemFn, Stmt,
};
pub use parser::Parser;
pub use token::{Attribute, Expectation, Kind, Label, LitSource, ParseError, Token};
