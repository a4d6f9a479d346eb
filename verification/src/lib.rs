//! A budgeted evaluator for constant expressions, the runtime borrow
//! discipline of the shared cells that its values live in, and a small
//! surface syntax with its literals.
//!
//! * [`access`] and [`shared`]: the access counter of a cell, and the heap of
//!   cells that handles point into. Borrows are asked for and given back by
//!   hand; a request that cannot be granted is an error with a snapshot of
//!   the counter, never a wait.
//! * [`ir`], [`value`], [`error`]: the tree that is evaluated, the values it
//!   yields, and the ways an evaluation ends without one.
//! * [`interpreter`], [`scopes`], [`target`], [`pattern`]: the state of an
//!   evaluation and the operations on it.
//! * [`eval`]: the evaluator. What it computes is said by [`model`] and
//!   [`semantics`] over mathematical values; what holds of every evaluation
//!   is proved in [`laws`], that nothing is left open where no float is met
//!   in [`exact`], and that each key of a scope or an object stands once in
//!   [`keys`].
//! * [`integer`] and [`floats`]: the numbers. Integers are unbounded; floats
//!   are compared here, and their arithmetic is the host's.
//! * [`ast`], [`lexer`], [`literal`], [`storage`], [`assemble`]: tokens,
//!   expressions and their parser, the values of literals, the names of
//!   labels, and the assembly of byte string literals.

pub mod access;
pub mod assemble;
pub mod ast;
pub mod error;
pub mod eval;
pub mod exact;
pub mod floats;
pub mod integer;
pub mod interpreter;
pub mod ir;
pub mod keys;
pub mod laws;
pub mod lexer;
pub mod literal;
pub mod model;
pub mod pattern;
pub mod scopes;
pub mod semantics;
pub mod shared;
pub mod span;
pub mod storage;
pub mod target;
pub mod text;
pub mod value;
