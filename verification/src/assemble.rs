//! Assembling byte string literals.
//!
//! A literal that is needed is resolved to its bytes, which are put among
//! the static byte strings of the unit, each once, and an instruction that
//! loads them is added to the assembly. A literal that is not needed is
//! passed over with a warning.

use crate::ast::Token;
use crate::literal::{bad, token_value, LitV, LitValue, ResolveError, ResolveErrorKind};
use crate::span::{Span, Spanned};
use vstd::prelude::*;

verus! {

/// What an expression is needed for.
#[derive(Clone, Copy, Debug, PartialEq, Eq, Structural)]
pub enum Needs {
    /// Its value is needed as a type.
    Type,
    /// Its value is needed.
    Value,
    /// Nothing of it is needed.
    Nothing,
}

impl Needs {
    /// Whether the value of the expression is needed.
    pub fn value(self) -> (b: bool)
        ensures
            b == (self != Needs::Nothing),
    {
        match self {
            Needs::Type => true,
            Needs::Value => true,
            Needs::Nothing => false,
        }
    }
}

/// Something that the compiler remarks on without failing.
#[derive(Clone, Copy, Debug, PartialEq, Eq, Structural)]
pub enum Warning {
    /// The value of the expression at `span` of the source `source_id` is
    /// not used.
    NotUsed { source_id: usize, span: Span },
}

/// An instruction.
#[derive(Clone, Copy, Debug, PartialEq, Eq, Structural)]
pub enum Inst {
    /// Load the static byte string of the slot.
    Bytes { slot: usize },
}

/// Where the value of an assembled expression is.
#[derive(Clone, Copy, Debug, PartialEq, Eq, Structural)]
pub enum Value {
    /// The expression left no value.
    Empty(Span),
    /// The value is on top of the stack, without a name.
    Unnamed(Span),
}

/// Why an expression could not be assembled.
#[derive(Clone, Copy, Debug, PartialEq, Eq, Structural)]
pub enum CompileError {
    /// A literal could not be resolved.
    Resolve { error: ResolveError },
}

/// The static data of a unit.
#[derive(Debug)]
pub struct Unit {
    /// The static byte strings, each once.
    pub static_bytes: Vec<Vec<u8>>,
}

/// What the assembler works on.
#[derive(Debug)]
pub struct Compiler {
    /// The id of the source that is compiled.
    pub source_id: usize,
    /// The characters of that source.
    pub source: Vec<char>,
    /// The warnings so far.
    pub warnings: Vec<Warning>,
    /// The unit that is built.
    pub unit: Unit,
    /// The instructions so far, each with the span it came from.
    pub assembly: Vec<(Inst, Span)>,
}

/// A byte string literal, `b"text"`.
#[derive(Clone, Copy, Debug, PartialEq, Eq, Structural)]
pub struct LitByteStr {
    pub token: Token,
}

/// The first slot at or after `from` that holds `bytes`.
pub open spec fn slot_from(slots: Seq<Vec<u8>>, bytes: Seq<u8>, from: int) -> Option<int>
    decreases slots.len() - from,
{
    if from < 0 || from >= slots.len() {
        None
    } else if slots[from]@ == bytes {
        Some(from)
    } else {
        slot_from(slots, bytes, from + 1)
    }
}

/// The slot of `bytes` once they are among the static byte strings: the
/// first one that holds them, or a new one at the end.
pub open spec fn slot_of(slots: Seq<Vec<u8>>, bytes: Seq<u8>) -> int {
    match slot_from(slots, bytes, 0) {
        Some(slot) => slot,
        None => slots.len() as int,
    }
}

/// The bytes that a byte string literal of a source stands for.
pub open spec fn literal_bytes(literal: LitByteStr, chars: Seq<char>) -> Result<
    Seq<u8>,
    ResolveError,
> {
    match token_value(literal.token, chars) {
        Ok(LitV::ByteStr(bytes)) => Ok(bytes),
        Ok(_) => Err(bad(literal.token, ResolveErrorKind::NotLiteral)),
        Err(error) => Err(error),
    }
}

/// Whether two byte strings hold the same bytes.
fn same_bytes(a: &Vec<u8>, b: &Vec<u8>) -> (same: bool)
    ensures
        same == (a@ == b@),
{
    if a.len() != b.len() {
        return false;
    }
    let mut i: usize = 0;
    while i < a.len()
        invariant
            a@.len() == b@.len(),
            i <= a@.len(),
            forall|j: int| 0 <= j < i ==> a@[j] == b@[j],
        decreases a@.len() - i,
    {
        if a[i] != b[i] {
            return false;
        }
        i += 1;
    }
    assert(a@ =~= b@);
    true
}

impl Unit {
    /// A unit without static data.
    pub fn new() -> (unit: Unit)
        ensures
            unit.static_bytes@.len() == 0,
    {
        Unit { static_bytes: Vec::new() }
    }

    /// Puts `bytes` among the static byte strings, unless they are there
    /// already, and gives their slot.
    pub fn new_static_bytes(&mut self, bytes: Vec<u8>) -> (slot: usize)
        ensures
            slot == slot_of(old(self).static_bytes@, bytes@),
            slot_from(old(self).static_bytes@, bytes@, 0) is Some ==> final(self).static_bytes@
                == old(self).static_bytes@,
            slot_from(old(self).static_bytes@, bytes@, 0) is None ==> final(self).static_bytes@
                == old(self).static_bytes@.push(bytes),
            slot < final(self).static_bytes@.len(),
            final(self).static_bytes@[slot as int]@ == bytes@,
    {
        let mut i: usize = 0;
        while i < self.static_bytes.len()
            invariant
                i <= self.static_bytes@.len(),
                *self == *old(self),
                slot_from(self.static_bytes@, bytes@, 0) == slot_from(
                    self.static_bytes@,
                    bytes@,
                    i as int,
                ),
            decreases self.static_bytes@.len() - i,
        {
            if same_bytes(&self.static_bytes[i], &bytes) {
                return i;
            }
            i += 1;
        }
        self.static_bytes.push(bytes);
        i
    }
}

impl Compiler {
    /// A compiler for the source `source_id` with the characters `source`.
    pub fn new(source_id: usize, source: Vec<char>) -> (c: Compiler)
        ensures
            c.source_id == source_id,
            c.source == source,
            c.warnings@.len() == 0,
            c.unit.static_bytes@.len() == 0,
            c.assembly@.len() == 0,
    {
        Compiler { source_id, source, warnings: Vec::new(), unit: Unit::new(), assembly: Vec::new() }
    }
}

impl Spanned for LitByteStr {
    open spec fn spanned(&self) -> Span {
        self.token.span
    }

    fn span(&self) -> (span: Span) {
        self.token.span
    }
}

impl LitByteStr {
    /// The bytes that the literal stands for in the source `chars`.
    pub fn resolve(&self, chars: &Vec<char>) -> (r: Result<Vec<u8>, ResolveError>)
        ensures
            match literal_bytes(*self, chars@) {
                Ok(bytes) => r is Ok && r->Ok_0@ == bytes,
                Err(error) => r == Err::<Vec<u8>, _>(error),
            },
    {
        match self.token.resolve(chars) {
            Ok(LitValue::ByteStr(bytes)) => Ok(bytes),
            Ok(_) => Err(
                ResolveError { span: self.token.span, kind: ResolveErrorKind::NotLiteral },
            ),
            Err(error) => Err(error),
        }
    }

    /// Compile a literal byte string `b"Hello World"`.
    ///
    /// If the value is not needed, nothing is assembled and a warning is
    /// added. Otherwise the bytes of the literal are put among the static byte
    /// strings of the unit, and the instruction that loads them is added.
    pub fn assemble(&self, c: &mut Compiler, needs: Needs) -> (r: Result<Value, CompileError>)
        ensures
            final(c).source_id == old(c).source_id,
            final(c).source == old(c).source,
            needs == Needs::Nothing ==> r == Ok::<Value, CompileError>(
                Value::Empty(self.token.span),
            ) && final(c).warnings@ == old(c).warnings@.push(
                Warning::NotUsed { source_id: old(c).source_id, span: self.token.span },
            ) && final(c).unit == old(c).unit && final(c).assembly == old(c).assembly,
            needs != Needs::Nothing ==> final(c).warnings == old(c).warnings && match literal_bytes(
                *self,
                old(c).source@,
            ) {
                Err(error) => r == Err::<Value, _>(CompileError::Resolve { error }) && final(c).unit
                    == old(c).unit && final(c).assembly == old(c).assembly,
                Ok(bytes) => {
                    let slot = slot_of(old(c).unit.static_bytes@, bytes);
                    &&& r == Ok::<Value, CompileError>(Value::Unnamed(self.token.span))
                    &&& final(c).assembly@ == old(c).assembly@.push(
                        (Inst::Bytes { slot: slot as usize }, self.token.span),
                    )
                    &&& slot < final(c).unit.static_bytes@.len()
                    &&& final(c).unit.static_bytes@[slot]@ == bytes
                    &&& final(c).unit.static_bytes@.len() >= old(c).unit.static_bytes@.len()
                    &&& forall|i: int|
                        0 <= i < old(c).unit.static_bytes@.len() ==> final(c).unit.static_bytes@[i]
                            == old(c).unit.static_bytes@[i]
                },
            },
    {
        let span = self.span();
        if !needs.value() {
            c.warnings.push(Warning::NotUsed { source_id: c.source_id, span });
            return Ok(Value::Empty(span));
        }
        let bytes = match self.resolve(&c.source) {
            Ok(bytes) => bytes,
            Err(error) => {
                return Err(CompileError::Resolve { error });
            },
        };
        let slot = c.unit.new_static_bytes(bytes);
        c.assembly.push((Inst::Bytes { slot }, span));
        Ok(Value::Unnamed(span))
    }
}

} // verus!
