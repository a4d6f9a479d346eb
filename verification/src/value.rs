//! Values of constant evaluation.

use crate::integer::{duplicate, from_i64, int_value};
use num_bigint::BigInt;
use vstd::prelude::*;
use vstd::string::*;

verus! {

/// The category of a value.
#[derive(Clone, Copy, Debug, PartialEq, Eq, Structural)]
pub enum ValueKind {
    Unit,
    Bool,
    Integer,
    Float,
    String,
    Vec,
    Tuple,
    Object,
}

impl ValueKind {
    /// The name of the category in messages.
    pub open spec fn name(self) -> Seq<char> {
        match self {
            ValueKind::Unit => "unit"@,
            ValueKind::Bool => "bool"@,
            ValueKind::Integer => "integer"@,
            ValueKind::Float => "float"@,
            ValueKind::String => "string"@,
            ValueKind::Vec => "vec"@,
            ValueKind::Tuple => "tuple"@,
            ValueKind::Object => "object"@,
        }
    }

    /// The name of the category in messages.
    pub fn as_str(self) -> (s: &'static str)
        ensures
            s@ == self.name(),
    {
        match self {
            ValueKind::Unit => "unit",
            ValueKind::Bool => "bool",
            ValueKind::Integer => "integer",
            ValueKind::Float => "float",
            ValueKind::String => "string",
            ValueKind::Vec => "vec",
            ValueKind::Tuple => "tuple",
            ValueKind::Object => "object",
        }
    }
}

/// A handle to a shared cell: the place of the cell in its heap.
///
/// Copies of a handle name the same cell, so a write through one of them is
/// seen through all of them.
#[derive(Clone, Copy, Debug, PartialEq, Eq, Structural)]
pub struct Shared {
    pub index: usize,
}

impl Shared {
    /// Another handle to the same cell.
    pub fn clone_handle(&self) -> (handle: Shared)
        ensures
            handle == *self,
    {
        Shared { index: self.index }
    }
}

/// A value of constant evaluation.
///
/// Strings and containers live in shared cells and are held by handle. A
/// float is held as the bit pattern of its IEEE 754 double.
#[derive(Debug)]
pub enum IrValue {
    Unit,
    Bool(bool),
    Integer(BigInt),
    Float(u64),
    String(Shared),
    Vec(Shared),
    Tuple(Shared),
    Object(Shared),
}

/// What an [`IrValue`] stands for: the same value with its integer as a
/// mathematical one.
pub enum ValueV {
    Unit,
    Bool(bool),
    Integer(int),
    Float(u64),
    String(Shared),
    Vec(Shared),
    Tuple(Shared),
    Object(Shared),
}

impl ValueV {
    /// The category of the value.
    pub open spec fn kind(self) -> ValueKind {
        match self {
            ValueV::Unit => ValueKind::Unit,
            ValueV::Bool(_) => ValueKind::Bool,
            ValueV::Integer(_) => ValueKind::Integer,
            ValueV::Float(_) => ValueKind::Float,
            ValueV::String(_) => ValueKind::String,
            ValueV::Vec(_) => ValueKind::Vec,
            ValueV::Tuple(_) => ValueKind::Tuple,
            ValueV::Object(_) => ValueKind::Object,
        }
    }
}

impl View for IrValue {
    type V = ValueV;

    open spec fn view(&self) -> ValueV {
        match *self {
            IrValue::Unit => ValueV::Unit,
            IrValue::Bool(b) => ValueV::Bool(b),
            IrValue::Integer(n) => ValueV::Integer(int_value(n)),
            IrValue::Float(bits) => ValueV::Float(bits),
            IrValue::String(s) => ValueV::String(s),
            IrValue::Vec(s) => ValueV::Vec(s),
            IrValue::Tuple(s) => ValueV::Tuple(s),
            IrValue::Object(s) => ValueV::Object(s),
        }
    }
}

impl Clone for IrValue {
    fn clone(&self) -> (r: IrValue)
        ensures
            r@ == self@,
    {
        match self {
            IrValue::Unit => IrValue::Unit,
            IrValue::Bool(b) => IrValue::Bool(*b),
            IrValue::Integer(n) => IrValue::Integer(duplicate(n)),
            IrValue::Float(bits) => IrValue::Float(*bits),
            IrValue::String(s) => IrValue::String(*s),
            IrValue::Vec(s) => IrValue::Vec(*s),
            IrValue::Tuple(s) => IrValue::Tuple(*s),
            IrValue::Object(s) => IrValue::Object(*s),
        }
    }
}

impl IrValue {
    /// The integer value `n`.
    pub fn integer(n: i64) -> (r: IrValue)
        ensures
            r@ == ValueV::Integer(n as int),
    {
        IrValue::Integer(from_i64(n))
    }

    /// The category of the value.
    pub fn kind(&self) -> (kind: ValueKind)
        ensures
            kind == self@.kind(),
    {
        match self {
            IrValue::Unit => ValueKind::Unit,
            IrValue::Bool(_) => ValueKind::Bool,
            IrValue::Integer(_) => ValueKind::Integer,
            IrValue::Float(_) => ValueKind::Float,
            IrValue::String(_) => ValueKind::String,
            IrValue::Vec(_) => ValueKind::Vec,
            IrValue::Tuple(_) => ValueKind::Tuple,
            IrValue::Object(_) => ValueKind::Object,
        }
    }

    /// The boolean that the value holds, or the value itself if it holds none.
    pub fn into_bool(self) -> (r: Result<bool, IrValue>)
        ensures
            match self@ {
                ValueV::Bool(b) => r == Ok::<bool, IrValue>(b),
                _ => r is Err && r->Err_0@ == self@,
            },
    {
        match self {
            IrValue::Bool(b) => Ok(b),
            other => Err(other),
        }
    }
}

/// The views of a sequence of values.
pub open spec fn values_view(values: Seq<IrValue>) -> Seq<ValueV> {
    values.map_values(|v: IrValue| v@)
}

/// The views of a sequence of named values.
pub open spec fn entries_view(entries: Seq<(String, IrValue)>) -> Seq<(Seq<char>, ValueV)> {
    entries.map_values(|e: (String, IrValue)| (e.0@, e.1@))
}

/// What a shared cell holds.
#[derive(Debug)]
pub enum Payload {
    String(String),
    Vec(Vec<IrValue>),
    Tuple(Vec<IrValue>),
    /// The entries of an object in the order in which their keys first came.
    /// Each key stands once ([`PayloadV::well_keyed`]) in an object that the
    /// evaluator made; of two entries of one key the first is the one that is
    /// read and written.
    Object(Vec<(String, IrValue)>),
}

/// What a [`Payload`] stands for.
pub enum PayloadV {
    String(Seq<char>),
    Vec(Seq<ValueV>),
    Tuple(Seq<ValueV>),
    Object(Seq<(Seq<char>, ValueV)>),
}

impl PayloadV {
    /// Each key of an object stands once among its entries.
    pub open spec fn well_keyed(self) -> bool {
        match self {
            PayloadV::Object(entries) => crate::scopes::distinct_keys(entries),
            _ => true,
        }
    }

    /// The text of a string cell.
    pub open spec fn text(self) -> Seq<char> {
        match self {
            PayloadV::String(s) => s,
            _ => Seq::empty(),
        }
    }

    /// The items of a vector or tuple cell.
    pub open spec fn items(self) -> Seq<ValueV> {
        match self {
            PayloadV::Vec(items) => items,
            PayloadV::Tuple(items) => items,
            _ => Seq::empty(),
        }
    }

    /// The entries of an object cell.
    pub open spec fn entries(self) -> Seq<(Seq<char>, ValueV)> {
        match self {
            PayloadV::Object(entries) => entries,
            _ => Seq::empty(),
        }
    }

    /// The category of the values that hold such a cell.
    pub open spec fn kind(self) -> ValueKind {
        match self {
            PayloadV::String(_) => ValueKind::String,
            PayloadV::Vec(_) => ValueKind::Vec,
            PayloadV::Tuple(_) => ValueKind::Tuple,
            PayloadV::Object(_) => ValueKind::Object,
        }
    }
}

impl View for Payload {
    type V = PayloadV;

    open spec fn view(&self) -> PayloadV {
        match *self {
            Payload::String(s) => PayloadV::String(s@),
            Payload::Vec(items) => PayloadV::Vec(values_view(items@)),
            Payload::Tuple(items) => PayloadV::Tuple(values_view(items@)),
            Payload::Object(entries) => PayloadV::Object(entries_view(entries@)),
        }
    }
}

impl Payload {
    /// The category of the values that hold such a cell.
    pub fn kind(&self) -> (kind: ValueKind)
        ensures
            kind == self@.kind(),
    {
        match self {
            Payload::String(_) => ValueKind::String,
            Payload::Vec(_) => ValueKind::Vec,
            Payload::Tuple(_) => ValueKind::Tuple,
            Payload::Object(_) => ValueKind::Object,
        }
    }
}

/// A copy of `values`.
pub fn clone_values(values: &Vec<IrValue>) -> (copy: Vec<IrValue>)
    ensures
        values_view(copy@) == values_view(values@),
{
    let mut copy: Vec<IrValue> = Vec::new();
    let mut i: usize = 0;
    while i < values.len()
        invariant
            i <= values.len(),
            copy.len() == i,
            forall|j: int| 0 <= j < i ==> (#[trigger] copy@[j])@ == values@[j]@,
        decreases values.len() - i,
    {
        copy.push(values[i].clone());
        i += 1;
    }
    assert(values_view(copy@) =~= values_view(values@));
    copy
}

/// A copy of `entries`.
pub fn clone_entries(entries: &Vec<(String, IrValue)>) -> (copy: Vec<(String, IrValue)>)
    ensures
        entries_view(copy@) == entries_view(entries@),
{
    let mut copy: Vec<(String, IrValue)> = Vec::new();
    let mut i: usize = 0;
    while i < entries.len()
        invariant
            i <= entries.len(),
            copy.len() == i,
            forall|j: int|
                0 <= j < i ==> (#[trigger] copy@[j]).0@ == entries@[j].0@ && copy@[j].1@
                    == entries@[j].1@,
        decreases entries.len() - i,
    {
        let key = entries[i].0.clone();
        let value = entries[i].1.clone();
        copy.push((key, value));
        i += 1;
    }
    assert(entries_view(copy@) =~= entries_view(entries@));
    copy
}

} // verus!
