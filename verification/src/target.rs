//! Reading and writing the places that targets name.

use crate::error::{IrError, IrErrorKind};
use crate::integer::{difference, product, quotient, shift_left, shift_right, sum, to_u32};
use crate::floats::FloatOps;
use crate::ir::{IrAssignOp, IrBinaryOp, IrTarget, IrTargetKind};
use crate::model::{
    assigned, lemma_rebind_depth, lemma_rebind_seen, sequence_cell, sequence_data, target_mut,
    target_set, target_store, target_value, Computed, Mutated,
};
use crate::scopes::{insert, position, IrScopes};
use crate::shared::{with_data, Heap};
use crate::span::Span;
use crate::value::{
    entries_view, values_view, IrValue, Payload, PayloadV, Shared, ValueKind, ValueV,
};
use vstd::prelude::*;
use vstd::string::*;

verus! {

/// The cell that a vector or a tuple lives in, with its category.
pub fn sequence_handle(value: &IrValue) -> (r: Option<(Shared, ValueKind)>)
    ensures
        r == sequence_cell(value@),
{
    match value {
        IrValue::Vec(h) => Some((*h, ValueKind::Vec)),
        IrValue::Tuple(h) => Some((*h, ValueKind::Tuple)),
        _ => None,
    }
}

/// A vector or tuple cell of the category `kind` with the given items.
pub fn sequence_payload(kind: ValueKind, items: Vec<IrValue>) -> (data: Payload)
    ensures
        data@ == sequence_data(kind, values_view(items@)),
{
    if kind == ValueKind::Vec {
        Payload::Vec(items)
    } else {
        Payload::Tuple(items)
    }
}

/// The items of a vector or tuple cell, and nothing of another cell.
pub fn into_items(data: Payload) -> (items: Vec<IrValue>)
    ensures
        values_view(items@) == data@.items(),
{
    match data {
        Payload::Vec(items) => items,
        Payload::Tuple(items) => items,
        _ => {
            let items: Vec<IrValue> = Vec::new();
            assert(values_view(items@) =~= data@.items());
            items
        },
    }
}

/// The entries of an object cell, and nothing of another cell.
pub fn into_entries(data: Payload) -> (entries: Vec<(String, IrValue)>)
    ensures
        entries_view(entries@) == data@.entries(),
{
    match data {
        Payload::Object(entries) => entries,
        _ => {
            let entries: Vec<(String, IrValue)> = Vec::new();
            assert(entries_view(entries@) =~= data@.entries());
            entries
        },
    }
}

impl IrAssignOp {
    /// The binary operator that the assignment applies.
    pub fn binary_op(self) -> (op: IrBinaryOp)
        ensures
            op == match self {
                IrAssignOp::Add => IrBinaryOp::Add,
                IrAssignOp::Sub => IrBinaryOp::Sub,
                IrAssignOp::Mul => IrBinaryOp::Mul,
                IrAssignOp::Div => IrBinaryOp::Div,
                IrAssignOp::Shl => IrBinaryOp::Shl,
                IrAssignOp::Shr => IrBinaryOp::Shr,
            },
    {
        match self {
            IrAssignOp::Add => IrBinaryOp::Add,
            IrAssignOp::Sub => IrBinaryOp::Sub,
            IrAssignOp::Mul => IrBinaryOp::Mul,
            IrAssignOp::Div => IrBinaryOp::Div,
            IrAssignOp::Shl => IrBinaryOp::Shl,
            IrAssignOp::Shr => IrBinaryOp::Shr,
        }
    }

    /// Combines `current` with `operand`. Two integers are combined here;
    /// two floats by the host, whose answer is taken as it comes; anything
    /// else is an error at `span`.
    pub fn assign<F: FloatOps>(
        self,
        span: Span,
        current: &IrValue,
        operand: &IrValue,
        floats: &F,
    ) -> (r: Result<IrValue, IrError>)
        ensures
            match assigned(self, span, current@, operand@) {
                Computed::Value(value) => r is Ok && r->Ok_0@ == value,
                Computed::Error(error) => r == Err::<IrValue, _>(error),
                Computed::Host => r is Ok && r->Ok_0@ is Float,
            },
    {
        match (current, operand) {
            (IrValue::Integer(a), IrValue::Integer(b)) => match self {
                IrAssignOp::Add => Ok(IrValue::Integer(sum(a, b))),
                IrAssignOp::Sub => Ok(IrValue::Integer(difference(a, b))),
                IrAssignOp::Mul => Ok(IrValue::Integer(product(a, b))),
                IrAssignOp::Div => match quotient(a, b) {
                    Some(q) => Ok(IrValue::Integer(q)),
                    None => Err(IrError::new(span, IrErrorKind::DivisionByZero)),
                },
                IrAssignOp::Shl => match to_u32(b) {
                    Some(n) => Ok(IrValue::Integer(shift_left(a, n))),
                    None => Err(IrError::new(span, IrErrorKind::BadShiftOperand)),
                },
                IrAssignOp::Shr => match to_u32(b) {
                    Some(n) => Ok(IrValue::Integer(shift_right(a, n))),
                    None => Err(IrError::new(span, IrErrorKind::BadShiftOperand)),
                },
            },
            (IrValue::Float(a), IrValue::Float(b)) => match self {
                IrAssignOp::Shl => Err(IrError::new(span, IrErrorKind::UnsupportedOperands)),
                IrAssignOp::Shr => Err(IrError::new(span, IrErrorKind::UnsupportedOperands)),
                _ => Ok(IrValue::Float(floats.arithmetic(self.binary_op(), *a, *b))),
            },
            _ => Err(IrError::new(span, IrErrorKind::UnsupportedOperands)),
        }
    }
}

impl IrScopes {
    /// The value that stands at `target`.
    pub fn get_target(&self, heap: &mut Heap, target: &IrTarget) -> (r: Result<IrValue, IrError>)
        ensures
            final(heap)@ == old(heap)@,
            match target_value(*target, self@, old(heap)@) {
                Ok(value) => r is Ok && r->Ok_0@ == value,
                Err(error) => r == Err::<IrValue, _>(error),
            },
        decreases target,
    {
        match &target.kind {
            IrTargetKind::Name(name) => self.get_name(name, target.span),
            IrTargetKind::Field(inner, field) => {
                let current = match self.get_target(heap, inner) {
                    Ok(value) => value,
                    Err(error) => {
                        return Err(error);
                    },
                };
                match current {
                    IrValue::Object(h) => {
                        let entries = match heap.read_entries(h) {
                            Ok(entries) => entries,
                            Err(error) => {
                                return Err(IrError::access(target.span, error));
                            },
                        };
                        match position(&entries, field) {
                            Some(i) => Ok(entries[i].1.clone()),
                            None => Err(IrError::new(target.span, IrErrorKind::MissingField)),
                        }
                    },
                    actual => Err(IrError::expected(target.span, ValueKind::Object, &actual)),
                }
            },
            IrTargetKind::Index(inner, index) => {
                let current = match self.get_target(heap, inner) {
                    Ok(value) => value,
                    Err(error) => {
                        return Err(error);
                    },
                };
                match sequence_handle(&current) {
                    None => Err(IrError::expected(target.span, ValueKind::Tuple, &current)),
                    Some((h, kind)) => {
                        let items = match heap.read_items(h, kind) {
                            Ok(items) => items,
                            Err(error) => {
                                return Err(IrError::access(target.span, error));
                            },
                        };
                        if *index < items.len() {
                            Ok(items[*index].clone())
                        } else {
                            Err(
                                IrError::new(
                                    target.span,
                                    IrErrorKind::MissingIndex { index: *index },
                                ),
                            )
                        }
                    },
                }
            },
        }
    }

    /// Writes `value` to `target`. A name must be bound already; a field is
    /// added to its object if it is not there; an index must exist.
    pub fn set_target(&mut self, heap: &mut Heap, target: &IrTarget, value: IrValue) -> (r: Result<
        (),
        IrError,
    >)
        ensures
            match target_set(*target, value@, old(self)@, old(heap)@) {
                Ok((scopes, cells)) => r is Ok && final(self)@ == scopes && final(heap)@ == cells,
                Err(error) => r == Err::<(), _>(error) && final(self)@ == old(self)@
                    && final(heap)@ == old(heap)@,
            },
    {
        match &target.kind {
            IrTargetKind::Name(name) => self.set_name(name, value, target.span),
            IrTargetKind::Field(inner, field) => {
                let current = match self.get_target(heap, inner) {
                    Ok(value) => value,
                    Err(error) => {
                        return Err(error);
                    },
                };
                match current {
                    IrValue::Object(h) => {
                        let (borrow, data) = match heap.begin_write(h, ValueKind::Object) {
                            Ok(pair) => pair,
                            Err(error) => {
                                return Err(IrError::access(target.span, error));
                            },
                        };
                        let mut entries = into_entries(data);
                        insert(&mut entries, field.clone(), value);
                        heap.end_write(borrow, Payload::Object(entries));
                        assert(heap@ =~= with_data(
                            old(heap)@,
                            h.index as int,
                            PayloadV::Object(entries_view(entries@)),
                        ));
                        Ok(())
                    },
                    actual => Err(IrError::expected(target.span, ValueKind::Object, &actual)),
                }
            },
            IrTargetKind::Index(inner, index) => {
                let current = match self.get_target(heap, inner) {
                    Ok(value) => value,
                    Err(error) => {
                        return Err(error);
                    },
                };
                match sequence_handle(&current) {
                    None => Err(IrError::expected(target.span, ValueKind::Tuple, &current)),
                    Some((h, kind)) => {
                        let (borrow, data) = match heap.begin_write(h, kind) {
                            Ok(pair) => pair,
                            Err(error) => {
                                return Err(IrError::access(target.span, error));
                            },
                        };
                        let mut items = into_items(data);
                        if *index < items.len() {
                            let ghost before = values_view(items@);
                            items.set(*index, value);
                            assert(values_view(items@) =~= before.update(*index as int, value@));
                            let data = sequence_payload(kind, items);
                            heap.end_write(borrow, data);
                            assert(heap@ =~= with_data(old(heap)@, h.index as int, data@));
                            Ok(())
                        } else {
                            heap.end_write(borrow, sequence_payload(kind, items));
                            assert(heap@ =~= old(heap)@);
                            Err(
                                IrError::new(
                                    target.span,
                                    IrErrorKind::MissingIndex { index: *index },
                                ),
                            )
                        }
                    },
                }
            },
        }
    }

    /// Combines the value at `target` with `operand` by the operator `op`,
    /// in place. The name, field or index must exist. The span is that of the
    /// assignment.
    pub fn mut_target<F: FloatOps>(
        &mut self,
        heap: &mut Heap,
        target: &IrTarget,
        op: IrAssignOp,
        span: Span,
        operand: IrValue,
        floats: &F,
    ) -> (r: Result<(), IrError>)
        ensures
            final(self)@.len() == old(self)@.len(),
            match target_mut(*target, op, span, operand@, old(self)@, old(heap)@) {
                Mutated::Done(scopes, cells) => r is Ok && final(self)@ == scopes && final(heap)@
                    == cells,
                Mutated::Error(error) => r == Err::<(), _>(error) && final(self)@ == old(self)@
                    && final(heap)@ == old(heap)@,
                Mutated::Host => r is Ok && exists|bits: u64|
                    (final(self)@, final(heap)@) == #[trigger] target_store(
                        *target,
                        ValueV::Float(bits),
                        old(self)@,
                        old(heap)@,
                    ),
            },
    {
        match &target.kind {
            IrTargetKind::Name(name) => {
                let current = match self.get_name(name, target.span) {
                    Ok(value) => value,
                    Err(error) => {
                        return Err(error);
                    },
                };
                let value = match op.assign(span, &current, &operand, floats) {
                    Ok(value) => value,
                    Err(error) => {
                        return Err(error);
                    },
                };
                proof {
                    lemma_rebind_depth(old(self)@, name@, value@, old(self)@.len() as int);
                    lemma_rebind_seen(old(self)@, name@, value@, old(self)@.len() as int);
                }
                let ghost stored = value@;
                let r = self.set_name(name, value, target.span);
                proof {
                    if stored is Float {
                        assert((self@, heap@) == target_store(
                            *target,
                            ValueV::Float(stored->Float_0),
                            old(self)@,
                            old(heap)@,
                        ));
                    }
                }
                r
            },
            IrTargetKind::Field(inner, field) => {
                let current = match self.get_target(heap, inner) {
                    Ok(value) => value,
                    Err(error) => {
                        return Err(error);
                    },
                };
                match current {
                    IrValue::Object(h) => {
                        let (borrow, data) = match heap.begin_write(h, ValueKind::Object) {
                            Ok(pair) => pair,
                            Err(error) => {
                                return Err(IrError::access(target.span, error));
                            },
                        };
                        let mut entries = into_entries(data);
                        let ghost before = entries_view(entries@);
                        let ghost mut stored = ValueV::Unit;
                        let found = position(&entries, field);
                        let r = match found {
                            None => Err(IrError::new(target.span, IrErrorKind::MissingField)),
                            Some(i) => match op.assign(span, &entries[i].1, &operand, floats) {
                                Err(error) => Err(error),
                                Ok(value) => {
                                    proof {
                                        stored = value@;
                                    }
                                    entries.set(i, (field.clone(), value));
                                    assert(entries_view(entries@) =~= before.update(
                                        i as int,
                                        (field@, stored),
                                    ));
                                    Ok(())
                                },
                            },
                        };
                        heap.end_write(borrow, Payload::Object(entries));
                        assert(heap@ =~= with_data(
                            old(heap)@,
                            h.index as int,
                            PayloadV::Object(entries_view(entries@)),
                        ));
                        assert(r is Err ==> heap@ =~= old(heap)@);
                        proof {
                            if r is Ok && stored is Float {
                                assert((self@, heap@) == target_store(
                                    *target,
                                    ValueV::Float(stored->Float_0),
                                    old(self)@,
                                    old(heap)@,
                                ));
                            }
                        }
                        r
                    },
                    actual => Err(IrError::expected(target.span, ValueKind::Object, &actual)),
                }
            },
            IrTargetKind::Index(inner, index) => {
                let current = match self.get_target(heap, inner) {
                    Ok(value) => value,
                    Err(error) => {
                        return Err(error);
                    },
                };
                match sequence_handle(&current) {
                    None => Err(IrError::expected(target.span, ValueKind::Tuple, &current)),
                    Some((h, kind)) => {
                        let (borrow, data) = match heap.begin_write(h, kind) {
                            Ok(pair) => pair,
                            Err(error) => {
                                return Err(IrError::access(target.span, error));
                            },
                        };
                        let mut items = into_items(data);
                        let ghost before = values_view(items@);
                        let ghost mut stored = ValueV::Unit;
                        let r = if *index < items.len() {
                            match op.assign(span, &items[*index], &operand, floats) {
                                Err(error) => Err(error),
                                Ok(value) => {
                                    proof {
                                        stored = value@;
                                    }
                                    items.set(*index, value);
                                    assert(values_view(items@) =~= before.update(
                                        *index as int,
                                        stored,
                                    ));
                                    Ok(())
                                },
                            }
                        } else {
                            Err(
                                IrError::new(
                                    target.span,
                                    IrErrorKind::MissingIndex { index: *index },
                                ),
                            )
                        };
                        let data = sequence_payload(kind, items);
                        heap.end_write(borrow, data);
                        assert(heap@ =~= with_data(old(heap)@, h.index as int, data@));
                        assert(r is Err ==> heap@ =~= old(heap)@);
                        proof {
                            if r is Ok && stored is Float {
                                assert((self@, heap@) == target_store(
                                    *target,
                                    ValueV::Float(stored->Float_0),
                                    old(self)@,
                                    old(heap)@,
                                ));
                            }
                        }
                        r
                    },
                }
            },
        }
    }
}

} // verus!
