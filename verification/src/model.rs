//! What evaluation means.
//!
//! The functions of this module say, over mathematical values, what the
//! evaluator yields and how it leaves its state. The evaluator is proved to
//! compute exactly this. Where the host has done float arithmetic or
//! formatted a float, they say what holds whatever the host answered: see
//! [`Step`].

use crate::error::{access_error, expected_error, IrError, IrErrorKind, OutcomeV};
use crate::floats::float_compare;
use crate::integer::{int_value, truncated_quotient};
use crate::interpreter::StateV;
use crate::ir::{IrAssignOp, IrBinaryOp, IrLit, IrPat, IrPatKind, IrTarget, IrTargetKind};
use crate::scopes::{declare, find, lookup, put, rebind, ScopeKind, ScopeV};
use crate::shared::{read_model, with_data, write_model, CellV};
use crate::span::Span;
use crate::value::{PayloadV, Shared, ValueKind, ValueV};
use vstd::arithmetic::power2::pow2;
use vstd::prelude::*;

verus! {

/// How a step of evaluation ends.
///
/// The first two ways are said exactly. The others come about where the host
/// has done float arithmetic or formatted a float: of its answer nothing is
/// assumed, so each says what holds whatever the answer was.
pub enum Step<T> {
    /// A result, and the state that is left.
    Done(T, StateV),
    /// An outcome that is no value, and the state that is left.
    Raise(OutcomeV, StateV),
    /// The result is a float that the host computed; the state that is left
    /// is this one.
    Float(StateV),
    /// The result is a new string cell whose text the host had a part in.
    /// The state that is left is this one with that cell added.
    Text(StateV),
    /// The result is unit, after the host computed the float that a compound
    /// assignment stored at the target. The state that is left is this one
    /// with that float at the target.
    Stored(IrTarget, StateV),
    /// The evaluation went on after one of the three above with a value or a
    /// state that hangs on the answer of the host: nothing more is said than
    /// what holds of every evaluation.
    Host,
}

/// A result that does not touch the state: a value, an error, or what only
/// the host's float arithmetic decides.
pub enum Computed {
    Value(ValueV),
    Error(IrError),
    Host,
}

/// The outcome of the error `kind` at `span`.
pub open spec fn fail(span: Span, kind: IrErrorKind) -> OutcomeV {
    OutcomeV::Error(IrError { span, kind })
}

/// Pays for one visit, or fails at `span` if nothing is left.
pub open spec fn charge(st: StateV, span: Span) -> Step<()> {
    if st.budget == 0 {
        Step::Raise(fail(span, IrErrorKind::BudgetExceeded), st)
    } else {
        Step::Done((), StateV { budget: (st.budget - 1) as nat, ..st })
    }
}

/// The state with one more scope of the given kind.
pub open spec fn opened(st: StateV, kind: ScopeKind) -> StateV {
    StateV { scopes: st.scopes.push(ScopeV { kind, locals: Seq::empty() }), ..st }
}

/// The state without its innermost scope.
pub open spec fn popped(st: StateV) -> StateV {
    StateV { scopes: st.scopes.drop_last(), ..st }
}

/// The step with the innermost scope closed, however the step ended.
pub open spec fn closed<T>(step: Step<T>) -> Step<T> {
    match step {
        Step::Done(v, s) => Step::Done(v, popped(s)),
        Step::Raise(o, s) => Step::Raise(o, popped(s)),
        Step::Float(s) => Step::Float(popped(s)),
        Step::Text(s) => Step::Text(popped(s)),
        _ => Step::Host,
    }
}

/// The state with a new string cell of the text `text`.
pub open spec fn text_shared(st: StateV, text: Seq<char>) -> StateV {
    shared(st, PayloadV::String(text))
}

/// The state with the float of the bits `bits` stored at the target.
pub open spec fn float_stored(target: IrTarget, bits: u64, st: StateV) -> StateV {
    let (scopes, heap) = target_store(target, ValueV::Float(bits), st.scopes, st.heap);
    StateV { scopes, heap, ..st }
}

/// The state with `data` in a new cell, and the index of that cell.
pub open spec fn shared(st: StateV, data: PayloadV) -> StateV {
    StateV { heap: st.heap.push(CellV { counter: 0, data }), ..st }
}

/// The handle of the cell that is made next.
pub open spec fn next_handle(st: StateV) -> Shared {
    Shared { index: st.heap.len() as usize }
}

/// The cell that a vector or a tuple lives in, with its category.
pub open spec fn sequence_cell(value: ValueV) -> Option<(Shared, ValueKind)> {
    match value {
        ValueV::Vec(h) => Some((h, ValueKind::Vec)),
        ValueV::Tuple(h) => Some((h, ValueKind::Tuple)),
        _ => None,
    }
}

/// A vector or tuple cell of the category `kind` with the given items.
pub open spec fn sequence_data(kind: ValueKind, items: Seq<ValueV>) -> PayloadV {
    if kind == ValueKind::Vec {
        PayloadV::Vec(items)
    } else {
        PayloadV::Tuple(items)
    }
}

/// The value that stands at a target.
pub open spec fn target_value(target: IrTarget, scopes: Seq<ScopeV>, heap: Seq<CellV>) -> Result<
    ValueV,
    IrError,
>
    decreases target,
{
    match target.kind {
        IrTargetKind::Name(name) => match lookup(scopes, name@, scopes.len() as int) {
            Some(value) => Ok(value),
            None => Err(IrError { span: target.span, kind: IrErrorKind::MissingLocal }),
        },
        IrTargetKind::Field(inner, field) => match target_value(*inner, scopes, heap) {
            Err(error) => Err(error),
            Ok(ValueV::Object(h)) => match read_model(heap, h, ValueKind::Object) {
                Err(error) => Err(access_error(target.span, error)),
                Ok(data) => match find(data.entries(), field@) {
                    Some(i) => Ok(data.entries()[i].1),
                    None => Err(IrError { span: target.span, kind: IrErrorKind::MissingField }),
                },
            },
            Ok(actual) => Err(expected_error(target.span, ValueKind::Object, actual)),
        },
        IrTargetKind::Index(inner, index) => match target_value(*inner, scopes, heap) {
            Err(error) => Err(error),
            Ok(value) => match sequence_cell(value) {
                None => Err(expected_error(target.span, ValueKind::Tuple, value)),
                Some((h, kind)) => match read_model(heap, h, kind) {
                    Err(error) => Err(access_error(target.span, error)),
                    Ok(data) => if index < data.items().len() {
                        Ok(data.items()[index as int])
                    } else {
                        Err(
                            IrError {
                                span: target.span,
                                kind: IrErrorKind::MissingIndex { index },
                            },
                        )
                    },
                },
            },
        },
    }
}

/// The scopes and the heap after `value` was written to a target.
pub open spec fn target_set(
    target: IrTarget,
    value: ValueV,
    scopes: Seq<ScopeV>,
    heap: Seq<CellV>,
) -> Result<(Seq<ScopeV>, Seq<CellV>), IrError> {
    match target.kind {
        IrTargetKind::Name(name) => match rebind(scopes, name@, value, scopes.len() as int) {
            Some(scopes) => Ok((scopes, heap)),
            None => Err(IrError { span: target.span, kind: IrErrorKind::MissingLocal }),
        },
        IrTargetKind::Field(inner, field) => match target_value(*inner, scopes, heap) {
            Err(error) => Err(error),
            Ok(ValueV::Object(h)) => match write_model(heap, h, ValueKind::Object) {
                Err(error) => Err(access_error(target.span, error)),
                Ok(data) => Ok(
                    (
                        scopes,
                        with_data(
                            heap,
                            h.index as int,
                            PayloadV::Object(put(data.entries(), field@, value)),
                        ),
                    ),
                ),
            },
            Ok(actual) => Err(expected_error(target.span, ValueKind::Object, actual)),
        },
        IrTargetKind::Index(inner, index) => match target_value(*inner, scopes, heap) {
            Err(error) => Err(error),
            Ok(current) => match sequence_cell(current) {
                None => Err(expected_error(target.span, ValueKind::Tuple, current)),
                Some((h, kind)) => match write_model(heap, h, kind) {
                    Err(error) => Err(access_error(target.span, error)),
                    Ok(data) => if index < data.items().len() {
                        Ok(
                            (
                                scopes,
                                with_data(
                                    heap,
                                    h.index as int,
                                    sequence_data(kind, data.items().update(index as int, value)),
                                ),
                            ),
                        )
                    } else {
                        Err(
                            IrError {
                                span: target.span,
                                kind: IrErrorKind::MissingIndex { index },
                            },
                        )
                    },
                },
            },
        },
    }
}

/// Whether `n` can be the amount of a shift.
pub open spec fn shift_amount(n: int) -> bool {
    0 <= n <= u32::MAX
}

/// What a compound assignment with the operator `op` makes of the value
/// `current` and the operand `operand`.
pub open spec fn assigned(
    op: IrAssignOp,
    span: Span,
    current: ValueV,
    operand: ValueV,
) -> Computed {
    match (current, operand) {
        (ValueV::Integer(a), ValueV::Integer(b)) => match op {
            IrAssignOp::Add => Computed::Value(ValueV::Integer(a + b)),
            IrAssignOp::Sub => Computed::Value(ValueV::Integer(a - b)),
            IrAssignOp::Mul => Computed::Value(ValueV::Integer(a * b)),
            IrAssignOp::Div => if b == 0 {
                Computed::Error(IrError { span, kind: IrErrorKind::DivisionByZero })
            } else {
                Computed::Value(ValueV::Integer(truncated_quotient(a, b)))
            },
            IrAssignOp::Shl => if shift_amount(b) {
                Computed::Value(ValueV::Integer(a * pow2(b as nat)))
            } else {
                Computed::Error(IrError { span, kind: IrErrorKind::BadShiftOperand })
            },
            IrAssignOp::Shr => if shift_amount(b) {
                Computed::Value(ValueV::Integer(a / (pow2(b as nat) as int)))
            } else {
                Computed::Error(IrError { span, kind: IrErrorKind::BadShiftOperand })
            },
        },
        (ValueV::Float(_), ValueV::Float(_)) => match op {
            IrAssignOp::Shl => Computed::Error(
                IrError { span, kind: IrErrorKind::UnsupportedOperands },
            ),
            IrAssignOp::Shr => Computed::Error(
                IrError { span, kind: IrErrorKind::UnsupportedOperands },
            ),
            _ => Computed::Host,
        },
        _ => Computed::Error(IrError { span, kind: IrErrorKind::UnsupportedOperands }),
    }
}

/// The scopes and the heap after a compound assignment to a target.
pub enum Mutated {
    /// The target holds the new value.
    Done(Seq<ScopeV>, Seq<CellV>),
    /// Nothing was changed.
    Error(IrError),
    /// The target held a float and holds the float that the host computed:
    /// scopes and heap are those of [`target_store`] for that float.
    Host,
}

/// The scopes and the heap with `value` in the place of the value that
/// stands at a target. Nothing else is changed, and nothing at all where
/// nothing stands at the target.
pub open spec fn target_store(
    target: IrTarget,
    value: ValueV,
    scopes: Seq<ScopeV>,
    heap: Seq<CellV>,
) -> (Seq<ScopeV>, Seq<CellV>) {
    match target.kind {
        IrTargetKind::Name(name) => match rebind(scopes, name@, value, scopes.len() as int) {
            Some(scopes) => (scopes, heap),
            None => (scopes, heap),
        },
        IrTargetKind::Field(inner, field) => match target_value(*inner, scopes, heap) {
            Ok(ValueV::Object(h)) => if h.index < heap.len() {
                let entries = heap[h.index as int].data.entries();
                match find(entries, field@) {
                    Some(i) => (
                        scopes,
                        with_data(
                            heap,
                            h.index as int,
                            PayloadV::Object(entries.update(i, (field@, value))),
                        ),
                    ),
                    None => (scopes, heap),
                }
            } else {
                (scopes, heap)
            },
            _ => (scopes, heap),
        },
        IrTargetKind::Index(inner, index) => match target_value(*inner, scopes, heap) {
            Ok(current) => match sequence_cell(current) {
                Some((h, kind)) => if h.index < heap.len() {
                    (
                        scopes,
                        with_data(
                            heap,
                            h.index as int,
                            sequence_data(
                                kind,
                                heap[h.index as int].data.items().update(index as int, value),
                            ),
                        ),
                    )
                } else {
                    (scopes, heap)
                },
                None => (scopes, heap),
            },
            Err(_) => (scopes, heap),
        },
    }
}

/// A name that is seen can be bound anew.
pub proof fn lemma_rebind_seen(scopes: Seq<ScopeV>, name: Seq<char>, value: ValueV, depth: int)
    requires
        lookup(scopes, name, depth) is Some,
    ensures
        rebind(scopes, name, value, depth) is Some,
    decreases depth,
{
    if 0 < depth <= scopes.len() {
        if find(scopes[depth - 1].locals, name) is None {
            lemma_rebind_seen(scopes, name, value, depth - 1);
        }
    }
}

/// The scopes and the heap after the value at a target was combined with
/// `operand` by the operator `op`. The span is that of the assignment.
pub open spec fn target_mut(
    target: IrTarget,
    op: IrAssignOp,
    span: Span,
    operand: ValueV,
    scopes: Seq<ScopeV>,
    heap: Seq<CellV>,
) -> Mutated {
    match target.kind {
        IrTargetKind::Name(name) => match lookup(scopes, name@, scopes.len() as int) {
            None => Mutated::Error(IrError { span: target.span, kind: IrErrorKind::MissingLocal }),
            Some(current) => match assigned(op, span, current, operand) {
                Computed::Host => Mutated::Host,
                Computed::Error(error) => Mutated::Error(error),
                Computed::Value(value) => match rebind(
                    scopes,
                    name@,
                    value,
                    scopes.len() as int,
                ) {
                    Some(scopes) => Mutated::Done(scopes, heap),
                    None => Mutated::Error(
                        IrError { span: target.span, kind: IrErrorKind::MissingLocal },
                    ),
                },
            },
        },
        IrTargetKind::Field(inner, field) => match target_value(*inner, scopes, heap) {
            Err(error) => Mutated::Error(error),
            Ok(ValueV::Object(h)) => match write_model(heap, h, ValueKind::Object) {
                Err(error) => Mutated::Error(access_error(target.span, error)),
                Ok(data) => match find(data.entries(), field@) {
                    None => Mutated::Error(
                        IrError { span: target.span, kind: IrErrorKind::MissingField },
                    ),
                    Some(i) => match assigned(op, span, data.entries()[i].1, operand) {
                        Computed::Host => Mutated::Host,
                        Computed::Error(error) => Mutated::Error(error),
                        Computed::Value(value) => Mutated::Done(
                            scopes,
                            with_data(
                                heap,
                                h.index as int,
                                PayloadV::Object(data.entries().update(i, (field@, value))),
                            ),
                        ),
                    },
                },
            },
            Ok(actual) => Mutated::Error(expected_error(target.span, ValueKind::Object, actual)),
        },
        IrTargetKind::Index(inner, index) => match target_value(*inner, scopes, heap) {
            Err(error) => Mutated::Error(error),
            Ok(current) => match sequence_cell(current) {
                None => Mutated::Error(expected_error(target.span, ValueKind::Tuple, current)),
                Some((h, kind)) => match write_model(heap, h, kind) {
                    Err(error) => Mutated::Error(access_error(target.span, error)),
                    Ok(data) => if index < data.items().len() {
                        match assigned(op, span, data.items()[index as int], operand) {
                            Computed::Host => Mutated::Host,
                            Computed::Error(error) => Mutated::Error(error),
                            Computed::Value(value) => Mutated::Done(
                                scopes,
                                with_data(
                                    heap,
                                    h.index as int,
                                    sequence_data(kind, data.items().update(index as int, value)),
                                ),
                            ),
                        }
                    } else {
                        Mutated::Error(
                            IrError {
                                span: target.span,
                                kind: IrErrorKind::MissingIndex { index },
                            },
                        )
                    },
                },
            },
        },
    }
}

/// What a binary operator makes of two integers. The span is that of the
/// operation, `rhs` that of its right operand.
pub open spec fn integer_binary(op: IrBinaryOp, span: Span, rhs: Span, a: int, b: int) -> Result<
    ValueV,
    IrError,
> {
    match op {
        IrBinaryOp::Add => Ok(ValueV::Integer(a + b)),
        IrBinaryOp::Sub => Ok(ValueV::Integer(a - b)),
        IrBinaryOp::Mul => Ok(ValueV::Integer(a * b)),
        IrBinaryOp::Div => if b == 0 {
            Err(IrError { span, kind: IrErrorKind::DivisionByZero })
        } else {
            Ok(ValueV::Integer(truncated_quotient(a, b)))
        },
        IrBinaryOp::Shl => if shift_amount(b) {
            Ok(ValueV::Integer(a * pow2(b as nat)))
        } else {
            Err(IrError { span: rhs, kind: IrErrorKind::BadShiftOperand })
        },
        IrBinaryOp::Shr => if shift_amount(b) {
            Ok(ValueV::Integer(a / (pow2(b as nat) as int)))
        } else {
            Err(IrError { span: rhs, kind: IrErrorKind::BadShiftOperand })
        },
        IrBinaryOp::Lt => Ok(ValueV::Bool(a < b)),
        IrBinaryOp::Lte => Ok(ValueV::Bool(a <= b)),
        IrBinaryOp::Eq => Ok(ValueV::Bool(a == b)),
        IrBinaryOp::Gt => Ok(ValueV::Bool(a > b)),
        IrBinaryOp::Gte => Ok(ValueV::Bool(a >= b)),
    }
}

/// The new string cell that holds the text of `a` followed by that of `b`.
pub open spec fn concatenated(span: Span, a: Shared, b: Shared, st: StateV) -> Step<ValueV> {
    match read_model(st.heap, a, ValueKind::String) {
        Err(error) => Step::Raise(OutcomeV::Error(access_error(span, error)), st),
        Ok(left) => match read_model(st.heap, b, ValueKind::String) {
            Err(error) => Step::Raise(OutcomeV::Error(access_error(span, error)), st),
            Ok(right) => Step::Done(
                ValueV::String(next_handle(st)),
                shared(st, PayloadV::String(left.text() + right.text())),
            ),
        },
    }
}

/// What a binary operator makes of two values.
pub open spec fn binary(
    op: IrBinaryOp,
    span: Span,
    rhs: Span,
    a: ValueV,
    b: ValueV,
    st: StateV,
) -> Step<ValueV> {
    match (a, b) {
        (ValueV::Integer(a), ValueV::Integer(b)) => match integer_binary(op, span, rhs, a, b) {
            Ok(value) => Step::Done(value, st),
            Err(error) => Step::Raise(OutcomeV::Error(error), st),
        },
        (ValueV::Float(a), ValueV::Float(b)) => match op {
            IrBinaryOp::Shl => Step::Raise(OutcomeV::NotConst(span), st),
            IrBinaryOp::Shr => Step::Raise(OutcomeV::NotConst(span), st),
            IrBinaryOp::Add => Step::Float(st),
            IrBinaryOp::Sub => Step::Float(st),
            IrBinaryOp::Mul => Step::Float(st),
            IrBinaryOp::Div => Step::Float(st),
            _ => Step::Done(ValueV::Bool(float_compare(op, a, b)), st),
        },
        (ValueV::String(a), ValueV::String(b)) => match op {
            IrBinaryOp::Add => concatenated(span, a, b, st),
            _ => Step::Raise(OutcomeV::NotConst(span), st),
        },
        _ => Step::Raise(OutcomeV::NotConst(span), st),
    }
}

/// The bindings that a match of `value` against a pattern adds to
/// `bindings`, or nothing if the value does not match.
pub open spec fn matched(
    pat: IrPat,
    value: ValueV,
    heap: Seq<CellV>,
    bindings: Seq<(Seq<char>, ValueV)>,
) -> Result<Option<Seq<(Seq<char>, ValueV)>>, IrError>
    decreases pat, 0nat,
{
    match pat.kind {
        IrPatKind::Ignore => Ok(Some(bindings)),
        IrPatKind::Binding(name) => Ok(Some(bindings.push((name@, value)))),
        IrPatKind::Lit(IrLit::Bool(b)) => match value {
            ValueV::Bool(x) => Ok(if x == b { Some(bindings) } else { None }),
            _ => Err(expected_error(pat.span, ValueKind::Bool, value)),
        },
        IrPatKind::Lit(IrLit::Integer(n)) => match value {
            ValueV::Integer(x) => Ok(if x == int_value(n) { Some(bindings) } else { None }),
            _ => Err(expected_error(pat.span, ValueKind::Integer, value)),
        },
        IrPatKind::Lit(IrLit::String(s)) => match value {
            ValueV::String(h) => match read_model(heap, h, ValueKind::String) {
                Err(error) => Err(access_error(pat.span, error)),
                Ok(data) => Ok(if data.text() == s@ { Some(bindings) } else { None }),
            },
            _ => Err(expected_error(pat.span, ValueKind::String, value)),
        },
        IrPatKind::Tuple(pats) => match value {
            ValueV::Tuple(h) => match read_model(heap, h, ValueKind::Tuple) {
                Err(error) => Err(access_error(pat.span, error)),
                Ok(data) => if data.items().len() != pats@.len() {
                    Ok(None)
                } else {
                    matched_items(pats@, data.items(), 0, heap, bindings)
                },
            },
            _ => Err(expected_error(pat.span, ValueKind::Tuple, value)),
        },
        IrPatKind::Object(fields, rest) => match value {
            ValueV::Object(h) => match read_model(heap, h, ValueKind::Object) {
                Err(error) => Err(access_error(pat.span, error)),
                Ok(data) => if !rest && data.entries().len() != fields@.len() {
                    Ok(None)
                } else {
                    matched_fields(fields@, data.entries(), 0, heap, bindings)
                },
            },
            _ => Err(expected_error(pat.span, ValueKind::Object, value)),
        },
    }
}

/// The bindings that the matches of the items from `i` on against the
/// patterns from `i` on add to `bindings`.
pub open spec fn matched_items(
    pats: Seq<IrPat>,
    items: Seq<ValueV>,
    i: int,
    heap: Seq<CellV>,
    bindings: Seq<(Seq<char>, ValueV)>,
) -> Result<Option<Seq<(Seq<char>, ValueV)>>, IrError>
    decreases pats, pats.len() - i,
{
    if i < 0 || i >= pats.len() {
        Ok(Some(bindings))
    } else {
        match matched(pats[i], items[i], heap, bindings) {
            Err(error) => Err(error),
            Ok(None) => Ok(None),
            Ok(Some(bindings)) => matched_items(pats, items, i + 1, heap, bindings),
        }
    }
}

/// The bindings that the matches of the field patterns from `i` on against
/// the entries of an object add to `bindings`.
pub open spec fn matched_fields(
    fields: Seq<(String, IrPat)>,
    entries: Seq<(Seq<char>, ValueV)>,
    i: int,
    heap: Seq<CellV>,
    bindings: Seq<(Seq<char>, ValueV)>,
) -> Result<Option<Seq<(Seq<char>, ValueV)>>, IrError>
    decreases fields, fields.len() - i,
{
    if i < 0 || i >= fields.len() {
        Ok(Some(bindings))
    } else {
        match find(entries, fields[i].0@) {
            None => Ok(None),
            Some(j) => match matched(fields[i].1, entries[j].1, heap, bindings) {
                Err(error) => Err(error),
                Ok(None) => Ok(None),
                Ok(Some(bindings)) => matched_fields(fields, entries, i + 1, heap, bindings),
            },
        }
    }
}

/// The scopes with the bindings from `i` on declared in the innermost one,
/// in their order.
pub open spec fn declared(scopes: Seq<ScopeV>, bindings: Seq<(Seq<char>, ValueV)>, i: int) -> Seq<
    ScopeV,
>
    decreases bindings.len() - i,
{
    if i < 0 || i >= bindings.len() {
        scopes
    } else {
        declared(declare(scopes, bindings[i].0, bindings[i].1), bindings, i + 1)
    }
}

/// Setting a binding keeps the depth of the stack.
pub proof fn lemma_rebind_depth(scopes: Seq<ScopeV>, name: Seq<char>, value: ValueV, depth: int)
    ensures
        rebind(scopes, name, value, depth) matches Some(s) ==> s.len() == scopes.len(),
    decreases depth,
{
    if 0 < depth <= scopes.len() {
        lemma_rebind_depth(scopes, name, value, depth - 1);
    }
}

/// Declaring bindings keeps the depth of the stack.
pub proof fn lemma_declared_depth(scopes: Seq<ScopeV>, bindings: Seq<(Seq<char>, ValueV)>, i: int)
    requires
        scopes.len() > 0,
    ensures
        declared(scopes, bindings, i).len() == scopes.len(),
    decreases bindings.len() - i,
{
    if 0 <= i < bindings.len() {
        lemma_declared_depth(declare(scopes, bindings[i].0, bindings[i].1), bindings, i + 1);
    }
}

/// A write to a target keeps the depth of the stack.
pub proof fn lemma_target_set_depth(
    target: IrTarget,
    value: ValueV,
    scopes: Seq<ScopeV>,
    heap: Seq<CellV>,
)
    ensures
        target_set(target, value, scopes, heap) matches Ok((s, _)) ==> s.len() == scopes.len(),
{
    match target.kind {
        IrTargetKind::Name(name) => {
            lemma_rebind_depth(scopes, name@, value, scopes.len() as int);
        },
        _ => {},
    }
}

/// A compound assignment to a target keeps the depth of the stack.
pub proof fn lemma_target_mut_depth(
    target: IrTarget,
    op: IrAssignOp,
    span: Span,
    operand: ValueV,
    scopes: Seq<ScopeV>,
    heap: Seq<CellV>,
)
    ensures
        target_mut(target, op, span, operand, scopes, heap) matches Mutated::Done(s, _) ==> s.len()
            == scopes.len(),
{
    match target.kind {
        IrTargetKind::Name(name) => {
            match lookup(scopes, name@, scopes.len() as int) {
                Some(current) => {
                    match assigned(op, span, current, operand) {
                        Computed::Value(value) => {
                            lemma_rebind_depth(scopes, name@, value, scopes.len() as int);
                        },
                        _ => {},
                    }
                },
                None => {},
            }
        },
        _ => {},
    }
}

} // verus!
