//! Matching values against patterns.

use crate::error::{IrError, IrEvalOutcome, IrErrorKind, OutcomeV};
use crate::integer::order;
use crate::floats::FloatOps;
use crate::interpreter::{IrInterpreter, StateV};
use crate::ir::{IrLit, IrPat, IrPatKind};
use crate::model::{declared, matched, matched_fields, matched_items};
use crate::scopes::{position, IrScopes};
use crate::shared::Heap;
use crate::span::Span;
use crate::value::{entries_view, values_view, IrValue, ValueKind};
use vstd::prelude::*;
use vstd::string::*;

verus! {

/// Matches `value` against `pat` and adds the names that the match binds to
/// `bindings`. After a failed match `bindings` holds no matter what.
pub fn collect(
    pat: &IrPat,
    value: &IrValue,
    heap: &mut Heap,
    bindings: &mut Vec<(String, IrValue)>,
) -> (r: Result<bool, IrError>)
    ensures
        final(heap)@ == old(heap)@,
        match matched(*pat, value@, old(heap)@, entries_view(old(bindings)@)) {
            Ok(Some(bound)) => r == Ok::<bool, IrError>(true) && entries_view(final(bindings)@)
                == bound,
            Ok(None) => r == Ok::<bool, IrError>(false),
            Err(error) => r == Err::<bool, _>(error),
        },
    decreases pat, 0nat,
{
    match &pat.kind {
        IrPatKind::Ignore => Ok(true),
        IrPatKind::Binding(name) => {
            bindings.push((name.clone(), value.clone()));
            assert(entries_view(bindings@) =~= entries_view(old(bindings)@).push((name@, value@)));
            Ok(true)
        },
        IrPatKind::Lit(IrLit::Bool(b)) => match value {
            IrValue::Bool(x) => Ok(*x == *b),
            _ => Err(IrError::expected(pat.span, ValueKind::Bool, value)),
        },
        IrPatKind::Lit(IrLit::Integer(n)) => match value {
            IrValue::Integer(x) => Ok(order(x, n) == 0),
            _ => Err(IrError::expected(pat.span, ValueKind::Integer, value)),
        },
        IrPatKind::Lit(IrLit::String(s)) => match value {
            IrValue::String(h) => match heap.read_string(*h) {
                Err(error) => Err(IrError::access(pat.span, error)),
                Ok(text) => Ok(text == *s),
            },
            _ => Err(IrError::expected(pat.span, ValueKind::String, value)),
        },
        IrPatKind::Tuple(pats) => match value {
            IrValue::Tuple(h) => match heap.read_items(*h, ValueKind::Tuple) {
                Err(error) => Err(IrError::access(pat.span, error)),
                Ok(items) => {
                    assert(values_view(items@).len() == items@.len());
                    if items.len() != pats.len() {
                        Ok(false)
                    } else {
                        collect_items(pats, &items, 0, heap, bindings)
                    }
                },
            },
            _ => Err(IrError::expected(pat.span, ValueKind::Tuple, value)),
        },
        IrPatKind::Object(fields, rest) => match value {
            IrValue::Object(h) => match heap.read_entries(*h) {
                Err(error) => Err(IrError::access(pat.span, error)),
                Ok(entries) => {
                    assert(entries_view(entries@).len() == entries@.len());
                    if !*rest && entries.len() != fields.len() {
                        Ok(false)
                    } else {
                        collect_fields(fields, &entries, 0, heap, bindings)
                    }
                },
            },
            _ => Err(IrError::expected(pat.span, ValueKind::Object, value)),
        },
    }
}

/// Matches the items from `i` on against the patterns from `i` on.
pub fn collect_items(
    pats: &Vec<IrPat>,
    items: &Vec<IrValue>,
    i: usize,
    heap: &mut Heap,
    bindings: &mut Vec<(String, IrValue)>,
) -> (r: Result<bool, IrError>)
    requires
        items@.len() == pats@.len(),
    ensures
        final(heap)@ == old(heap)@,
        match matched_items(
            pats@,
            values_view(items@),
            i as int,
            old(heap)@,
            entries_view(old(bindings)@),
        ) {
            Ok(Some(bound)) => r == Ok::<bool, IrError>(true) && entries_view(final(bindings)@)
                == bound,
            Ok(None) => r == Ok::<bool, IrError>(false),
            Err(error) => r == Err::<bool, _>(error),
        },
    decreases pats@, pats@.len() - i,
{
    if i >= pats.len() {
        return Ok(true);
    }
    match collect(&pats[i], &items[i], heap, bindings) {
        Err(error) => Err(error),
        Ok(false) => Ok(false),
        Ok(true) => collect_items(pats, items, i + 1, heap, bindings),
    }
}

/// Matches the entries of an object against the field patterns from `i` on.
pub fn collect_fields(
    fields: &Vec<(String, IrPat)>,
    entries: &Vec<(String, IrValue)>,
    i: usize,
    heap: &mut Heap,
    bindings: &mut Vec<(String, IrValue)>,
) -> (r: Result<bool, IrError>)
    ensures
        final(heap)@ == old(heap)@,
        match matched_fields(
            fields@,
            entries_view(entries@),
            i as int,
            old(heap)@,
            entries_view(old(bindings)@),
        ) {
            Ok(Some(bound)) => r == Ok::<bool, IrError>(true) && entries_view(final(bindings)@)
                == bound,
            Ok(None) => r == Ok::<bool, IrError>(false),
            Err(error) => r == Err::<bool, _>(error),
        },
    decreases fields@, fields@.len() - i,
{
    if i >= fields.len() {
        return Ok(true);
    }
    match position(entries, &fields[i].0) {
        None => Ok(false),
        Some(j) => match collect(&fields[i].1, &entries[j].1, heap, bindings) {
            Err(error) => Err(error),
            Ok(false) => Ok(false),
            Ok(true) => collect_fields(fields, entries, i + 1, heap, bindings),
        },
    }
}

/// What matching `value` against a pattern does to a state: the names that
/// the match binds are declared in the innermost scope if the value matches,
/// and nothing is changed if it does not.
pub open spec fn matches_model(pat: IrPat, value: crate::value::ValueV, span: Span, st: StateV) -> (
    Result<bool, OutcomeV>,
    StateV,
) {
    match matched(pat, value, st.heap, Seq::empty()) {
        Err(error) => (Err(OutcomeV::Error(error)), st),
        Ok(None) => (Ok(false), st),
        Ok(Some(bound)) => if st.scopes.len() == 0 {
            (Err(OutcomeV::Error(IrError { span, kind: IrErrorKind::MissingScope })), st)
        } else {
            (Ok(true), StateV { scopes: declared(st.scopes, bound, 0), ..st })
        },
    }
}

/// Declares the bindings from `i` on in the innermost scope.
fn declare_all(scopes: &mut IrScopes, bindings: &Vec<(String, IrValue)>, i: usize, span: Span)
    requires
        old(scopes)@.len() > 0,
    ensures
        final(scopes)@ == declared(old(scopes)@, entries_view(bindings@), i as int),
        final(scopes)@.len() == old(scopes)@.len(),
    decreases bindings@.len() - i,
{
    if i >= bindings.len() {
        return ;
    }
    let _ = scopes.decl(&bindings[i].0, bindings[i].1.clone(), span);
    declare_all(scopes, bindings, i + 1, span)
}

impl IrPat {
    /// Matches `value` against the pattern. On a match the names that the
    /// pattern binds are declared in the innermost scope; otherwise the scopes
    /// are left as they were. The span is where a missing scope is reported.
    pub fn matches<F: FloatOps>(
        &self,
        interp: &mut IrInterpreter<'_, F>,
        value: IrValue,
        span: Span,
    ) -> (r: Result<bool, IrEvalOutcome>)
        ensures
            final(interp)@.scopes.len() == old(interp)@.scopes.len(),
            final(interp)@ == matches_model(*self, value@, span, old(interp)@).1,
            match matches_model(*self, value@, span, old(interp)@).0 {
                Ok(b) => r == Ok::<bool, IrEvalOutcome>(b),
                Err(outcome) => r is Err && r->Err_0@ == outcome,
            },
    {
        let mut bindings: Vec<(String, IrValue)> = Vec::new();
        assert(entries_view(bindings@) =~= Seq::empty());
        match collect(self, &value, &mut interp.heap, &mut bindings) {
            Err(error) => Err(IrEvalOutcome::Error(error)),
            Ok(false) => Ok(false),
            Ok(true) => {
                if interp.scopes.len() == 0 {
                    return Err(
                        IrEvalOutcome::Error(IrError::new(span, IrErrorKind::MissingScope)),
                    );
                }
                declare_all(&mut interp.scopes, &bindings, 0, span);
                Ok(true)
            },
        }
    }
}

} // verus!
