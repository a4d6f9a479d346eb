//! Each key once.
//!
//! The bindings of a scope and the entries of an object are kept in the
//! order in which their keys first came, each key once. That holds of every
//! scope and object that the evaluator makes, and the evaluator keeps it:
//! from a state in which each key stands once it leaves a state in which each
//! key stands once.

use crate::interpreter::{StateV, Used};
use crate::ir::{
    Ir, IrAssign, IrAssignOp, IrBinary, IrBranches, IrBreak, IrCall, IrCondition, IrDecl, IrKind,
    IrLoop, IrScope, IrSet, IrTarget, IrTargetKind, IrTemplate, IrTemplateComponent,
};
use crate::laws::{
    keeps, lemma_block, lemma_branch, lemma_condition, lemma_eval_ir, lemma_instructions,
    lemma_items, lemma_loop_condition, lemma_loop_turns, lemma_scope_body,
};
use crate::model::{
    assigned, closed, declared, float_stored, matched, opened, popped, target_mut, target_set,
    target_store, target_value, text_shared, Computed, Mutated, Step,
};
use crate::scopes::{
    cleared, declare, distinct_keys, find, lemma_find, lemma_put, lookup, put, rebind, ScopeKind,
    ScopeV,
};
use crate::semantics::{
    as_value, block_model, bool_text, bound, branch_model, call_const_fn_model, condition_model,
    eval_ir_assign_model, eval_ir_binary_model, eval_ir_branches_model, eval_ir_break_model,
    eval_ir_call_model, eval_ir_decl_model, eval_ir_loop_model, eval_ir_model, eval_ir_scope_model,
    eval_ir_set_model, eval_ir_template_model, fields_model, instructions_model, items_model,
    joined, loop_condition_model, loop_turns_model, scope_body_model, spent, template_parts_model,
};
use crate::shared::{read_model, write_model, CellV};
use crate::span::Span;
use crate::text::signed_decimal;
use crate::value::{ValueKind, ValueV};
use vstd::prelude::*;

verus! {

/// In every scope each name stands once.
pub open spec fn keyed_scopes(scopes: Seq<ScopeV>) -> bool {
    forall|i: int| 0 <= i < scopes.len() ==> distinct_keys((#[trigger] scopes[i]).locals)
}

/// In every object cell each key stands once.
pub open spec fn keyed_heap(heap: Seq<CellV>) -> bool {
    forall|i: int| 0 <= i < heap.len() ==> (#[trigger] heap[i]).data.well_keyed()
}

/// In every scope and in every object cell each key stands once.
pub open spec fn keyed_state(st: StateV) -> bool {
    keyed_scopes(st.scopes) && keyed_heap(st.heap)
}

/// The step leaves a state in which each key stands once.
pub open spec fn keyed<T>(step: Step<T>) -> bool {
    match step {
        Step::Done(_, s) => keyed_state(s),
        Step::Raise(_, s) => keyed_state(s),
        Step::Float(s) => keyed_state(s),
        Step::Text(s) => forall|text: Seq<char>| keyed_state(#[trigger] text_shared(s, text)),
        Step::Stored(target, s) => forall|bits: u64|
            keyed_state(#[trigger] float_stored(target, bits, s)),
        Step::Host => true,
    }
}

proof fn lemma_rebind(scopes: Seq<ScopeV>, name: Seq<char>, value: ValueV, depth: int)
    requires
        keyed_scopes(scopes),
    ensures
        rebind(scopes, name, value, depth) matches Some(s) ==> keyed_scopes(s),
    decreases depth,
{
    if 0 < depth <= scopes.len() {
        let locals = scopes[depth - 1].locals;
        lemma_find(locals, name);
        match find(locals, name) {
            Some(i) => {
                assert(distinct_keys(locals.update(i, (name, value))));
            },
            None => {
                lemma_rebind(scopes, name, value, depth - 1);
            },
        }
    }
}

proof fn lemma_declare(scopes: Seq<ScopeV>, name: Seq<char>, value: ValueV)
    requires
        keyed_scopes(scopes),
        scopes.len() > 0,
    ensures
        keyed_scopes(declare(scopes, name, value)),
{
    lemma_put(scopes.last().locals, name, value);
}

proof fn lemma_declared(scopes: Seq<ScopeV>, bindings: Seq<(Seq<char>, ValueV)>, i: int)
    requires
        keyed_scopes(scopes),
        scopes.len() > 0,
        0 <= i,
    ensures
        keyed_scopes(declared(scopes, bindings, i)),
    decreases bindings.len() - i,
{
    if i < bindings.len() {
        lemma_declare(scopes, bindings[i].0, bindings[i].1);
        lemma_declared(declare(scopes, bindings[i].0, bindings[i].1), bindings, i + 1);
    }
}

proof fn lemma_bound(
    params: Seq<String>,
    args: Seq<ValueV>,
    i: int,
    locals: Seq<(Seq<char>, ValueV)>,
)
    requires
        distinct_keys(locals),
        0 <= i,
    ensures
        distinct_keys(bound(params, args, i, locals)),
    decreases params.len() - i,
{
    if i < params.len() {
        lemma_put(locals, params[i]@, args[i]);
        lemma_bound(params, args, i + 1, put(locals, params[i]@, args[i]));
    }
}

/// A value put in the place of the one at a target keeps each key once.
proof fn lemma_target_store(target: IrTarget, value: ValueV, scopes: Seq<ScopeV>, heap: Seq<CellV>)
    requires
        keyed_scopes(scopes),
        keyed_heap(heap),
    ensures
        keyed_scopes(target_store(target, value, scopes, heap).0),
        keyed_heap(target_store(target, value, scopes, heap).1),
{
    match target.kind {
        IrTargetKind::Name(name) => {
            lemma_rebind(scopes, name@, value, scopes.len() as int);
        },
        IrTargetKind::Field(inner, field) => {
            match target_value(*inner, scopes, heap) {
                Ok(ValueV::Object(h)) => {
                    if h.index < heap.len() {
                        let entries = heap[h.index as int].data.entries();
                        lemma_find(entries, field@);
                        match find(entries, field@) {
                            Some(i) => {
                                assert(heap[h.index as int].data.well_keyed());
                                assert(distinct_keys(entries.update(i, (field@, value))));
                            },
                            None => {},
                        }
                    }
                },
                _ => {},
            }
        },
        IrTargetKind::Index(inner, index) => {},
    }
}

proof fn lemma_target_set(target: IrTarget, value: ValueV, scopes: Seq<ScopeV>, heap: Seq<CellV>)
    requires
        keyed_scopes(scopes),
        keyed_heap(heap),
    ensures
        target_set(target, value, scopes, heap) matches Ok((s, h)) ==> keyed_scopes(s)
            && keyed_heap(h),
{
    match target.kind {
        IrTargetKind::Name(name) => {
            lemma_rebind(scopes, name@, value, scopes.len() as int);
        },
        IrTargetKind::Field(inner, field) => {
            match target_value(*inner, scopes, heap) {
                Ok(ValueV::Object(h)) => {
                    match write_model(heap, h, ValueKind::Object) {
                        Ok(data) => {
                            assert(heap[h.index as int].data.well_keyed());
                            lemma_put(data.entries(), field@, value);
                        },
                        Err(_) => {},
                    }
                },
                _ => {},
            }
        },
        IrTargetKind::Index(inner, index) => {},
    }
}

proof fn lemma_target_mut(
    target: IrTarget,
    op: IrAssignOp,
    span: Span,
    operand: ValueV,
    scopes: Seq<ScopeV>,
    heap: Seq<CellV>,
)
    requires
        keyed_scopes(scopes),
        keyed_heap(heap),
    ensures
        target_mut(target, op, span, operand, scopes, heap) matches Mutated::Done(s, h)
            ==> keyed_scopes(s) && keyed_heap(h),
{
    match target.kind {
        IrTargetKind::Name(name) => {
            match lookup(scopes, name@, scopes.len() as int) {
                Some(current) => {
                    match assigned(op, span, current, operand) {
                        Computed::Value(value) => {
                            lemma_rebind(scopes, name@, value, scopes.len() as int);
                        },
                        _ => {},
                    }
                },
                None => {},
            }
        },
        IrTargetKind::Field(inner, field) => {
            match target_value(*inner, scopes, heap) {
                Ok(ValueV::Object(h)) => {
                    match write_model(heap, h, ValueKind::Object) {
                        Ok(data) => {
                            assert(heap[h.index as int].data.well_keyed());
                            lemma_find(data.entries(), field@);
                            match find(data.entries(), field@) {
                                Some(i) => {
                                    match assigned(op, span, data.entries()[i].1, operand) {
                                        Computed::Value(value) => {
                                            assert(distinct_keys(
                                                data.entries().update(i, (field@, value)),
                                            ));
                                        },
                                        _ => {},
                                    }
                                },
                                None => {},
                            }
                        },
                        Err(_) => {},
                    }
                },
                _ => {},
            }
        },
        IrTargetKind::Index(inner, index) => {},
    }
}

proof fn lemma_closed<T>(step: Step<T>, inner: StateV)
    requires
        keyed(step),
        keeps(step, inner),
        inner.scopes.len() > 0,
    ensures
        keyed(closed(step)),
{
    match step {
        Step::Done(_, s) => {
            assert(keyed_scopes(s.scopes.drop_last()));
        },
        Step::Raise(_, s) => {
            assert(keyed_scopes(s.scopes.drop_last()));
        },
        Step::Float(s) => {
            assert(keyed_scopes(s.scopes.drop_last()));
        },
        Step::Text(s) => {
            assert forall|text: Seq<char>|
                keyed_state(#[trigger] text_shared(popped(s), text)) by {
                assert(keyed_state(text_shared(s, text)));
                assert(keyed_scopes(s.scopes.drop_last()));
            }
        },
        _ => {},
    }
}

/// The evaluation of a node keeps each key once.
pub proof fn lemma_keyed_ir(ir: Ir, used: Used, st: StateV)
    requires
        keyed_state(st),
    ensures
        keyed(eval_ir_model(ir, used, st)),
    decreases st.budget, 0nat, 0nat,
{
    if st.budget > 0 {
        let s = spent(st);
        match ir.kind {
            IrKind::Scope(scope) => lemma_keyed_scope(scope, used, s),
            IrKind::Binary(b) => lemma_keyed_binary(b, used, s),
            IrKind::Decl(decl) => lemma_keyed_decl(decl, used, s),
            IrKind::SetTarget(set) => lemma_keyed_set(set, used, s),
            IrKind::Assign(assign) => lemma_keyed_assign(assign, used, s),
            IrKind::Template(template) => lemma_keyed_template(template, used, s),
            IrKind::Name(_) => {},
            IrKind::Target(_) => {},
            IrKind::Value(_) => {},
            IrKind::Branches(branches) => lemma_keyed_branches(branches, 0, used, s),
            IrKind::Loop(l) => lemma_keyed_loop(l, used, s),
            IrKind::Break(b) => lemma_keyed_break(b, used, s),
            IrKind::Vec(vec) => {
                lemma_keyed_items(vec.items@, 0, Seq::empty(), used, s);
            },
            IrKind::Tuple(tuple) => {
                lemma_keyed_items(tuple.items@, 0, Seq::empty(), used, s);
            },
            IrKind::Object(object) => {
                lemma_keyed_fields(object.assignments@, 0, Seq::empty(), used, s);
            },
            IrKind::Call(call) => lemma_keyed_call(call, used, s),
        }
    }
}

proof fn lemma_keyed_instructions(instructions: Seq<Ir>, i: int, used: Used, st: StateV)
    requires
        keyed_state(st),
        0 <= i,
    ensures
        keyed(instructions_model(instructions, i, used, st)),
    decreases st.budget, 1nat, instructions.len() - i,
{
    if i < instructions.len() {
        lemma_keyed_ir(instructions[i], used, st);
        lemma_eval_ir(instructions[i], used, st);
        match eval_ir_model(instructions[i], used, st) {
            Step::Done(_, s) => {
                lemma_keyed_instructions(instructions, i + 1, used, s);
            },
            Step::Float(s) => {
                lemma_keyed_instructions(instructions, i + 1, used, s);
            },
            _ => {},
        }
    }
}

proof fn lemma_keyed_items(items: Seq<Ir>, i: int, values: Seq<ValueV>, used: Used, st: StateV)
    requires
        keyed_state(st),
        0 <= i,
    ensures
        keyed(items_model(items, i, values, used, st)),
    decreases st.budget, 1nat, items.len() - i,
{
    if i < items.len() {
        lemma_keyed_ir(items[i], used, st);
        lemma_eval_ir(items[i], used, st);
        match eval_ir_model(items[i], used, st) {
            Step::Done(value, s) => {
                lemma_keyed_items(items, i + 1, values.push(value), used, s);
            },
            _ => {},
        }
    }
}

proof fn lemma_keyed_fields(
    assignments: Seq<(String, Ir)>,
    i: int,
    entries: Seq<(Seq<char>, ValueV)>,
    used: Used,
    st: StateV,
)
    requires
        keyed_state(st),
        distinct_keys(entries),
        0 <= i,
    ensures
        keyed(fields_model(assignments, i, entries, used, st)),
        fields_model(assignments, i, entries, used, st) matches Step::Done(made, _)
            ==> distinct_keys(made),
    decreases st.budget, 1nat, assignments.len() - i,
{
    if i < assignments.len() {
        lemma_keyed_ir(assignments[i].1, used, st);
        lemma_eval_ir(assignments[i].1, used, st);
        match eval_ir_model(assignments[i].1, used, st) {
            Step::Done(value, s) => {
                lemma_put(entries, assignments[i].0@, value);
                lemma_keyed_fields(
                    assignments,
                    i + 1,
                    put(entries, assignments[i].0@, value),
                    used,
                    s,
                );
            },
            _ => {},
        }
    }
}

proof fn lemma_keyed_scope_body(scope: IrScope, used: Used, st: StateV)
    requires
        keyed_state(st),
    ensures
        keyed(scope_body_model(scope, used, st)),
    decreases st.budget, 2nat, 0nat,
{
    lemma_keyed_instructions(scope.instructions@, 0, used, st);
    lemma_instructions(scope.instructions@, 0, used, st);
    match instructions_model(scope.instructions@, 0, used, st) {
        Step::Done(_, s) => match scope.last {
            Some(last) => {
                lemma_keyed_ir(*last, used, s);
            },
            None => {},
        },
        _ => {},
    }
}

proof fn lemma_keyed_scope(scope: IrScope, used: Used, st: StateV)
    requires
        keyed_state(st),
    ensures
        keyed(eval_ir_scope_model(scope, used, st)),
    decreases st.budget, 3nat, 0nat,
{
    let inner = opened(st, ScopeKind::Plain);
    lemma_keyed_scope_body(scope, used, inner);
    lemma_scope_body(scope, used, inner);
    lemma_closed(scope_body_model(scope, used, inner), inner);
}

proof fn lemma_keyed_block(scope: IrScope, used: Used, st: StateV)
    requires
        keyed_state(st),
    ensures
        keyed(block_model(scope, used, st)),
    decreases st.budget, 3nat, 1nat,
{
    if st.budget > 0 {
        lemma_keyed_scope(scope, used, spent(st));
    }
}

proof fn lemma_keyed_binary(ir: IrBinary, used: Used, st: StateV)
    requires
        keyed_state(st),
    ensures
        keyed(eval_ir_binary_model(ir, used, st)),
    decreases st.budget, 3nat, 0nat,
{
    lemma_keyed_ir(*ir.lhs, used, st);
    lemma_eval_ir(*ir.lhs, used, st);
    match eval_ir_model(*ir.lhs, used, st) {
        Step::Done(a, s) => {
            lemma_keyed_ir(*ir.rhs, used, s);
        },
        _ => {},
    }
}

proof fn lemma_keyed_decl(ir: IrDecl, used: Used, st: StateV)
    requires
        keyed_state(st),
    ensures
        keyed(eval_ir_decl_model(ir, used, st)),
    decreases st.budget, 3nat, 0nat,
{
    lemma_keyed_ir(*ir.value, used, st);
    match eval_ir_model(*ir.value, used, st) {
        Step::Done(value, s) => {
            if s.scopes.len() > 0 {
                lemma_declare(s.scopes, ir.name@, value);
            }
        },
        _ => {},
    }
}

proof fn lemma_keyed_set(ir: IrSet, used: Used, st: StateV)
    requires
        keyed_state(st),
    ensures
        keyed(eval_ir_set_model(ir, used, st)),
    decreases st.budget, 3nat, 0nat,
{
    lemma_keyed_ir(*ir.value, used, st);
    match eval_ir_model(*ir.value, used, st) {
        Step::Done(value, s) => {
            lemma_target_set(ir.target, value, s.scopes, s.heap);
        },
        _ => {},
    }
}

proof fn lemma_keyed_assign(ir: IrAssign, used: Used, st: StateV)
    requires
        keyed_state(st),
    ensures
        keyed(eval_ir_assign_model(ir, used, st)),
    decreases st.budget, 3nat, 0nat,
{
    lemma_keyed_ir(*ir.value, used, st);
    match eval_ir_model(*ir.value, used, st) {
        Step::Done(value, s) => {
            lemma_target_mut(ir.target, ir.op, ir.span, value, s.scopes, s.heap);
            assert forall|bits: u64| keyed_state(#[trigger] float_stored(ir.target, bits, s)) by {
                lemma_target_store(ir.target, ValueV::Float(bits), s.scopes, s.heap);
            }
        },
        _ => {},
    }
}

proof fn lemma_keyed_template_parts(
    components: Seq<IrTemplateComponent>,
    i: int,
    text: Option<Seq<char>>,
    used: Used,
    st: StateV,
)
    requires
        keyed_state(st),
        0 <= i,
    ensures
        keyed(template_parts_model(components, i, text, used, st)),
    decreases st.budget, 1nat, components.len() - i,
{
    if i < components.len() {
        match components[i] {
            IrTemplateComponent::String(s) => {
                lemma_keyed_template_parts(components, i + 1, joined(text, s@), used, st);
            },
            IrTemplateComponent::Ir(ir) => {
                lemma_keyed_ir(ir, used, st);
                lemma_eval_ir(ir, used, st);
                match eval_ir_model(ir, used, st) {
                    Step::Done(value, s) => match value {
                        ValueV::Integer(n) => {
                            lemma_keyed_template_parts(
                                components,
                                i + 1,
                                joined(text, signed_decimal(n)),
                                used,
                                s,
                            );
                        },
                        ValueV::Bool(b) => {
                            lemma_keyed_template_parts(
                                components,
                                i + 1,
                                joined(text, bool_text(b)),
                                used,
                                s,
                            );
                        },
                        ValueV::String(h) => match read_model(s.heap, h, ValueKind::String) {
                            Ok(data) => {
                                lemma_keyed_template_parts(
                                    components,
                                    i + 1,
                                    joined(text, data.text()),
                                    used,
                                    s,
                                );
                            },
                            Err(_) => {},
                        },
                        ValueV::Float(_) => {
                            lemma_keyed_template_parts(components, i + 1, None, used, s);
                        },
                        _ => {},
                    },
                    Step::Float(s) => {
                        lemma_keyed_template_parts(components, i + 1, None, used, s);
                    },
                    _ => {},
                }
            },
        }
    }
}

proof fn lemma_keyed_template(ir: IrTemplate, used: Used, st: StateV)
    requires
        keyed_state(st),
    ensures
        keyed(eval_ir_template_model(ir, used, st)),
    decreases st.budget, 3nat, 0nat,
{
    lemma_keyed_template_parts(ir.components@, 0, Some(Seq::empty()), used, st);
}

proof fn lemma_keyed_condition(condition: IrCondition, used: Used, st: StateV)
    requires
        keyed_state(st),
    ensures
        keyed(condition_model(condition, used, st)),
    decreases st.budget, 1nat, 0nat,
{
    match condition {
        IrCondition::Ir(ir) => {
            lemma_keyed_ir(ir, used, st);
        },
        IrCondition::Let(ir_let) => {
            lemma_keyed_ir(ir_let.ir, used, st);
            match eval_ir_model(ir_let.ir, used, st) {
                Step::Done(value, s) => {
                    match matched(ir_let.pat, value, s.heap, Seq::empty()) {
                        Ok(Some(bound)) => {
                            if s.scopes.len() > 0 {
                                lemma_declared(s.scopes, bound, 0);
                            }
                        },
                        _ => {},
                    }
                },
                _ => {},
            }
        },
    }
}

proof fn lemma_keyed_branch(condition: IrCondition, body: IrScope, used: Used, st: StateV)
    requires
        keyed_state(st),
    ensures
        keyed(branch_model(condition, body, used, st)),
    decreases st.budget, 4nat, 0nat,
{
    lemma_keyed_condition(condition, used, st);
    lemma_condition(condition, used, st);
    match condition_model(condition, used, st) {
        Step::Done(true, s) => {
            lemma_keyed_block(body, used, s);
        },
        _ => {},
    }
}

proof fn lemma_keyed_branches(ir: IrBranches, i: int, used: Used, st: StateV)
    requires
        keyed_state(st),
        0 <= i,
    ensures
        keyed(eval_ir_branches_model(ir, i, used, st)),
    decreases st.budget, 5nat, ir.branches@.len() - i,
{
    if i >= ir.branches@.len() {
        match ir.default_branch {
            Some(scope) => {
                lemma_keyed_block(scope, used, st);
            },
            None => {},
        }
    } else {
        let inner = opened(st, ScopeKind::Plain);
        let step = branch_model(ir.branches@[i].0, ir.branches@[i].1, used, inner);
        lemma_keyed_branch(ir.branches@[i].0, ir.branches@[i].1, used, inner);
        lemma_branch(ir.branches@[i].0, ir.branches@[i].1, used, inner);
        lemma_closed(step, inner);
        match closed(step) {
            Step::Done(None, s) => {
                lemma_keyed_branches(ir, i + 1, used, s);
            },
            _ => {},
        }
    }
}

proof fn lemma_keyed_loop_condition(ir: IrLoop, used: Used, st: StateV)
    requires
        keyed_state(st),
    ensures
        keyed(loop_condition_model(ir, used, st)),
    decreases st.budget, 2nat, 0nat,
{
    match ir.condition {
        None => {},
        Some(condition) => {
            if st.scopes.len() > 0 {
                assert(keyed_scopes(cleared(st.scopes)));
                let cleared_state = StateV { scopes: cleared(st.scopes), ..st };
                lemma_keyed_condition(*condition, used, cleared_state);
            }
        },
    }
}

proof fn lemma_keyed_loop_turns(ir: IrLoop, used: Used, st: StateV)
    requires
        keyed_state(st),
    ensures
        keyed(loop_turns_model(ir, used, st)),
    decreases st.budget, 4nat, 0nat,
{
    lemma_keyed_loop_condition(ir, used, st);
    lemma_loop_condition(ir, used, st);
    match loop_condition_model(ir, used, st) {
        Step::Done(true, s) => {
            lemma_keyed_block(ir.body, used, s);
            lemma_block(ir.body, used, s);
            match block_model(ir.body, used, s) {
                Step::Done(_, s) => {
                    lemma_keyed_loop_turns(ir, used, s);
                },
                Step::Float(s) => {
                    lemma_keyed_loop_turns(ir, used, s);
                },
                _ => {},
            }
        },
        _ => {},
    }
}

proof fn lemma_keyed_loop(ir: IrLoop, used: Used, st: StateV)
    requires
        keyed_state(st),
    ensures
        keyed(eval_ir_loop_model(ir, used, st)),
    decreases st.budget, 5nat, 0nat,
{
    let inner = opened(st, ScopeKind::Plain);
    lemma_keyed_loop_turns(ir, used, inner);
    lemma_loop_turns(ir, used, inner);
    lemma_closed(loop_turns_model(ir, used, inner), inner);
}

proof fn lemma_keyed_break(ir: IrBreak, used: Used, st: StateV)
    requires
        keyed_state(st),
    ensures
        keyed(eval_ir_break_model(ir, used, st)),
    decreases st.budget, 3nat, 0nat,
{
    match ir.value {
        Some(value) => {
            lemma_keyed_ir(*value, used, st);
        },
        None => {},
    }
}

proof fn lemma_keyed_call_const_fn(
    span: Span,
    target: u64,
    args: Seq<ValueV>,
    used: Used,
    st: StateV,
)
    requires
        keyed_state(st),
    ensures
        keyed(call_const_fn_model(span, target, args, used, st)),
    decreases st.budget, 1nat, 0nat,
{
    match st.query.position(target) {
        None => {},
        Some(i) => {
            let const_fn = st.query.fns@[i];
            if const_fn.args@.len() == args.len() {
                lemma_bound(const_fn.args@, args, 0, Seq::empty());
                let entered = StateV {
                    scopes: st.scopes.push(
                        ScopeV {
                            kind: ScopeKind::Isolate,
                            locals: bound(const_fn.args@, args, 0, Seq::empty()),
                        },
                    ),
                    dependencies: if used == Used::Used {
                        st.dependencies.push(target)
                    } else {
                        st.dependencies
                    },
                    ..st
                };
                lemma_keyed_ir(const_fn.ir, used, entered);
                lemma_eval_ir(const_fn.ir, used, entered);
                lemma_closed(as_value(eval_ir_model(const_fn.ir, used, entered)), entered);
            }
        },
    }
}

proof fn lemma_keyed_call(ir: IrCall, used: Used, st: StateV)
    requires
        keyed_state(st),
    ensures
        keyed(eval_ir_call_model(ir, used, st)),
    decreases st.budget, 2nat, 0nat,
{
    lemma_keyed_items(ir.args@, 0, Seq::empty(), used, st);
    lemma_items(ir.args@, 0, Seq::empty(), used, st);
    match items_model(ir.args@, 0, Seq::empty(), used, st) {
        Step::Done(values, s) => {
            lemma_keyed_call_const_fn(ir.span, ir.target, values, used, s);
        },
        _ => {},
    }
}

/// The evaluator keeps each key once: from a state in which each name of a
/// scope and each key of an object stands once, the evaluation of a tree
/// leaves such a state, whatever the outcome and whatever the host answered.
/// A fresh state, without scopes and cells, is such a state.
pub proof fn law_keys_stay_distinct(ir: Ir, used: Used, st: StateV)
    requires
        keyed_state(st),
    ensures
        keyed(eval_ir_model(ir, used, st)),
{
    lemma_keyed_ir(ir, used, st);
}

} // verus!
