//! Where evaluation is exact.
//!
//! The evaluator leaves the arithmetic and the formatting of floats to its
//! host, and of an evaluation that comes to one of them [`crate::semantics`]
//! says what holds whatever the host answers, which is less than the exact
//! outcome. An evaluation comes to neither as long as it meets no float. So
//! where no float stands in the tree, in the bodies of the constant
//! functions, in the scopes or in the cells, the outcome is always said
//! exactly, and the state it leaves holds no float either.

use crate::error::{BreakV, OutcomeV};
use crate::interpreter::{lemma_position, ConstFn, StateV, Used};
use crate::ir::{
    Ir, IrAssign, IrAssignOp, IrBinary, IrBinaryOp, IrBranches, IrBreak, IrCall, IrCondition,
    IrDecl, IrKind, IrLoop, IrPat, IrPatKind, IrScope, IrSet, IrTarget, IrTargetKind, IrTemplate,
    IrTemplateComponent,
};
use crate::laws::{
    keeps, lemma_branch, lemma_condition, lemma_eval_ir, lemma_block, lemma_instructions,
    lemma_items, lemma_loop_condition, lemma_loop_turns, lemma_scope_body,
};
use crate::model::{
    assigned, binary, closed, declared, matched, matched_fields, matched_items, opened, target_mut,
    target_set, target_value, Computed, Mutated, Step,
};
use crate::scopes::{cleared, declare, find, find_from, lookup, put, rebind, ScopeKind, ScopeV};
use crate::semantics::{
    as_value, block_model, bool_text, bound, branch_model, call_const_fn_model, condition_model,
    eval_ir_assign_model, eval_ir_binary_model, eval_ir_branches_model, eval_ir_break_model,
    eval_ir_call_model, eval_ir_decl_model, eval_ir_loop_model, eval_ir_model, eval_ir_scope_model,
    eval_ir_set_model, eval_ir_template_model, fields_model, instructions_model, items_model,
    joined, loop_condition_model, loop_turns_model, scope_body_model, spent, template_parts_model,
};
use crate::shared::{read_model, write_model, CellV};
use crate::span::Span;
use crate::text::signed_decimal;
use crate::value::{PayloadV, Shared, ValueKind, ValueV};
use vstd::prelude::*;

verus! {

/// The value is no float.
pub open spec fn plain(value: ValueV) -> bool {
    !(value is Float)
}

/// None of the values is a float.
pub open spec fn plain_values(values: Seq<ValueV>) -> bool {
    forall|i: int| 0 <= i < values.len() ==> plain(#[trigger] values[i])
}

/// None of the entries holds a float.
pub open spec fn plain_entries(entries: Seq<(Seq<char>, ValueV)>) -> bool {
    forall|i: int| 0 <= i < entries.len() ==> plain((#[trigger] entries[i]).1)
}

/// The cell holds no float.
pub open spec fn plain_payload(data: PayloadV) -> bool {
    match data {
        PayloadV::String(_) => true,
        PayloadV::Vec(items) => plain_values(items),
        PayloadV::Tuple(items) => plain_values(items),
        PayloadV::Object(entries) => plain_entries(entries),
    }
}

/// No cell holds a float.
pub open spec fn plain_heap(heap: Seq<CellV>) -> bool {
    forall|i: int| 0 <= i < heap.len() ==> plain_payload((#[trigger] heap[i]).data)
}

/// No scope binds a name to a float.
pub open spec fn plain_scopes(scopes: Seq<ScopeV>) -> bool {
    forall|i: int| 0 <= i < scopes.len() ==> plain_entries((#[trigger] scopes[i]).locals)
}

/// No float stands in the first `n` of the nodes.
pub open spec fn plain_nodes(nodes: Seq<Ir>, n: nat) -> bool
    decreases nodes, n,
{
    if n == 0 || n > nodes.len() {
        true
    } else {
        plain_nodes(nodes, (n - 1) as nat) && plain_ir(nodes[n - 1])
    }
}

/// No float stands in the first `n` of the fields.
pub open spec fn plain_fields(fields: Seq<(String, Ir)>, n: nat) -> bool
    decreases fields, n,
{
    if n == 0 || n > fields.len() {
        true
    } else {
        plain_fields(fields, (n - 1) as nat) && plain_ir(fields[n - 1].1)
    }
}

/// No float stands in the first `n` of the parts.
pub open spec fn plain_parts(parts: Seq<IrTemplateComponent>, n: nat) -> bool
    decreases parts, n,
{
    if n == 0 || n > parts.len() {
        true
    } else {
        plain_parts(parts, (n - 1) as nat) && match parts[n - 1] {
            IrTemplateComponent::Ir(ir) => plain_ir(ir),
            IrTemplateComponent::String(_) => true,
        }
    }
}

/// No float stands in the first `n` of the branches.
pub open spec fn plain_arms(arms: Seq<(IrCondition, IrScope)>, n: nat) -> bool
    decreases arms, n,
{
    if n == 0 || n > arms.len() {
        true
    } else {
        plain_arms(arms, (n - 1) as nat) && plain_condition(arms[n - 1].0) && plain_scope(
            arms[n - 1].1,
        )
    }
}

/// No float stands in the condition.
pub open spec fn plain_condition(condition: IrCondition) -> bool
    decreases condition, 0nat,
{
    match condition {
        IrCondition::Ir(ir) => plain_ir(ir),
        IrCondition::Let(ir_let) => plain_ir(ir_let.ir),
    }
}

/// No float stands in the block.
pub open spec fn plain_scope(scope: IrScope) -> bool
    decreases scope, 0nat,
{
    plain_nodes(scope.instructions@, scope.instructions@.len()) && match scope.last {
        Some(last) => plain_ir(*last),
        None => true,
    }
}

/// No float stands in the tree.
pub open spec fn plain_ir(ir: Ir) -> bool
    decreases ir, 0nat,
{
    match ir.kind {
        IrKind::Scope(scope) => plain_scope(scope),
        IrKind::Binary(b) => plain_ir(*b.lhs) && plain_ir(*b.rhs),
        IrKind::Decl(decl) => plain_ir(*decl.value),
        IrKind::SetTarget(set) => plain_ir(*set.value),
        IrKind::Assign(assign) => plain_ir(*assign.value),
        IrKind::Template(template) => plain_parts(
            template.components@,
            template.components@.len(),
        ),
        IrKind::Name(_) => true,
        IrKind::Target(_) => true,
        IrKind::Value(value) => plain(value@),
        IrKind::Branches(branches) => plain_arms(branches.branches@, branches.branches@.len())
            && match branches.default_branch {
            Some(scope) => plain_scope(scope),
            None => true,
        },
        IrKind::Loop(l) => plain_scope(l.body) && match l.condition {
            Some(condition) => plain_condition(*condition),
            None => true,
        },
        IrKind::Break(b) => match b.value {
            Some(value) => plain_ir(*value),
            None => true,
        },
        IrKind::Vec(vec) => plain_nodes(vec.items@, vec.items@.len()),
        IrKind::Tuple(tuple) => plain_nodes(tuple.items@, tuple.items@.len()),
        IrKind::Object(object) => plain_fields(object.assignments@, object.assignments@.len()),
        IrKind::Call(call) => plain_nodes(call.args@, call.args@.len()),
    }
}

/// No float stands in the body of a constant function.
pub open spec fn plain_query(fns: Seq<ConstFn>) -> bool {
    forall|i: int| 0 <= i < fns.len() ==> plain_ir((#[trigger] fns[i]).ir)
}

/// No float stands in the state: not in a scope, not in a cell, not in the
/// body of a constant function.
pub open spec fn plain_state(st: StateV) -> bool {
    plain_scopes(st.scopes) && plain_heap(st.heap) && plain_query(st.query.fns@)
}

/// The outcome carries no float.
pub open spec fn plain_outcome(outcome: OutcomeV) -> bool {
    match outcome {
        OutcomeV::Break(_, BreakV::Value(value)) => plain(value),
        _ => true,
    }
}

/// The step is said exactly, and leaves no float behind.
pub open spec fn exact(step: Step<ValueV>) -> bool {
    match step {
        Step::Done(value, s) => plain(value) && plain_state(s),
        Step::Raise(outcome, s) => plain_outcome(outcome) && plain_state(s),
        _ => false,
    }
}

/// The step is said exactly, and leaves no float behind. Its result is no
/// value.
pub open spec fn exact_step<T>(step: Step<T>) -> bool {
    match step {
        Step::Done(_, s) => plain_state(s),
        Step::Raise(outcome, s) => plain_outcome(outcome) && plain_state(s),
        _ => false,
    }
}

proof fn lemma_plain_nodes(nodes: Seq<Ir>, n: nat, i: int)
    requires
        plain_nodes(nodes, n),
        0 <= i < n <= nodes.len(),
    ensures
        plain_ir(nodes[i]),
    decreases n,
{
    if i < n - 1 {
        lemma_plain_nodes(nodes, (n - 1) as nat, i);
    }
}

proof fn lemma_plain_fields(fields: Seq<(String, Ir)>, n: nat, i: int)
    requires
        plain_fields(fields, n),
        0 <= i < n <= fields.len(),
    ensures
        plain_ir(fields[i].1),
    decreases n,
{
    if i < n - 1 {
        lemma_plain_fields(fields, (n - 1) as nat, i);
    }
}

proof fn lemma_plain_parts(parts: Seq<IrTemplateComponent>, n: nat, i: int)
    requires
        plain_parts(parts, n),
        0 <= i < n <= parts.len(),
    ensures
        parts[i] matches IrTemplateComponent::Ir(ir) ==> plain_ir(ir),
    decreases n,
{
    if i < n - 1 {
        lemma_plain_parts(parts, (n - 1) as nat, i);
    }
}

proof fn lemma_plain_arms(arms: Seq<(IrCondition, IrScope)>, n: nat, i: int)
    requires
        plain_arms(arms, n),
        0 <= i < n <= arms.len(),
    ensures
        plain_condition(arms[i].0),
        plain_scope(arms[i].1),
    decreases n,
{
    if i < n - 1 {
        lemma_plain_arms(arms, (n - 1) as nat, i);
    }
}

proof fn lemma_find<V>(entries: Seq<(Seq<char>, V)>, key: Seq<char>, from: int)
    requires
        0 <= from,
    ensures
        find_from(entries, key, from) matches Some(i) ==> from <= i < entries.len(),
    decreases entries.len() - from,
{
    if from < entries.len() && entries[from].0 != key {
        lemma_find(entries, key, from + 1);
    }
}

proof fn lemma_put(entries: Seq<(Seq<char>, ValueV)>, key: Seq<char>, value: ValueV)
    requires
        plain_entries(entries),
        plain(value),
    ensures
        plain_entries(put(entries, key, value)),
{
    lemma_find(entries, key, 0);
}

proof fn lemma_lookup(scopes: Seq<ScopeV>, name: Seq<char>, depth: int)
    requires
        plain_scopes(scopes),
    ensures
        lookup(scopes, name, depth) matches Some(value) ==> plain(value),
    decreases depth,
{
    if 0 < depth <= scopes.len() {
        lemma_find(scopes[depth - 1].locals, name, 0);
        lemma_lookup(scopes, name, depth - 1);
    }
}

proof fn lemma_rebind(scopes: Seq<ScopeV>, name: Seq<char>, value: ValueV, depth: int)
    requires
        plain_scopes(scopes),
        plain(value),
    ensures
        rebind(scopes, name, value, depth) matches Some(s) ==> plain_scopes(s),
    decreases depth,
{
    if 0 < depth <= scopes.len() {
        lemma_find(scopes[depth - 1].locals, name, 0);
        lemma_rebind(scopes, name, value, depth - 1);
    }
}

proof fn lemma_declare(scopes: Seq<ScopeV>, name: Seq<char>, value: ValueV)
    requires
        plain_scopes(scopes),
        plain(value),
        scopes.len() > 0,
    ensures
        plain_scopes(declare(scopes, name, value)),
{
    lemma_put(scopes.last().locals, name, value);
}

proof fn lemma_declared(scopes: Seq<ScopeV>, bindings: Seq<(Seq<char>, ValueV)>, i: int)
    requires
        plain_scopes(scopes),
        plain_entries(bindings),
        scopes.len() > 0,
        0 <= i,
    ensures
        plain_scopes(declared(scopes, bindings, i)),
    decreases bindings.len() - i,
{
    if i < bindings.len() {
        lemma_declare(scopes, bindings[i].0, bindings[i].1);
        lemma_declared(declare(scopes, bindings[i].0, bindings[i].1), bindings, i + 1);
    }
}

proof fn lemma_bound(
    params: Seq<String>,
    args: Seq<ValueV>,
    i: int,
    locals: Seq<(Seq<char>, ValueV)>,
)
    requires
        plain_values(args),
        plain_entries(locals),
        params.len() == args.len(),
        0 <= i,
    ensures
        plain_entries(bound(params, args, i, locals)),
    decreases params.len() - i,
{
    if i < params.len() {
        lemma_put(locals, params[i]@, args[i]);
        lemma_bound(params, args, i + 1, put(locals, params[i]@, args[i]));
    }
}

proof fn lemma_read(heap: Seq<CellV>, handle: Shared, kind: ValueKind)
    requires
        plain_heap(heap),
    ensures
        read_model(heap, handle, kind) matches Ok(data) ==> plain_payload(data) && data
            == heap[handle.index as int].data && handle.index < heap.len(),
        write_model(heap, handle, kind) matches Ok(data) ==> plain_payload(data) && data
            == heap[handle.index as int].data && handle.index < heap.len(),
{
}

proof fn lemma_target_value(target: IrTarget, scopes: Seq<ScopeV>, heap: Seq<CellV>)
    requires
        plain_scopes(scopes),
        plain_heap(heap),
    ensures
        target_value(target, scopes, heap) matches Ok(value) ==> plain(value),
    decreases target,
{
    match target.kind {
        IrTargetKind::Name(name) => {
            lemma_lookup(scopes, name@, scopes.len() as int);
        },
        IrTargetKind::Field(inner, field) => {
            lemma_target_value(*inner, scopes, heap);
            match target_value(*inner, scopes, heap) {
                Ok(ValueV::Object(h)) => {
                    lemma_read(heap, h, ValueKind::Object);
                    match read_model(heap, h, ValueKind::Object) {
                        Ok(data) => {
                            lemma_find(data.entries(), field@, 0);
                        },
                        Err(_) => {},
                    }
                },
                _ => {},
            }
        },
        IrTargetKind::Index(inner, index) => {
            lemma_target_value(*inner, scopes, heap);
            match target_value(*inner, scopes, heap) {
                Ok(ValueV::Vec(h)) => {
                    lemma_read(heap, h, ValueKind::Vec);
                },
                Ok(ValueV::Tuple(h)) => {
                    lemma_read(heap, h, ValueKind::Tuple);
                },
                _ => {},
            }
        },
    }
}

proof fn lemma_target_set(target: IrTarget, value: ValueV, scopes: Seq<ScopeV>, heap: Seq<CellV>)
    requires
        plain_scopes(scopes),
        plain_heap(heap),
        plain(value),
    ensures
        target_set(target, value, scopes, heap) matches Ok((s, h)) ==> plain_scopes(s)
            && plain_heap(h),
{
    match target.kind {
        IrTargetKind::Name(name) => {
            lemma_rebind(scopes, name@, value, scopes.len() as int);
        },
        IrTargetKind::Field(inner, field) => {
            match target_value(*inner, scopes, heap) {
                Ok(ValueV::Object(h)) => {
                    lemma_read(heap, h, ValueKind::Object);
                    match write_model(heap, h, ValueKind::Object) {
                        Ok(data) => {
                            lemma_put(data.entries(), field@, value);
                        },
                        Err(_) => {},
                    }
                },
                _ => {},
            }
        },
        IrTargetKind::Index(inner, index) => {
            match target_value(*inner, scopes, heap) {
                Ok(ValueV::Vec(h)) => {
                    lemma_read(heap, h, ValueKind::Vec);
                },
                Ok(ValueV::Tuple(h)) => {
                    lemma_read(heap, h, ValueKind::Tuple);
                },
                _ => {},
            }
        },
    }
}

proof fn lemma_assigned(op: IrAssignOp, span: Span, current: ValueV, operand: ValueV)
    requires
        plain(current),
    ensures
        !(assigned(op, span, current, operand) is Host),
        assigned(op, span, current, operand) matches Computed::Value(value) ==> plain(value),
{
}

proof fn lemma_target_mut(
    target: IrTarget,
    op: IrAssignOp,
    span: Span,
    operand: ValueV,
    scopes: Seq<ScopeV>,
    heap: Seq<CellV>,
)
    requires
        plain_scopes(scopes),
        plain_heap(heap),
    ensures
        !(target_mut(target, op, span, operand, scopes, heap) is Host),
        target_mut(target, op, span, operand, scopes, heap) matches Mutated::Done(s, h)
            ==> plain_scopes(s) && plain_heap(h),
{
    match target.kind {
        IrTargetKind::Name(name) => {
            lemma_lookup(scopes, name@, scopes.len() as int);
            match lookup(scopes, name@, scopes.len() as int) {
                Some(current) => {
                    lemma_assigned(op, span, current, operand);
                    match assigned(op, span, current, operand) {
                        Computed::Value(value) => {
                            lemma_rebind(scopes, name@, value, scopes.len() as int);
                        },
                        _ => {},
                    }
                },
                None => {},
            }
        },
        IrTargetKind::Field(inner, field) => {
            match target_value(*inner, scopes, heap) {
                Ok(ValueV::Object(h)) => {
                    lemma_read(heap, h, ValueKind::Object);
                    match write_model(heap, h, ValueKind::Object) {
                        Ok(data) => {
                            lemma_find(data.entries(), field@, 0);
                            match find(data.entries(), field@) {
                                Some(i) => {
                                    lemma_assigned(op, span, data.entries()[i].1, operand);
                                },
                                None => {},
                            }
                        },
                        Err(_) => {},
                    }
                },
                _ => {},
            }
        },
        IrTargetKind::Index(inner, index) => {
            match target_value(*inner, scopes, heap) {
                Ok(ValueV::Vec(h)) => {
                    lemma_read(heap, h, ValueKind::Vec);
                    match write_model(heap, h, ValueKind::Vec) {
                        Ok(data) => {
                            if index < data.items().len() {
                                lemma_assigned(op, span, data.items()[index as int], operand);
                            }
                        },
                        Err(_) => {},
                    }
                },
                Ok(ValueV::Tuple(h)) => {
                    lemma_read(heap, h, ValueKind::Tuple);
                    match write_model(heap, h, ValueKind::Tuple) {
                        Ok(data) => {
                            if index < data.items().len() {
                                lemma_assigned(op, span, data.items()[index as int], operand);
                            }
                        },
                        Err(_) => {},
                    }
                },
                _ => {},
            }
        },
    }
}

proof fn lemma_binary(op: IrBinaryOp, span: Span, rhs: Span, a: ValueV, b: ValueV, st: StateV)
    requires
        plain_state(st),
        plain(a),
        plain(b),
    ensures
        exact(binary(op, span, rhs, a, b, st)),
{
}

proof fn lemma_matched(
    pat: IrPat,
    value: ValueV,
    heap: Seq<CellV>,
    bindings: Seq<(Seq<char>, ValueV)>,
)
    requires
        plain_heap(heap),
        plain(value),
        plain_entries(bindings),
    ensures
        matched(pat, value, heap, bindings) matches Ok(Some(bound)) ==> plain_entries(bound),
    decreases pat, 0nat,
{
    match pat.kind {
        IrPatKind::Tuple(pats) => {
            match value {
                ValueV::Tuple(h) => {
                    lemma_read(heap, h, ValueKind::Tuple);
                    match read_model(heap, h, ValueKind::Tuple) {
                        Ok(data) => {
                            if data.items().len() == pats@.len() {
                                lemma_matched_items(pats@, data.items(), 0, heap, bindings);
                            }
                        },
                        Err(_) => {},
                    }
                },
                _ => {},
            }
        },
        IrPatKind::Object(fields, rest) => {
            match value {
                ValueV::Object(h) => {
                    lemma_read(heap, h, ValueKind::Object);
                    match read_model(heap, h, ValueKind::Object) {
                        Ok(data) => {
                            lemma_matched_fields(fields@, data.entries(), 0, heap, bindings);
                        },
                        Err(_) => {},
                    }
                },
                _ => {},
            }
        },
        _ => {},
    }
}

proof fn lemma_matched_items(
    pats: Seq<IrPat>,
    items: Seq<ValueV>,
    i: int,
    heap: Seq<CellV>,
    bindings: Seq<(Seq<char>, ValueV)>,
)
    requires
        plain_heap(heap),
        plain_values(items),
        plain_entries(bindings),
        items.len() == pats.len(),
        0 <= i,
    ensures
        matched_items(pats, items, i, heap, bindings) matches Ok(Some(bound)) ==> plain_entries(
            bound,
        ),
    decreases pats, pats.len() - i,
{
    if i < pats.len() {
        lemma_matched(pats[i], items[i], heap, bindings);
        match matched(pats[i], items[i], heap, bindings) {
            Ok(Some(bound)) => {
                lemma_matched_items(pats, items, i + 1, heap, bound);
            },
            _ => {},
        }
    }
}

proof fn lemma_matched_fields(
    fields: Seq<(String, IrPat)>,
    entries: Seq<(Seq<char>, ValueV)>,
    i: int,
    heap: Seq<CellV>,
    bindings: Seq<(Seq<char>, ValueV)>,
)
    requires
        plain_heap(heap),
        plain_entries(entries),
        plain_entries(bindings),
        0 <= i,
    ensures
        matched_fields(fields, entries, i, heap, bindings) matches Ok(Some(bound))
            ==> plain_entries(bound),
    decreases fields, fields.len() - i,
{
    if i < fields.len() {
        lemma_find(entries, fields[i].0@, 0);
        match find(entries, fields[i].0@) {
            Some(j) => {
                lemma_matched(fields[i].1, entries[j].1, heap, bindings);
                match matched(fields[i].1, entries[j].1, heap, bindings) {
                    Ok(Some(bound)) => {
                        lemma_matched_fields(fields, entries, i + 1, heap, bound);
                    },
                    _ => {},
                }
            },
            None => {},
        }
    }
}

proof fn lemma_closed(step: Step<ValueV>, inner: StateV)
    requires
        exact(step),
        keeps(step, inner),
        inner.scopes.len() > 0,
    ensures
        exact(closed(step)),
{
    match step {
        Step::Done(_, s) => {
            assert(plain_scopes(s.scopes.drop_last()));
        },
        Step::Raise(_, s) => {
            assert(plain_scopes(s.scopes.drop_last()));
        },
        _ => {},
    }
}

proof fn lemma_opened(st: StateV, kind: ScopeKind)
    requires
        plain_state(st),
    ensures
        plain_state(opened(st, kind)),
{
}

/// Without floats, the evaluation of a node is said exactly.
pub proof fn lemma_exact_ir(ir: Ir, used: Used, st: StateV)
    requires
        plain_ir(ir),
        plain_state(st),
    ensures
        exact(eval_ir_model(ir, used, st)),
    decreases st.budget, 0nat, 0nat,
{
    if st.budget > 0 {
        let s = spent(st);
        match ir.kind {
            IrKind::Scope(scope) => lemma_exact_scope(scope, used, s),
            IrKind::Binary(b) => lemma_exact_binary(b, used, s),
            IrKind::Decl(decl) => lemma_exact_decl(decl, used, s),
            IrKind::SetTarget(set) => lemma_exact_set(set, used, s),
            IrKind::Assign(assign) => lemma_exact_assign(assign, used, s),
            IrKind::Template(template) => lemma_exact_template(template, used, s),
            IrKind::Name(name) => {
                lemma_lookup(s.scopes, name@, s.scopes.len() as int);
            },
            IrKind::Target(target) => {
                lemma_target_value(target, s.scopes, s.heap);
            },
            IrKind::Value(_) => {},
            IrKind::Branches(branches) => lemma_exact_branches(branches, 0, used, s),
            IrKind::Loop(l) => lemma_exact_loop(l, used, s),
            IrKind::Break(b) => lemma_exact_break(b, used, s),
            IrKind::Vec(vec) => {
                lemma_exact_items(vec.items@, 0, Seq::empty(), used, s);
            },
            IrKind::Tuple(tuple) => {
                lemma_exact_items(tuple.items@, 0, Seq::empty(), used, s);
            },
            IrKind::Object(object) => {
                lemma_exact_fields(object.assignments@, 0, Seq::empty(), used, s);
            },
            IrKind::Call(call) => lemma_exact_call(call, used, s),
        }
    }
}

proof fn lemma_exact_instructions(instructions: Seq<Ir>, i: int, used: Used, st: StateV)
    requires
        plain_nodes(instructions, instructions.len()),
        plain_state(st),
        0 <= i,
    ensures
        exact_step(instructions_model(instructions, i, used, st)),
    decreases st.budget, 1nat, instructions.len() - i,
{
    if i < instructions.len() {
        lemma_plain_nodes(instructions, instructions.len(), i);
        lemma_exact_ir(instructions[i], used, st);
        lemma_eval_ir(instructions[i], used, st);
        match eval_ir_model(instructions[i], used, st) {
            Step::Done(_, s) => {
                lemma_exact_instructions(instructions, i + 1, used, s);
            },
            _ => {},
        }
    }
}

proof fn lemma_exact_items(items: Seq<Ir>, i: int, values: Seq<ValueV>, used: Used, st: StateV)
    requires
        plain_nodes(items, items.len()),
        plain_values(values),
        plain_state(st),
        0 <= i,
    ensures
        match items_model(items, i, values, used, st) {
            Step::Done(values, s) => plain_values(values) && plain_state(s),
            Step::Raise(outcome, s) => plain_outcome(outcome) && plain_state(s),
            _ => false,
        },
    decreases st.budget, 1nat, items.len() - i,
{
    if i < items.len() {
        lemma_plain_nodes(items, items.len(), i);
        lemma_exact_ir(items[i], used, st);
        lemma_eval_ir(items[i], used, st);
        match eval_ir_model(items[i], used, st) {
            Step::Done(value, s) => {
                lemma_exact_items(items, i + 1, values.push(value), used, s);
            },
            _ => {},
        }
    }
}

proof fn lemma_exact_fields(
    assignments: Seq<(String, Ir)>,
    i: int,
    entries: Seq<(Seq<char>, ValueV)>,
    used: Used,
    st: StateV,
)
    requires
        plain_fields(assignments, assignments.len()),
        plain_entries(entries),
        plain_state(st),
        0 <= i,
    ensures
        match fields_model(assignments, i, entries, used, st) {
            Step::Done(entries, s) => plain_entries(entries) && plain_state(s),
            Step::Raise(outcome, s) => plain_outcome(outcome) && plain_state(s),
            _ => false,
        },
    decreases st.budget, 1nat, assignments.len() - i,
{
    if i < assignments.len() {
        lemma_plain_fields(assignments, assignments.len(), i);
        lemma_exact_ir(assignments[i].1, used, st);
        lemma_eval_ir(assignments[i].1, used, st);
        match eval_ir_model(assignments[i].1, used, st) {
            Step::Done(value, s) => {
                lemma_put(entries, assignments[i].0@, value);
                lemma_exact_fields(
                    assignments,
                    i + 1,
                    put(entries, assignments[i].0@, value),
                    used,
                    s,
                );
            },
            _ => {},
        }
    }
}

proof fn lemma_exact_scope_body(scope: IrScope, used: Used, st: StateV)
    requires
        plain_scope(scope),
        plain_state(st),
    ensures
        exact(scope_body_model(scope, used, st)),
    decreases st.budget, 2nat, 0nat,
{
    lemma_exact_instructions(scope.instructions@, 0, used, st);
    lemma_instructions(scope.instructions@, 0, used, st);
    match instructions_model(scope.instructions@, 0, used, st) {
        Step::Done(_, s) => match scope.last {
            Some(last) => {
                lemma_exact_ir(*last, used, s);
            },
            None => {},
        },
        _ => {},
    }
}

proof fn lemma_exact_scope(scope: IrScope, used: Used, st: StateV)
    requires
        plain_scope(scope),
        plain_state(st),
    ensures
        exact(eval_ir_scope_model(scope, used, st)),
    decreases st.budget, 3nat, 0nat,
{
    let inner = opened(st, ScopeKind::Plain);
    lemma_opened(st, ScopeKind::Plain);
    lemma_exact_scope_body(scope, used, inner);
    lemma_scope_body(scope, used, inner);
    lemma_closed(scope_body_model(scope, used, inner), inner);
}

proof fn lemma_exact_block(scope: IrScope, used: Used, st: StateV)
    requires
        plain_scope(scope),
        plain_state(st),
    ensures
        exact(block_model(scope, used, st)),
    decreases st.budget, 3nat, 1nat,
{
    if st.budget > 0 {
        lemma_exact_scope(scope, used, spent(st));
    }
}

proof fn lemma_exact_binary(ir: IrBinary, used: Used, st: StateV)
    requires
        plain_ir(*ir.lhs),
        plain_ir(*ir.rhs),
        plain_state(st),
    ensures
        exact(eval_ir_binary_model(ir, used, st)),
    decreases st.budget, 3nat, 0nat,
{
    lemma_exact_ir(*ir.lhs, used, st);
    lemma_eval_ir(*ir.lhs, used, st);
    match eval_ir_model(*ir.lhs, used, st) {
        Step::Done(a, s) => {
            lemma_exact_ir(*ir.rhs, used, s);
            match eval_ir_model(*ir.rhs, used, s) {
                Step::Done(b, s) => {
                    lemma_binary(ir.op, ir.span, ir.rhs.span, a, b, s);
                },
                _ => {},
            }
        },
        _ => {},
    }
}

proof fn lemma_exact_decl(ir: IrDecl, used: Used, st: StateV)
    requires
        plain_ir(*ir.value),
        plain_state(st),
    ensures
        exact(eval_ir_decl_model(ir, used, st)),
    decreases st.budget, 3nat, 0nat,
{
    lemma_exact_ir(*ir.value, used, st);
    match eval_ir_model(*ir.value, used, st) {
        Step::Done(value, s) => {
            if s.scopes.len() > 0 {
                lemma_declare(s.scopes, ir.name@, value);
            }
        },
        _ => {},
    }
}

proof fn lemma_exact_set(ir: IrSet, used: Used, st: StateV)
    requires
        plain_ir(*ir.value),
        plain_state(st),
    ensures
        exact(eval_ir_set_model(ir, used, st)),
    decreases st.budget, 3nat, 0nat,
{
    lemma_exact_ir(*ir.value, used, st);
    match eval_ir_model(*ir.value, used, st) {
        Step::Done(value, s) => {
            lemma_target_set(ir.target, value, s.scopes, s.heap);
        },
        _ => {},
    }
}

proof fn lemma_exact_assign(ir: IrAssign, used: Used, st: StateV)
    requires
        plain_ir(*ir.value),
        plain_state(st),
    ensures
        exact(eval_ir_assign_model(ir, used, st)),
    decreases st.budget, 3nat, 0nat,
{
    lemma_exact_ir(*ir.value, used, st);
    match eval_ir_model(*ir.value, used, st) {
        Step::Done(value, s) => {
            lemma_target_mut(ir.target, ir.op, ir.span, value, s.scopes, s.heap);
        },
        _ => {},
    }
}

proof fn lemma_exact_template_parts(
    components: Seq<IrTemplateComponent>,
    i: int,
    text: Option<Seq<char>>,
    used: Used,
    st: StateV,
)
    requires
        plain_parts(components, components.len()),
        plain_state(st),
        text is Some,
        0 <= i,
    ensures
        match template_parts_model(components, i, text, used, st) {
            Step::Done(text, s) => text is Some && plain_state(s),
            Step::Raise(outcome, s) => plain_outcome(outcome) && plain_state(s),
            _ => false,
        },
    decreases st.budget, 1nat, components.len() - i,
{
    if i < components.len() {
        lemma_plain_parts(components, components.len(), i);
        match components[i] {
            IrTemplateComponent::String(s) => {
                lemma_exact_template_parts(components, i + 1, joined(text, s@), used, st);
            },
            IrTemplateComponent::Ir(ir) => {
                lemma_exact_ir(ir, used, st);
                lemma_eval_ir(ir, used, st);
                match eval_ir_model(ir, used, st) {
                    Step::Done(value, s) => match value {
                        ValueV::Integer(n) => {
                            lemma_exact_template_parts(
                                components,
                                i + 1,
                                joined(text, signed_decimal(n)),
                                used,
                                s,
                            );
                        },
                        ValueV::Bool(b) => {
                            lemma_exact_template_parts(
                                components,
                                i + 1,
                                joined(text, bool_text(b)),
                                used,
                                s,
                            );
                        },
                        ValueV::String(h) => match read_model(s.heap, h, ValueKind::String) {
                            Ok(data) => {
                                lemma_exact_template_parts(
                                    components,
                                    i + 1,
                                    joined(text, data.text()),
                                    used,
                                    s,
                                );
                            },
                            Err(_) => {},
                        },
                        _ => {},
                    },
                    _ => {},
                }
            },
        }
    }
}

proof fn lemma_exact_template(ir: IrTemplate, used: Used, st: StateV)
    requires
        plain_parts(ir.components@, ir.components@.len()),
        plain_state(st),
    ensures
        exact(eval_ir_template_model(ir, used, st)),
    decreases st.budget, 3nat, 0nat,
{
    lemma_exact_template_parts(ir.components@, 0, Some(Seq::empty()), used, st);
}

proof fn lemma_exact_condition(condition: IrCondition, used: Used, st: StateV)
    requires
        plain_condition(condition),
        plain_state(st),
    ensures
        exact_step(condition_model(condition, used, st)),
    decreases st.budget, 1nat, 0nat,
{
    match condition {
        IrCondition::Ir(ir) => {
            lemma_exact_ir(ir, used, st);
        },
        IrCondition::Let(ir_let) => {
            lemma_exact_ir(ir_let.ir, used, st);
            match eval_ir_model(ir_let.ir, used, st) {
                Step::Done(value, s) => {
                    lemma_matched(ir_let.pat, value, s.heap, Seq::empty());
                    match matched(ir_let.pat, value, s.heap, Seq::empty()) {
                        Ok(Some(bound)) => {
                            if s.scopes.len() > 0 {
                                lemma_declared(s.scopes, bound, 0);
                            }
                        },
                        _ => {},
                    }
                },
                _ => {},
            }
        },
    }
}

proof fn lemma_exact_branch(condition: IrCondition, body: IrScope, used: Used, st: StateV)
    requires
        plain_condition(condition),
        plain_scope(body),
        plain_state(st),
    ensures
        match branch_model(condition, body, used, st) {
            Step::Done(value, s) => plain_state(s) && (value matches Some(v) ==> plain(v)),
            Step::Raise(outcome, s) => plain_outcome(outcome) && plain_state(s),
            _ => false,
        },
    decreases st.budget, 4nat, 0nat,
{
    lemma_exact_condition(condition, used, st);
    lemma_condition(condition, used, st);
    match condition_model(condition, used, st) {
        Step::Done(true, s) => {
            lemma_exact_block(body, used, s);
        },
        _ => {},
    }
}

proof fn lemma_exact_branches(ir: IrBranches, i: int, used: Used, st: StateV)
    requires
        plain_arms(ir.branches@, ir.branches@.len()),
        ir.default_branch matches Some(scope) ==> plain_scope(scope),
        plain_state(st),
        0 <= i,
    ensures
        exact(eval_ir_branches_model(ir, i, used, st)),
    decreases st.budget, 5nat, ir.branches@.len() - i,
{
    if i >= ir.branches@.len() {
        match ir.default_branch {
            Some(scope) => {
                lemma_exact_block(scope, used, st);
            },
            None => {},
        }
    } else {
        lemma_plain_arms(ir.branches@, ir.branches@.len(), i);
        let inner = opened(st, ScopeKind::Plain);
        lemma_opened(st, ScopeKind::Plain);
        let step = branch_model(ir.branches@[i].0, ir.branches@[i].1, used, inner);
        lemma_exact_branch(ir.branches@[i].0, ir.branches@[i].1, used, inner);
        lemma_branch(ir.branches@[i].0, ir.branches@[i].1, used, inner);
        match step {
            Step::Done(_, s) => {
                assert(plain_scopes(s.scopes.drop_last()));
            },
            Step::Raise(_, s) => {
                assert(plain_scopes(s.scopes.drop_last()));
            },
            _ => {},
        }
        match closed(step) {
            Step::Done(None, s) => {
                lemma_exact_branches(ir, i + 1, used, s);
            },
            _ => {},
        }
    }
}

proof fn lemma_exact_loop_condition(ir: IrLoop, used: Used, st: StateV)
    requires
        ir.condition matches Some(condition) ==> plain_condition(*condition),
        plain_state(st),
    ensures
        exact_step(loop_condition_model(ir, used, st)),
    decreases st.budget, 2nat, 0nat,
{
    match ir.condition {
        None => {},
        Some(condition) => {
            if st.scopes.len() > 0 {
                let cleared_state = StateV { scopes: cleared(st.scopes), ..st };
                assert(plain_scopes(cleared(st.scopes)));
                lemma_exact_condition(*condition, used, cleared_state);
            }
        },
    }
}

proof fn lemma_exact_loop_turns(ir: IrLoop, used: Used, st: StateV)
    requires
        ir.condition matches Some(condition) ==> plain_condition(*condition),
        plain_scope(ir.body),
        plain_state(st),
    ensures
        exact(loop_turns_model(ir, used, st)),
    decreases st.budget, 4nat, 0nat,
{
    lemma_exact_loop_condition(ir, used, st);
    lemma_loop_condition(ir, used, st);
    match loop_condition_model(ir, used, st) {
        Step::Done(true, s) => {
            lemma_exact_block(ir.body, used, s);
            lemma_block(ir.body, used, s);
            match block_model(ir.body, used, s) {
                Step::Done(_, s) => {
                    lemma_exact_loop_turns(ir, used, s);
                },
                _ => {},
            }
        },
        _ => {},
    }
}

proof fn lemma_exact_loop(ir: IrLoop, used: Used, st: StateV)
    requires
        ir.condition matches Some(condition) ==> plain_condition(*condition),
        plain_scope(ir.body),
        plain_state(st),
    ensures
        exact(eval_ir_loop_model(ir, used, st)),
    decreases st.budget, 5nat, 0nat,
{
    let inner = opened(st, ScopeKind::Plain);
    lemma_opened(st, ScopeKind::Plain);
    lemma_exact_loop_turns(ir, used, inner);
    lemma_loop_turns(ir, used, inner);
    lemma_closed(loop_turns_model(ir, used, inner), inner);
}

proof fn lemma_exact_break(ir: IrBreak, used: Used, st: StateV)
    requires
        ir.value matches Some(value) ==> plain_ir(*value),
        plain_state(st),
    ensures
        exact(eval_ir_break_model(ir, used, st)),
    decreases st.budget, 3nat, 0nat,
{
    match ir.value {
        Some(value) => {
            lemma_exact_ir(*value, used, st);
        },
        None => {},
    }
}

proof fn lemma_exact_call_const_fn(
    span: Span,
    target: u64,
    args: Seq<ValueV>,
    used: Used,
    st: StateV,
)
    requires
        plain_values(args),
        plain_state(st),
    ensures
        exact(call_const_fn_model(span, target, args, used, st)),
    decreases st.budget, 1nat, 0nat,
{
    match st.query.position(target) {
        None => {},
        Some(i) => {
            lemma_position(st.query.fns@, target, 0);
            let const_fn = st.query.fns@[i];
            if const_fn.args@.len() == args.len() {
                lemma_bound(const_fn.args@, args, 0, Seq::empty());
                let entered = StateV {
                    scopes: st.scopes.push(
                        ScopeV {
                            kind: ScopeKind::Isolate,
                            locals: bound(const_fn.args@, args, 0, Seq::empty()),
                        },
                    ),
                    dependencies: if used == Used::Used {
                        st.dependencies.push(target)
                    } else {
                        st.dependencies
                    },
                    ..st
                };
                lemma_exact_ir(const_fn.ir, used, entered);
                lemma_eval_ir(const_fn.ir, used, entered);
                lemma_closed(as_value(eval_ir_model(const_fn.ir, used, entered)), entered);
            }
        },
    }
}

proof fn lemma_exact_call(ir: IrCall, used: Used, st: StateV)
    requires
        plain_nodes(ir.args@, ir.args@.len()),
        plain_state(st),
    ensures
        exact(eval_ir_call_model(ir, used, st)),
    decreases st.budget, 2nat, 0nat,
{
    lemma_exact_items(ir.args@, 0, Seq::empty(), used, st);
    lemma_items(ir.args@, 0, Seq::empty(), used, st);
    match items_model(ir.args@, 0, Seq::empty(), used, st) {
        Step::Done(values, s) => {
            lemma_exact_call_const_fn(ir.span, ir.target, values, used, s);
        },
        _ => {},
    }
}

/// Where no float stands in the tree, in the bodies of the constant
/// functions, in the scopes or in the cells, the outcome of the evaluation is
/// said exactly: it is a value or an outcome that is no value, never left to
/// the host. Neither holds a float, and none is left in the state.
pub proof fn law_exact_without_floats(ir: Ir, used: Used, st: StateV)
    requires
        plain_ir(ir),
        plain_state(st),
    ensures
        eval_ir_model(ir, used, st) is Done || eval_ir_model(ir, used, st) is Raise,
        exact(eval_ir_model(ir, used, st)),
{
    lemma_exact_ir(ir, used, st);
}

} // verus!
