//! What holds of every evaluation.
//!
//! The laws are stated over the functions of [`crate::semantics`], which the
//! evaluator is proved to compute. The first group says of each kind of node
//! that the scope stack is as deep afterwards as before and that the budget
//! never grows; every visit of a node takes exactly one unit. The laws that
//! follow say that evaluation is a function of tree and state, and how a loop
//! answers a break with a label.

use crate::error::{BreakV, IrError, IrErrorKind, IrEvalOutcome, OutcomeV};
use crate::eval::{settled, yields};
use crate::interpreter::{StateV, Used};
use crate::ir::{
    Ir, IrAssign, IrBinary, IrBinaryOp, IrBranches, IrBreak, IrCall, IrCondition, IrDecl, IrKind,
    IrLoop, IrScope, IrSet, IrTemplate, IrTemplateComponent, IrTargetKind,
};
use crate::model::{
    closed, float_stored, lemma_declared_depth, lemma_rebind_depth, lemma_target_mut_depth,
    lemma_target_set_depth, matched, opened, popped, text_shared, Step,
};
use crate::scopes::{cleared, put, ScopeKind, ScopeV};
use crate::semantics::{
    as_value, block_model, bool_text, bound, branch_model, call_const_fn_model, condition_model,
    eval_ir_assign_model, eval_ir_binary_model, eval_ir_branches_model, eval_ir_break_model,
    eval_ir_call_model, eval_ir_decl_model, eval_ir_loop_model, eval_ir_model, eval_ir_scope_model,
    eval_ir_set_model, eval_ir_template_model, fields_model, instructions_model, items_model,
    joined, loop_condition_model, loop_turns_model, node_model, scope_body_model, spent,
    template_parts_model,
};
use crate::shared::read_model;
use crate::span::Span;
use crate::text::signed_decimal;
use crate::value::{IrValue, ValueKind, ValueV};
use vstd::prelude::*;

verus! {

/// A step keeps the depth of the scope stack and does not add to the
/// budget.
pub open spec fn keeps<T>(step: Step<T>, st: StateV) -> bool {
    match step {
        Step::Done(_, s) => settled(st, s),
        Step::Raise(_, s) => settled(st, s),
        Step::Float(s) => settled(st, s),
        Step::Text(s) => settled(st, s),
        Step::Stored(_, s) => settled(st, s),
        Step::Host => true,
    }
}

/// A step takes from the budget wherever there is something to take, and
/// yields no value where there is nothing.
pub open spec fn pays<T>(step: Step<T>, st: StateV) -> bool {
    match step {
        Step::Done(_, s) => s.budget < st.budget,
        Step::Raise(_, s) => st.budget > 0 ==> s.budget < st.budget,
        Step::Float(s) => s.budget < st.budget,
        Step::Text(s) => s.budget < st.budget,
        Step::Stored(_, s) => s.budget < st.budget,
        Step::Host => true,
    }
}

/// A step that kept the depth inside a scope leaves the stack, once that
/// scope is closed, as deep as it was before the scope was opened.
proof fn lemma_closed<T>(step: Step<T>, st: StateV, inner: StateV)
    requires
        keeps(step, inner),
        inner.scopes.len() == st.scopes.len() + 1,
        inner.budget <= st.budget,
    ensures
        keeps(closed(step), st),
        inner.budget < st.budget ==> pays(closed(step), st),
{
}

/// The evaluation of a node keeps the depth of the scope stack.
pub proof fn lemma_eval_ir(ir: Ir, used: Used, st: StateV)
    ensures
        keeps(eval_ir_model(ir, used, st), st),
        pays(eval_ir_model(ir, used, st), st),
    decreases st.budget, 0nat, 0nat,
{
    if st.budget > 0 {
        let s = spent(st);
        match ir.kind {
            IrKind::Scope(scope) => lemma_eval_ir_scope(scope, used, s),
            IrKind::Binary(b) => lemma_eval_ir_binary(b, used, s),
            IrKind::Decl(decl) => lemma_eval_ir_decl(decl, used, s),
            IrKind::SetTarget(set) => lemma_eval_ir_set(set, used, s),
            IrKind::Assign(assign) => lemma_eval_ir_assign(assign, used, s),
            IrKind::Template(template) => lemma_eval_ir_template(template, used, s),
            IrKind::Name(_) => {},
            IrKind::Target(_) => {},
            IrKind::Value(_) => {},
            IrKind::Branches(branches) => lemma_eval_ir_branches(branches, 0, used, s),
            IrKind::Loop(l) => lemma_eval_ir_loop(l, used, s),
            IrKind::Break(b) => lemma_eval_ir_break(b, used, s),
            IrKind::Vec(vec) => lemma_items(vec.items@, 0, Seq::empty(), used, s),
            IrKind::Tuple(tuple) => lemma_items(tuple.items@, 0, Seq::empty(), used, s),
            IrKind::Object(object) => lemma_fields(object.assignments@, 0, Seq::empty(), used, s),
            IrKind::Call(call) => lemma_eval_ir_call(call, used, s),
        }
    }
}

/// Instructions keep the depth of the scope stack.
pub proof fn lemma_instructions(instructions: Seq<Ir>, i: int, used: Used, st: StateV)
    ensures
        keeps(instructions_model(instructions, i, used, st), st),
    decreases st.budget, 1nat, instructions.len() - i,
{
    if 0 <= i < instructions.len() {
        lemma_eval_ir(instructions[i], used, st);
        match eval_ir_model(instructions[i], used, st) {
            Step::Done(_, s) => {
                lemma_instructions(instructions, i + 1, used, s);
            },
            Step::Float(s) => {
                lemma_instructions(instructions, i + 1, used, s);
            },
            _ => {},
        }
    }
}

/// Items keep the depth of the scope stack.
pub proof fn lemma_items(items: Seq<Ir>, i: int, values: Seq<ValueV>, used: Used, st: StateV)
    ensures
        keeps(items_model(items, i, values, used, st), st),
    decreases st.budget, 1nat, items.len() - i,
{
    if 0 <= i < items.len() {
        lemma_eval_ir(items[i], used, st);
        match eval_ir_model(items[i], used, st) {
            Step::Done(value, s) => {
                lemma_items(items, i + 1, values.push(value), used, s);
            },
            _ => {},
        }
    }
}

/// The fields of an object keep the depth of the scope stack.
pub proof fn lemma_fields(
    assignments: Seq<(String, Ir)>,
    i: int,
    entries: Seq<(Seq<char>, ValueV)>,
    used: Used,
    st: StateV,
)
    ensures
        keeps(fields_model(assignments, i, entries, used, st), st),
    decreases st.budget, 1nat, assignments.len() - i,
{
    if 0 <= i < assignments.len() {
        lemma_eval_ir(assignments[i].1, used, st);
        match eval_ir_model(assignments[i].1, used, st) {
            Step::Done(value, s) => {
                lemma_fields(
                    assignments,
                    i + 1,
                    put(entries, assignments[i].0@, value),
                    used,
                    s,
                );
            },
            _ => {},
        }
    }
}

/// The body of a block keeps the depth of the scope stack.
pub proof fn lemma_scope_body(scope: IrScope, used: Used, st: StateV)
    ensures
        keeps(scope_body_model(scope, used, st), st),
    decreases st.budget, 2nat, 0nat,
{
    lemma_instructions(scope.instructions@, 0, used, st);
    match instructions_model(scope.instructions@, 0, used, st) {
        Step::Done(_, s) => match scope.last {
            Some(last) => {
                lemma_eval_ir(*last, used, s);
            },
            None => {},
        },
        _ => {},
    }
}

/// A block keeps the depth of the scope stack.
pub proof fn lemma_eval_ir_scope(scope: IrScope, used: Used, st: StateV)
    ensures
        keeps(eval_ir_scope_model(scope, used, st), st),
    decreases st.budget, 3nat, 0nat,
{
    let inner = opened(st, ScopeKind::Plain);
    lemma_scope_body(scope, used, inner);
    lemma_closed(scope_body_model(scope, used, inner), st, inner);
}

/// A block that is a node of its own keeps the depth of the scope stack,
/// and takes from the budget.
pub proof fn lemma_block(scope: IrScope, used: Used, st: StateV)
    ensures
        keeps(block_model(scope, used, st), st),
        pays(block_model(scope, used, st), st),
    decreases st.budget, 3nat, 1nat,
{
    if st.budget > 0 {
        lemma_eval_ir_scope(scope, used, spent(st));
    }
}

/// A binary operation keeps the depth of the scope stack.
pub proof fn lemma_eval_ir_binary(ir: IrBinary, used: Used, st: StateV)
    ensures
        keeps(eval_ir_binary_model(ir, used, st), st),
    decreases st.budget, 3nat, 0nat,
{
    lemma_eval_ir(*ir.lhs, used, st);
    match eval_ir_model(*ir.lhs, used, st) {
        Step::Done(a, s) => {
            lemma_eval_ir(*ir.rhs, used, s);
        },
        _ => {},
    }
}

/// A declaration keeps the depth of the scope stack.
pub proof fn lemma_eval_ir_decl(ir: IrDecl, used: Used, st: StateV)
    ensures
        keeps(eval_ir_decl_model(ir, used, st), st),
    decreases st.budget, 3nat, 0nat,
{
    lemma_eval_ir(*ir.value, used, st);
}

/// A write keeps the depth of the scope stack.
pub proof fn lemma_eval_ir_set(ir: IrSet, used: Used, st: StateV)
    ensures
        keeps(eval_ir_set_model(ir, used, st), st),
    decreases st.budget, 3nat, 0nat,
{
    lemma_eval_ir(*ir.value, used, st);
    match eval_ir_model(*ir.value, used, st) {
        Step::Done(value, s) => {
            lemma_target_set_depth(ir.target, value, s.scopes, s.heap);
        },
        _ => {},
    }
}

/// A compound assignment keeps the depth of the scope stack.
pub proof fn lemma_eval_ir_assign(ir: IrAssign, used: Used, st: StateV)
    ensures
        keeps(eval_ir_assign_model(ir, used, st), st),
    decreases st.budget, 3nat, 0nat,
{
    lemma_eval_ir(*ir.value, used, st);
    match eval_ir_model(*ir.value, used, st) {
        Step::Done(value, s) => {
            lemma_target_mut_depth(ir.target, ir.op, ir.span, value, s.scopes, s.heap);
        },
        _ => {},
    }
}

/// The parts of a template keep the depth of the scope stack.
pub proof fn lemma_template_parts(
    components: Seq<IrTemplateComponent>,
    i: int,
    text: Option<Seq<char>>,
    used: Used,
    st: StateV,
)
    ensures
        keeps(template_parts_model(components, i, text, used, st), st),
    decreases st.budget, 1nat, components.len() - i,
{
    if 0 <= i < components.len() {
        match components[i] {
            IrTemplateComponent::String(s) => {
                lemma_template_parts(components, i + 1, joined(text, s@), used, st);
            },
            IrTemplateComponent::Ir(ir) => {
                lemma_eval_ir(ir, used, st);
                match eval_ir_model(ir, used, st) {
                    Step::Done(value, s) => match value {
                        ValueV::Integer(n) => {
                            lemma_template_parts(
                                components,
                                i + 1,
                                joined(text, signed_decimal(n)),
                                used,
                                s,
                            );
                        },
                        ValueV::Bool(b) => {
                            lemma_template_parts(
                                components,
                                i + 1,
                                joined(text, bool_text(b)),
                                used,
                                s,
                            );
                        },
                        ValueV::String(h) => match read_model(s.heap, h, ValueKind::String) {
                            Ok(data) => {
                                lemma_template_parts(
                                    components,
                                    i + 1,
                                    joined(text, data.text()),
                                    used,
                                    s,
                                );
                            },
                            Err(_) => {},
                        },
                        ValueV::Float(_) => {
                            lemma_template_parts(components, i + 1, None, used, s);
                        },
                        _ => {},
                    },
                    Step::Float(s) => {
                        lemma_template_parts(components, i + 1, None, used, s);
                    },
                    _ => {},
                }
            },
        }
    }
}

/// A template keeps the depth of the scope stack.
pub proof fn lemma_eval_ir_template(ir: IrTemplate, used: Used, st: StateV)
    ensures
        keeps(eval_ir_template_model(ir, used, st), st),
    decreases st.budget, 3nat, 0nat,
{
    lemma_template_parts(ir.components@, 0, Some(Seq::empty()), used, st);
}

/// A condition keeps the depth of the scope stack.
pub proof fn lemma_condition(condition: IrCondition, used: Used, st: StateV)
    ensures
        keeps(condition_model(condition, used, st), st),
    decreases st.budget, 1nat, 0nat,
{
    match condition {
        IrCondition::Ir(ir) => {
            lemma_eval_ir(ir, used, st);
        },
        IrCondition::Let(ir_let) => {
            lemma_eval_ir(ir_let.ir, used, st);
            match eval_ir_model(ir_let.ir, used, st) {
                Step::Done(value, s) => {
                    match matched(ir_let.pat, value, s.heap, Seq::empty()) {
                        Ok(Some(bound)) => {
                            if s.scopes.len() > 0 {
                                lemma_declared_depth(s.scopes, bound, 0);
                            }
                        },
                        _ => {},
                    }
                },
                _ => {},
            }
        },
    }
}

/// A branch keeps the depth of the scope stack.
pub proof fn lemma_branch(condition: IrCondition, body: IrScope, used: Used, st: StateV)
    ensures
        keeps(branch_model(condition, body, used, st), st),
    decreases st.budget, 4nat, 0nat,
{
    lemma_condition(condition, used, st);
    match condition_model(condition, used, st) {
        Step::Done(true, s) => {
            lemma_block(body, used, s);
        },
        _ => {},
    }
}

/// A chain of branches keeps the depth of the scope stack.
pub proof fn lemma_eval_ir_branches(ir: IrBranches, i: int, used: Used, st: StateV)
    ensures
        keeps(eval_ir_branches_model(ir, i, used, st), st),
    decreases st.budget, 5nat, ir.branches@.len() - i,
{
    if i < 0 || i >= ir.branches@.len() {
        match ir.default_branch {
            Some(scope) => {
                lemma_block(scope, used, st);
            },
            None => {},
        }
    } else {
        let inner = opened(st, ScopeKind::Plain);
        let step = branch_model(ir.branches@[i].0, ir.branches@[i].1, used, inner);
        lemma_branch(ir.branches@[i].0, ir.branches@[i].1, used, inner);
        lemma_closed(step, st, inner);
        match closed(step) {
            Step::Done(None, s) => {
                lemma_eval_ir_branches(ir, i + 1, used, s);
            },
            _ => {},
        }
    }
}

/// The condition of a loop keeps the depth of the scope stack.
pub proof fn lemma_loop_condition(ir: IrLoop, used: Used, st: StateV)
    ensures
        keeps(loop_condition_model(ir, used, st), st),
    decreases st.budget, 2nat, 0nat,
{
    match ir.condition {
        None => {},
        Some(condition) => {
            if st.scopes.len() > 0 {
                lemma_condition(*condition, used, StateV { scopes: cleared(st.scopes), ..st });
            }
        },
    }
}

/// The turns of a loop keep the depth of the scope stack.
pub proof fn lemma_loop_turns(ir: IrLoop, used: Used, st: StateV)
    ensures
        keeps(loop_turns_model(ir, used, st), st),
    decreases st.budget, 4nat, 0nat,
{
    lemma_loop_condition(ir, used, st);
    match loop_condition_model(ir, used, st) {
        Step::Done(true, s) => {
            lemma_block(ir.body, used, s);
            match block_model(ir.body, used, s) {
                Step::Done(_, s) => {
                    lemma_loop_turns(ir, used, s);
                },
                Step::Float(s) => {
                    lemma_loop_turns(ir, used, s);
                },
                _ => {},
            }
        },
        _ => {},
    }
}

/// A loop keeps the depth of the scope stack.
pub proof fn lemma_eval_ir_loop(ir: IrLoop, used: Used, st: StateV)
    ensures
        keeps(eval_ir_loop_model(ir, used, st), st),
    decreases st.budget, 5nat, 0nat,
{
    let inner = opened(st, ScopeKind::Plain);
    lemma_loop_turns(ir, used, inner);
    lemma_closed(loop_turns_model(ir, used, inner), st, inner);
}

/// A break keeps the depth of the scope stack.
pub proof fn lemma_eval_ir_break(ir: IrBreak, used: Used, st: StateV)
    ensures
        keeps(eval_ir_break_model(ir, used, st), st),
    decreases st.budget, 3nat, 0nat,
{
    match ir.value {
        Some(value) => {
            lemma_eval_ir(*value, used, st);
        },
        None => {},
    }
}

/// The call of a constant function keeps the depth of the scope stack.
pub proof fn lemma_call_const_fn(span: Span, target: u64, args: Seq<ValueV>, used: Used, st: StateV)
    ensures
        keeps(call_const_fn_model(span, target, args, used, st), st),
    decreases st.budget, 1nat, 0nat,
{
    match st.query.position(target) {
        None => {},
        Some(i) => {
            let const_fn = st.query.fns@[i];
            if const_fn.args@.len() == args.len() {
                let entered = StateV {
                    scopes: st.scopes.push(
                        ScopeV {
                            kind: ScopeKind::Isolate,
                            locals: bound(const_fn.args@, args, 0, Seq::empty()),
                        },
                    ),
                    dependencies: if used == Used::Used {
                        st.dependencies.push(target)
                    } else {
                        st.dependencies
                    },
                    ..st
                };
                lemma_eval_ir(const_fn.ir, used, entered);
                lemma_closed(as_value(eval_ir_model(const_fn.ir, used, entered)), st, entered);
            }
        },
    }
}

/// A call keeps the depth of the scope stack.
pub proof fn lemma_eval_ir_call(ir: IrCall, used: Used, st: StateV)
    ensures
        keeps(eval_ir_call_model(ir, used, st), st),
    decreases st.budget, 2nat, 0nat,
{
    lemma_items(ir.args@, 0, Seq::empty(), used, st);
    match items_model(ir.args@, 0, Seq::empty(), used, st) {
        Step::Done(values, s) => {
            lemma_call_const_fn(ir.span, ir.target, values, used, s);
        },
        _ => {},
    }
}

/// The scope stack is as deep after the evaluation of a node as it was
/// before, whether the evaluation yields a value or not.
pub proof fn law_scope_depth_is_kept(ir: Ir, used: Used, st: StateV)
    ensures
        match eval_ir_model(ir, used, st) {
            Step::Done(_, after) => after.scopes.len() == st.scopes.len(),
            Step::Raise(_, after) => after.scopes.len() == st.scopes.len(),
            Step::Float(after) => after.scopes.len() == st.scopes.len(),
            Step::Text(before) => forall|text: Seq<char>|
                (#[trigger] text_shared(before, text)).scopes.len() == st.scopes.len(),
            Step::Stored(target, before) => forall|bits: u64|
                (#[trigger] float_stored(target, bits, before)).scopes.len() == st.scopes.len(),
            Step::Host => true,
        },
{
    lemma_eval_ir(ir, used, st);
    match eval_ir_model(ir, used, st) {
        Step::Stored(target, before) => {
            assert forall|bits: u64|
                (#[trigger] float_stored(target, bits, before)).scopes.len()
                    == st.scopes.len() by {
                match target.kind {
                    IrTargetKind::Name(name) => {
                        lemma_rebind_depth(
                            before.scopes,
                            name@,
                            ValueV::Float(bits),
                            before.scopes.len() as int,
                        );
                    },
                    _ => {},
                }
            }
        },
        _ => {},
    }
}

/// Every visit of a node takes from the budget: with nothing left the
/// evaluation yields no value and the state is as before; otherwise the
/// budget is smaller afterwards, whatever the outcome.
pub proof fn law_budget_decreases(ir: Ir, used: Used, st: StateV)
    ensures
        match eval_ir_model(ir, used, st) {
            Step::Done(_, after) => after.budget < st.budget,
            Step::Raise(_, after) => if st.budget == 0 {
                after == st
            } else {
                after.budget < st.budget
            },
            Step::Float(after) => after.budget < st.budget,
            Step::Text(before) => before.budget < st.budget,
            Step::Stored(_, before) => before.budget < st.budget,
            Step::Host => true,
        },
{
    lemma_eval_ir(ir, used, st);
}

/// Every visited node takes exactly one unit of the budget, before its
/// parts are evaluated: with something left, the evaluation of a node is that
/// of its kind from the state with one unit less; with nothing left, it fails
/// and changes nothing. The function for a kind takes nothing itself, so what
/// a tree takes is one unit for each node that is visited.
pub proof fn law_one_unit_per_node(ir: Ir, used: Used, st: StateV)
    ensures
        st.budget > 0 ==> eval_ir_model(ir, used, st) == node_model(ir, used, spent(st)),
        st.budget == 0 ==> eval_ir_model(ir, used, st) == Step::<ValueV>::Raise(
            OutcomeV::Error(IrError { span: ir.span, kind: IrErrorKind::BudgetExceeded }),
            st,
        ),
        st.budget > 0 ==> spent(st).budget == st.budget - 1,
{
}

/// The sum of two integer constants takes three units, one for each of its
/// three nodes: with three units or more it yields the sum and leaves three
/// units less.
pub proof fn law_sum_of_constants(
    span: Span,
    inner: Span,
    lhs: Ir,
    rhs: Ir,
    a: int,
    b: int,
    used: Used,
    st: StateV,
)
    requires
        st.budget >= 3,
        lhs.kind matches IrKind::Value(x) && x@ == ValueV::Integer(a),
        rhs.kind matches IrKind::Value(y) && y@ == ValueV::Integer(b),
    ensures
        eval_ir_model(
            Ir {
                span,
                kind: IrKind::Binary(
                    IrBinary {
                        span: inner,
                        op: IrBinaryOp::Add,
                        lhs: Box::new(lhs),
                        rhs: Box::new(rhs),
                    },
                ),
            },
            used,
            st,
        ) == Step::Done(ValueV::Integer(a + b), StateV { budget: (st.budget - 3) as nat, ..st }),
{
    reveal_with_fuel(eval_ir_model, 3);
    reveal_with_fuel(node_model, 3);
}

/// A constant evaluates to itself: with something left of the budget, the
/// node of a value yields that value and changes nothing but the budget.
pub proof fn law_value_evaluates_to_itself(span: Span, value: IrValue, used: Used, st: StateV)
    requires
        st.budget > 0,
    ensures
        eval_ir_model(Ir { span, kind: IrKind::Value(value) }, used, st) == Step::Done(
            value@,
            spent(st),
        ),
{
}

/// Evaluation is a function of the tree and the state: two evaluations of
/// one tree from states that stand for the same yield results that stand for
/// the same, and leave states that stand for the same. Of what the host
/// answers nothing is assumed, not even that it answers the same twice: where
/// the result is a float that the host computed, the two evaluations still
/// leave the same state; where it is a string that the host had a part in,
/// they still yield the same handle.
pub proof fn law_evaluation_is_deterministic(
    ir: Ir,
    used: Used,
    first: StateV,
    second: StateV,
    first_result: Result<IrValue, IrEvalOutcome>,
    first_after: StateV,
    second_result: Result<IrValue, IrEvalOutcome>,
    second_after: StateV,
)
    requires
        first == second,
        yields(eval_ir_model(ir, used, first), first_result, first_after),
        yields(eval_ir_model(ir, used, second), second_result, second_after),
    ensures
        eval_ir_model(ir, used, first) is Done || eval_ir_model(ir, used, first) is Raise ==> {
            &&& first_after == second_after
            &&& first_result is Ok <==> second_result is Ok
            &&& first_result is Ok ==> first_result->Ok_0@ == second_result->Ok_0@
            &&& first_result is Err ==> first_result->Err_0@ == second_result->Err_0@
        },
        eval_ir_model(ir, used, first) is Float ==> {
            &&& first_after == second_after
            &&& first_result is Ok && first_result->Ok_0@ is Float
            &&& second_result is Ok && second_result->Ok_0@ is Float
        },
        eval_ir_model(ir, used, first) is Text ==> {
            &&& first_result is Ok && second_result is Ok
            &&& first_result->Ok_0@ == second_result->Ok_0@
        },
{
}

/// A loop catches a break with its own label and ends with unit; a break
/// with another label, or any labelled break in a loop without a label, goes
/// on to the loops around it.
pub proof fn law_labelled_break(
    ir: IrLoop,
    used: Used,
    st: StateV,
    turn: StateV,
    span: Span,
    label: Seq<char>,
    after: StateV,
)
    requires
        loop_condition_model(ir, used, st) == Step::Done(true, turn),
        block_model(ir.body, used, turn) == Step::<ValueV>::Raise(
            OutcomeV::Break(span, BreakV::Label(label)),
            after,
        ),
    ensures
        loop_turns_model(ir, used, st) == if ir.label matches Some(own) && own@ == label {
            Step::Done(ValueV::Unit, after)
        } else {
            Step::Raise(OutcomeV::Break(span, BreakV::Label(label)), after)
        },
{
    lemma_loop_condition(ir, used, st);
}

/// The state after one turn of a loop that ends without leaving the loop:
/// the condition holds and the body runs to its end.
pub open spec fn after_turn(ir: IrLoop, used: Used, st: StateV) -> Option<StateV> {
    match loop_condition_model(ir, used, st) {
        Step::Done(true, s) => match block_model(ir.body, used, s) {
            Step::Done(_, s) => Some(s),
            Step::Float(s) => Some(s),
            _ => None,
        },
        _ => None,
    }
}

/// The state after `n` turns of a loop none of which leaves the loop.
pub open spec fn after_turns(ir: IrLoop, used: Used, st: StateV, n: nat) -> Option<StateV>
    decreases n,
{
    if n == 0 {
        Some(st)
    } else {
        match after_turns(ir, used, st, (n - 1) as nat) {
            Some(s) => after_turn(ir, used, s),
            None => None,
        }
    }
}

/// After turns that do not leave the loop, the loop goes on as a loop that
/// starts in the state they left.
pub proof fn lemma_after_turns(ir: IrLoop, used: Used, st: StateV, n: nat)
    requires
        after_turns(ir, used, st, n) is Some,
    ensures
        loop_turns_model(ir, used, st) == loop_turns_model(
            ir,
            used,
            after_turns(ir, used, st, n)->0,
        ),
    decreases n,
{
    if n > 0 {
        lemma_after_turns(ir, used, st, (n - 1) as nat);
        let s = after_turns(ir, used, st, (n - 1) as nat)->0;
        lemma_loop_condition(ir, used, s);
        match loop_condition_model(ir, used, s) {
            Step::Done(true, c) => {
                lemma_block(ir.body, used, c);
            },
            _ => {},
        }
    }
}

/// On whichever turn the body of a loop raises a break with a label, the
/// loop ends there: with unit if the label is its own, and no further
/// condition or body is evaluated; with the same break, span and label
/// unchanged, if the loop has another label or none. Either way the scope of
/// the loop is closed.
pub proof fn law_labelled_break_on_any_turn(
    ir: IrLoop,
    used: Used,
    st: StateV,
    n: nat,
    turn: StateV,
    span: Span,
    label: Seq<char>,
    after: StateV,
)
    requires
        after_turns(ir, used, opened(st, ScopeKind::Plain), n) matches Some(s)
            && loop_condition_model(ir, used, s) == Step::Done(true, turn),
        block_model(ir.body, used, turn) == Step::<ValueV>::Raise(
            OutcomeV::Break(span, BreakV::Label(label)),
            after,
        ),
    ensures
        eval_ir_loop_model(ir, used, st) == if ir.label matches Some(own) && own@ == label {
            Step::Done(ValueV::Unit, popped(after))
        } else {
            Step::Raise(OutcomeV::Break(span, BreakV::Label(label)), popped(after))
        },
{
    let start = opened(st, ScopeKind::Plain);
    lemma_after_turns(ir, used, start, n);
    law_labelled_break(ir, used, after_turns(ir, used, start, n)->0, turn, span, label, after);
}

/// A break with a label goes through every loop that has another label or
/// none: such a loop ends with the same break, once its scope is closed.
pub proof fn law_other_label_is_raised_again(
    ir: IrLoop,
    used: Used,
    st: StateV,
    turn: StateV,
    span: Span,
    label: Seq<char>,
    after: StateV,
)
    requires
        !(ir.label matches Some(own) && own@ == label),
        loop_condition_model(ir, used, opened(st, ScopeKind::Plain)) == Step::Done(true, turn),
        block_model(ir.body, used, turn) == Step::<ValueV>::Raise(
            OutcomeV::Break(span, BreakV::Label(label)),
            after,
        ),
    ensures
        eval_ir_loop_model(ir, used, st) == Step::<ValueV>::Raise(
            OutcomeV::Break(span, BreakV::Label(label)),
            popped(after),
        ),
{
    law_labelled_break(ir, used, opened(st, ScopeKind::Plain), turn, span, label, after);
}

} // verus!
