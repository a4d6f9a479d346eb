//! What the evaluation of a tree means.
//!
//! One function for each kind of node says what the node yields and how it
//! leaves the state. Every visit of a node is paid for with one unit of the
//! budget before anything else is done: [`eval_ir_model`] pays for the node it
//! is given, [`block_model`] for a block that stands without a node around it,
//! and nothing else takes from the budget. So the budget bounds the work.
//! Where a function goes on after a part of the tree, it does so only with a
//! budget that has not grown, which is always the case.

use crate::error::{access_error, expected_error, BreakV, IrError, IrErrorKind, OutcomeV};
use crate::interpreter::{StateV, Used};
use crate::ir::{
    Ir, IrAssign, IrBinary, IrBranches, IrBreak, IrCall, IrCondition, IrDecl, IrKind, IrLoop,
    IrObject, IrScope, IrSet, IrTemplate, IrTemplateComponent, IrTuple, IrVec,
};
use crate::model::{
    binary, closed, fail, next_handle, opened, shared, target_mut, target_set, target_value,
    Mutated, Step,
};
use crate::pattern::matches_model;
use crate::scopes::{cleared, declare, lookup, put, ScopeKind, ScopeV};
use crate::shared::read_model;
use crate::span::{Span, Spanned};
use crate::text::signed_decimal;
use crate::value::{PayloadV, ValueKind, ValueV};
use vstd::prelude::*;

verus! {

/// The state after one visit was paid for.
pub open spec fn spent(st: StateV) -> StateV {
    StateV { budget: (st.budget - 1) as nat, ..st }
}

/// The error that an outcome becomes where a value is required.
pub open spec fn outcome_error(outcome: OutcomeV) -> IrError {
    match outcome {
        OutcomeV::Error(error) => error,
        OutcomeV::NotConst(span) => IrError { span, kind: IrErrorKind::NotConst },
        OutcomeV::Break(span, _) => IrError { span, kind: IrErrorKind::BreakOutsideOfLoop },
    }
}

/// The step with every outcome that is no value turned into an error.
pub open spec fn as_value(step: Step<ValueV>) -> Step<ValueV> {
    match step {
        Step::Done(value, s) => Step::Done(value, s),
        Step::Raise(outcome, s) => Step::Raise(OutcomeV::Error(outcome_error(outcome)), s),
        Step::Float(s) => Step::Float(s),
        Step::Text(s) => Step::Text(s),
        _ => Step::Host,
    }
}

/// How a boolean reads in a template.
pub open spec fn bool_text(b: bool) -> Seq<char> {
    if b {
        "true"@
    } else {
        "false"@
    }
}

/// The bindings of the parameters from `i` on to the arguments from `i` on,
/// added to `locals`.
pub open spec fn bound(
    params: Seq<String>,
    args: Seq<ValueV>,
    i: int,
    locals: Seq<(Seq<char>, ValueV)>,
) -> Seq<(Seq<char>, ValueV)>
    decreases params.len() - i,
{
    if i < 0 || i >= params.len() {
        locals
    } else {
        bound(params, args, i + 1, put(locals, params[i]@, args[i]))
    }
}

/// The evaluation of a node: one unit of the budget is paid for the visit,
/// then the node is evaluated by its kind. With nothing left of the budget the
/// evaluation fails and changes nothing.
pub open spec fn eval_ir_model(ir: Ir, used: Used, st: StateV) -> Step<ValueV>
    decreases st.budget, 0nat, 0nat,
{
    if st.budget == 0 {
        Step::Raise(fail(ir.span, IrErrorKind::BudgetExceeded), st)
    } else {
        node_model(ir, used, spent(st))
    }
}

/// The evaluation of a node whose visit is paid for, by its kind. The parts
/// of the node pay for themselves; the node takes nothing more.
pub open spec fn node_model(ir: Ir, used: Used, st: StateV) -> Step<ValueV>
    decreases st.budget, 6nat, 0nat,
{
    match ir.kind {
        IrKind::Scope(scope) => eval_ir_scope_model(scope, used, st),
        IrKind::Binary(b) => eval_ir_binary_model(b, used, st),
        IrKind::Decl(decl) => eval_ir_decl_model(decl, used, st),
        IrKind::SetTarget(set) => eval_ir_set_model(set, used, st),
        IrKind::Assign(assign) => eval_ir_assign_model(assign, used, st),
        IrKind::Template(template) => eval_ir_template_model(template, used, st),
        IrKind::Name(name) => match lookup(st.scopes, name@, st.scopes.len() as int) {
            Some(value) => Step::Done(value, st),
            None => Step::Raise(fail(ir.span, IrErrorKind::MissingLocal), st),
        },
        IrKind::Target(target) => match target_value(target, st.scopes, st.heap) {
            Ok(value) => Step::Done(value, st),
            Err(error) => Step::Raise(OutcomeV::Error(error), st),
        },
        IrKind::Value(value) => Step::Done(value@, st),
        IrKind::Branches(branches) => eval_ir_branches_model(branches, 0, used, st),
        IrKind::Loop(l) => eval_ir_loop_model(l, used, st),
        IrKind::Break(b) => eval_ir_break_model(b, used, st),
        IrKind::Vec(vec) => eval_ir_vec_model(vec, used, st),
        IrKind::Tuple(tuple) => eval_ir_tuple_model(tuple, used, st),
        IrKind::Object(object) => eval_ir_object_model(object, used, st),
        IrKind::Call(call) => eval_ir_call_model(call, used, st),
    }
}

/// The evaluation of the nodes from `i` on, one after the other, for their
/// effects.
pub open spec fn instructions_model(instructions: Seq<Ir>, i: int, used: Used, st: StateV) -> Step<
    (),
>
    decreases st.budget, 1nat, instructions.len() - i,
{
    if i < 0 || i >= instructions.len() {
        Step::Done((), st)
    } else {
        match eval_ir_model(instructions[i], used, st) {
            Step::Raise(outcome, s) => Step::Raise(outcome, s),
            Step::Done(_, s) => if s.budget <= st.budget {
                instructions_model(instructions, i + 1, used, s)
            } else {
                Step::Host
            },
            Step::Float(s) => if s.budget <= st.budget {
                instructions_model(instructions, i + 1, used, s)
            } else {
                Step::Host
            },
            _ => Step::Host,
        }
    }
}

/// The evaluation of the nodes from `i` on, one after the other, with their
/// values added to `values`.
pub open spec fn items_model(
    items: Seq<Ir>,
    i: int,
    values: Seq<ValueV>,
    used: Used,
    st: StateV,
) -> Step<Seq<ValueV>>
    decreases st.budget, 1nat, items.len() - i,
{
    if i < 0 || i >= items.len() {
        Step::Done(values, st)
    } else {
        match eval_ir_model(items[i], used, st) {
            Step::Raise(outcome, s) => Step::Raise(outcome, s),
            Step::Done(value, s) => if s.budget <= st.budget {
                items_model(items, i + 1, values.push(value), used, s)
            } else {
                Step::Host
            },
            _ => Step::Host,
        }
    }
}

/// The evaluation of the fields of an object from `i` on, one after the
/// other, with their values put into `entries`.
pub open spec fn fields_model(
    assignments: Seq<(String, Ir)>,
    i: int,
    entries: Seq<(Seq<char>, ValueV)>,
    used: Used,
    st: StateV,
) -> Step<Seq<(Seq<char>, ValueV)>>
    decreases st.budget, 1nat, assignments.len() - i,
{
    if i < 0 || i >= assignments.len() {
        Step::Done(entries, st)
    } else {
        match eval_ir_model(assignments[i].1, used, st) {
            Step::Raise(outcome, s) => Step::Raise(outcome, s),
            Step::Done(value, s) => if s.budget <= st.budget {
                fields_model(assignments, i + 1, put(entries, assignments[i].0@, value), used, s)
            } else {
                Step::Host
            },
            _ => Step::Host,
        }
    }
}

/// The body of a block inside its scope: the instructions, then the value
/// of the last expression, or unit.
pub open spec fn scope_body_model(scope: IrScope, used: Used, st: StateV) -> Step<ValueV>
    decreases st.budget, 2nat, 0nat,
{
    match instructions_model(scope.instructions@, 0, used, st) {
        Step::Raise(outcome, s) => Step::Raise(outcome, s),
        Step::Done(_, s) => match scope.last {
            None => Step::Done(ValueV::Unit, s),
            Some(last) => if s.budget <= st.budget {
                eval_ir_model(*last, used, s)
            } else {
                Step::Host
            },
        },
        _ => Step::Host,
    }
}

/// The evaluation of a block: a scope is opened, the body evaluated, and
/// the scope closed again however the body ended.
pub open spec fn eval_ir_scope_model(scope: IrScope, used: Used, st: StateV) -> Step<ValueV>
    decreases st.budget, 3nat, 0nat,
{
    closed(scope_body_model(scope, used, opened(st, ScopeKind::Plain)))
}

/// The evaluation of a block that is a node of its own, as the body of a
/// loop, the body of a branch and a default branch are: the visit is paid for,
/// then the block is evaluated.
pub open spec fn block_model(scope: IrScope, used: Used, st: StateV) -> Step<ValueV>
    decreases st.budget, 3nat, 1nat,
{
    if st.budget == 0 {
        Step::Raise(fail(scope.span, IrErrorKind::BudgetExceeded), st)
    } else {
        eval_ir_scope_model(scope, used, spent(st))
    }
}

/// The evaluation of a binary operation: the left operand, the right
/// operand, then the operator.
pub open spec fn eval_ir_binary_model(ir: IrBinary, used: Used, st: StateV) -> Step<ValueV>
    decreases st.budget, 3nat, 0nat,
{
    match eval_ir_model(*ir.lhs, used, st) {
        Step::Raise(outcome, s) => Step::Raise(outcome, s),
        Step::Done(a, s) => if s.budget <= st.budget {
            match eval_ir_model(*ir.rhs, used, s) {
                Step::Raise(outcome, s) => Step::Raise(outcome, s),
                Step::Done(b, s) => binary(ir.op, ir.span, ir.rhs.span, a, b, s),
                _ => Step::Host,
            }
        } else {
            Step::Host
        },
        _ => Step::Host,
    }
}

/// The evaluation of a declaration: the value, then the binding in the
/// innermost scope.
pub open spec fn eval_ir_decl_model(ir: IrDecl, used: Used, st: StateV) -> Step<ValueV>
    decreases st.budget, 3nat, 0nat,
{
    match eval_ir_model(*ir.value, used, st) {
        Step::Raise(outcome, s) => Step::Raise(outcome, s),
        Step::Done(value, s) => if s.scopes.len() == 0 {
            Step::Raise(fail(ir.span, IrErrorKind::MissingScope), s)
        } else {
            Step::Done(
                ValueV::Unit,
                StateV { scopes: declare(s.scopes, ir.name@, value), ..s },
            )
        },
        _ => Step::Host,
    }
}

/// The evaluation of a write: the value, then the write to the target.
pub open spec fn eval_ir_set_model(ir: IrSet, used: Used, st: StateV) -> Step<ValueV>
    decreases st.budget, 3nat, 0nat,
{
    match eval_ir_model(*ir.value, used, st) {
        Step::Raise(outcome, s) => Step::Raise(outcome, s),
        Step::Done(value, s) => match target_set(ir.target, value, s.scopes, s.heap) {
            Ok((scopes, heap)) => Step::Done(ValueV::Unit, StateV { scopes, heap, ..s }),
            Err(error) => Step::Raise(OutcomeV::Error(error), s),
        },
        _ => Step::Host,
    }
}

/// The evaluation of a compound assignment: the operand, then the change
/// of the target in place.
pub open spec fn eval_ir_assign_model(ir: IrAssign, used: Used, st: StateV) -> Step<ValueV>
    decreases st.budget, 3nat, 0nat,
{
    match eval_ir_model(*ir.value, used, st) {
        Step::Raise(outcome, s) => Step::Raise(outcome, s),
        Step::Done(value, s) => match target_mut(
            ir.target,
            ir.op,
            ir.span,
            value,
            s.scopes,
            s.heap,
        ) {
            Mutated::Done(scopes, heap) => Step::Done(
                ValueV::Unit,
                StateV { scopes, heap, ..s },
            ),
            Mutated::Error(error) => Step::Raise(OutcomeV::Error(error), s),
            Mutated::Host => Step::Stored(ir.target, s),
        },
        _ => Step::Host,
    }
}

/// The text with `more` added, where the text is known.
pub open spec fn joined(text: Option<Seq<char>>, more: Seq<char>) -> Option<Seq<char>> {
    match text {
        Some(text) => Some(text + more),
        None => None,
    }
}

/// The text of the parts of a template from `i` on, added to `text`. A
/// float among the parts is formatted by the host: from there on the text is
/// not known, and the parts that follow are evaluated all the same.
pub open spec fn template_parts_model(
    components: Seq<IrTemplateComponent>,
    i: int,
    text: Option<Seq<char>>,
    used: Used,
    st: StateV,
) -> Step<Option<Seq<char>>>
    decreases st.budget, 1nat, components.len() - i,
{
    if i < 0 || i >= components.len() {
        Step::Done(text, st)
    } else {
        match components[i] {
            IrTemplateComponent::String(s) => template_parts_model(
                components,
                i + 1,
                joined(text, s@),
                used,
                st,
            ),
            IrTemplateComponent::Ir(ir) => match eval_ir_model(ir, used, st) {
                Step::Raise(outcome, s) => Step::Raise(outcome, s),
                Step::Done(value, s) => if s.budget <= st.budget {
                    match value {
                        ValueV::Integer(n) => template_parts_model(
                            components,
                            i + 1,
                            joined(text, signed_decimal(n)),
                            used,
                            s,
                        ),
                        ValueV::Bool(b) => template_parts_model(
                            components,
                            i + 1,
                            joined(text, bool_text(b)),
                            used,
                            s,
                        ),
                        ValueV::String(h) => match read_model(s.heap, h, ValueKind::String) {
                            Err(error) => Step::Raise(
                                OutcomeV::Error(access_error(ir.span, error)),
                                s,
                            ),
                            Ok(data) => template_parts_model(
                                components,
                                i + 1,
                                joined(text, data.text()),
                                used,
                                s,
                            ),
                        },
                        ValueV::Float(_) => template_parts_model(
                            components,
                            i + 1,
                            None,
                            used,
                            s,
                        ),
                        _ => Step::Raise(OutcomeV::NotConst(ir.span), s),
                    }
                } else {
                    Step::Host
                },
                Step::Float(s) => if s.budget <= st.budget {
                    template_parts_model(components, i + 1, None, used, s)
                } else {
                    Step::Host
                },
                _ => Step::Host,
            },
        }
    }
}

/// The evaluation of a template: the text of its parts, in a new string
/// cell.
pub open spec fn eval_ir_template_model(ir: IrTemplate, used: Used, st: StateV) -> Step<ValueV>
    decreases st.budget, 3nat, 0nat,
{
    match template_parts_model(ir.components@, 0, Some(Seq::empty()), used, st) {
        Step::Raise(outcome, s) => Step::Raise(outcome, s),
        Step::Done(Some(text), s) => Step::Done(
            ValueV::String(next_handle(s)),
            shared(s, PayloadV::String(text)),
        ),
        Step::Done(None, s) => Step::Text(s),
        _ => Step::Host,
    }
}

/// The evaluation of a condition: whether it holds. A pattern that matches
/// declares its names in the innermost scope.
pub open spec fn condition_model(condition: IrCondition, used: Used, st: StateV) -> Step<bool>
    decreases st.budget, 1nat, 0nat,
{
    match condition {
        IrCondition::Ir(ir) => match eval_ir_model(ir, used, st) {
            Step::Raise(outcome, s) => Step::Raise(outcome, s),
            Step::Done(value, s) => match value {
                ValueV::Bool(b) => Step::Done(b, s),
                _ => Step::Raise(OutcomeV::Error(expected_error(ir.span, ValueKind::Bool, value)), s),
            },
            _ => Step::Host,
        },
        IrCondition::Let(ir_let) => match eval_ir_model(ir_let.ir, used, st) {
            Step::Raise(outcome, s) => Step::Raise(outcome, s),
            Step::Done(value, s) => match matches_model(ir_let.pat, value, ir_let.span, s) {
                (Ok(b), s) => Step::Done(b, s),
                (Err(outcome), s) => Step::Raise(outcome, s),
            },
            _ => Step::Host,
        },
    }
}

/// One branch inside its scope: the body if the condition holds, nothing
/// if it does not.
pub open spec fn branch_model(
    condition: IrCondition,
    body: IrScope,
    used: Used,
    st: StateV,
) -> Step<Option<ValueV>>
    decreases st.budget, 4nat, 0nat,
{
    match condition_model(condition, used, st) {
        Step::Raise(outcome, s) => Step::Raise(outcome, s),
        Step::Done(false, s) => Step::Done(None, s),
        Step::Done(true, s) => if s.budget <= st.budget {
            match block_model(body, used, s) {
                Step::Raise(outcome, s) => Step::Raise(outcome, s),
                Step::Done(value, s) => Step::Done(Some(value), s),
                Step::Float(s) => Step::Float(s),
                Step::Text(s) => Step::Text(s),
                _ => Step::Host,
            }
        } else {
            Step::Host
        },
        _ => Step::Host,
    }
}

/// The evaluation of the branches from `i` on: the value of the first one
/// whose condition holds, else that of the default, else unit. Each branch is
/// tried in a scope of its own.
pub open spec fn eval_ir_branches_model(ir: IrBranches, i: int, used: Used, st: StateV) -> Step<
    ValueV,
>
    decreases st.budget, 5nat, ir.branches@.len() - i,
{
    if i < 0 || i >= ir.branches@.len() {
        match ir.default_branch {
            Some(scope) => block_model(scope, used, st),
            None => Step::Done(ValueV::Unit, st),
        }
    } else {
        match closed(
            branch_model(ir.branches@[i].0, ir.branches@[i].1, used, opened(st, ScopeKind::Plain)),
        ) {
            Step::Raise(outcome, s) => Step::Raise(outcome, s),
            Step::Done(Some(value), s) => Step::Done(value, s),
            Step::Done(None, s) => if s.budget <= st.budget {
                eval_ir_branches_model(ir, i + 1, used, s)
            } else {
                Step::Host
            },
            Step::Float(s) => Step::Float(s),
            Step::Text(s) => Step::Text(s),
            _ => Step::Host,
        }
    }
}

/// Whether the next turn of a loop is taken: always without a condition;
/// with one, the bindings of the turn before are dropped and the condition
/// evaluated.
pub open spec fn loop_condition_model(ir: IrLoop, used: Used, st: StateV) -> Step<bool>
    decreases st.budget, 2nat, 0nat,
{
    match ir.condition {
        None => Step::Done(true, st),
        Some(condition) => if st.scopes.len() == 0 {
            Step::Raise(fail(condition.spanned(), IrErrorKind::MissingScope), st)
        } else {
            condition_model(*condition, used, StateV { scopes: cleared(st.scopes), ..st })
        },
    }
}

/// How a loop answers a break that its body raised.
pub open spec fn caught(ir: IrLoop, span: Span, b: BreakV, st: StateV) -> Step<ValueV> {
    match b {
        BreakV::Inherent => Step::Done(ValueV::Unit, st),
        BreakV::Label(label) => if ir.label matches Some(own) && own@ == label {
            Step::Done(ValueV::Unit, st)
        } else {
            Step::Raise(OutcomeV::Break(span, BreakV::Label(label)), st)
        },
        BreakV::Value(value) => if ir.condition is None {
            Step::Done(value, st)
        } else {
            Step::Raise(fail(span, IrErrorKind::BreakWithValue), st)
        },
    }
}

/// The turns of a loop inside its scope.
pub open spec fn loop_turns_model(ir: IrLoop, used: Used, st: StateV) -> Step<ValueV>
    decreases st.budget, 4nat, 0nat,
{
    match loop_condition_model(ir, used, st) {
        Step::Raise(outcome, s) => Step::Raise(outcome, s),
        Step::Done(false, s) => Step::Done(ValueV::Unit, s),
        Step::Done(true, s) => if s.budget <= st.budget {
            match block_model(ir.body, used, s) {
                Step::Done(_, s) => if s.budget < st.budget {
                    loop_turns_model(ir, used, s)
                } else {
                    Step::Host
                },
                Step::Float(s) => if s.budget < st.budget {
                    loop_turns_model(ir, used, s)
                } else {
                    Step::Host
                },
                Step::Raise(OutcomeV::Break(span, b), s) => caught(ir, span, b, s),
                Step::Raise(outcome, s) => Step::Raise(outcome, s),
                _ => Step::Host,
            }
        } else {
            Step::Host
        },
        _ => Step::Host,
    }
}

/// The evaluation of a loop: a scope is opened, the turns taken, and the
/// scope closed again however the loop ended.
pub open spec fn eval_ir_loop_model(ir: IrLoop, used: Used, st: StateV) -> Step<ValueV>
    decreases st.budget, 5nat, 0nat,
{
    closed(loop_turns_model(ir, used, opened(st, ScopeKind::Plain)))
}

/// The evaluation of a break: the outcome that carries its value if it has
/// one, else its label if it has one.
pub open spec fn eval_ir_break_model(ir: IrBreak, used: Used, st: StateV) -> Step<ValueV>
    decreases st.budget, 3nat, 0nat,
{
    match ir.value {
        Some(value) => match eval_ir_model(*value, used, st) {
            Step::Raise(outcome, s) => Step::Raise(outcome, s),
            Step::Done(value, s) => Step::Raise(
                OutcomeV::Break(ir.span, BreakV::Value(value)),
                s,
            ),
            _ => Step::Host,
        },
        None => match ir.label {
            Some(label) => Step::Raise(
                OutcomeV::Break(ir.span, BreakV::Label(label@)),
                st,
            ),
            None => Step::Raise(OutcomeV::Break(ir.span, BreakV::Inherent), st),
        },
    }
}

/// The evaluation of a vector: the values of its items, in a new cell.
pub open spec fn eval_ir_vec_model(ir: IrVec, used: Used, st: StateV) -> Step<ValueV>
    decreases st.budget, 2nat, 0nat,
{
    match items_model(ir.items@, 0, Seq::empty(), used, st) {
        Step::Raise(outcome, s) => Step::Raise(outcome, s),
        Step::Done(values, s) => Step::Done(
            ValueV::Vec(next_handle(s)),
            shared(s, PayloadV::Vec(values)),
        ),
        _ => Step::Host,
    }
}

/// The evaluation of a tuple: the values of its items, in a new cell.
pub open spec fn eval_ir_tuple_model(ir: IrTuple, used: Used, st: StateV) -> Step<ValueV>
    decreases st.budget, 2nat, 0nat,
{
    match items_model(ir.items@, 0, Seq::empty(), used, st) {
        Step::Raise(outcome, s) => Step::Raise(outcome, s),
        Step::Done(values, s) => Step::Done(
            ValueV::Tuple(next_handle(s)),
            shared(s, PayloadV::Tuple(values)),
        ),
        _ => Step::Host,
    }
}

/// The evaluation of an object: the values of its fields, in a new cell. Of
/// two fields with one key the second gives the value.
pub open spec fn eval_ir_object_model(ir: IrObject, used: Used, st: StateV) -> Step<ValueV>
    decreases st.budget, 2nat, 0nat,
{
    match fields_model(ir.assignments@, 0, Seq::empty(), used, st) {
        Step::Raise(outcome, s) => Step::Raise(outcome, s),
        Step::Done(entries, s) => Step::Done(
            ValueV::Object(next_handle(s)),
            shared(s, PayloadV::Object(entries)),
        ),
        _ => Step::Host,
    }
}

/// The call of the constant function registered under `target`: its body is
/// evaluated in an isolating scope that binds its parameters to the
/// arguments, and must give a value.
pub open spec fn call_const_fn_model(
    span: Span,
    target: u64,
    args: Seq<ValueV>,
    used: Used,
    st: StateV,
) -> Step<ValueV>
    decreases st.budget, 1nat, 0nat,
{
    match st.query.position(target) {
        None => Step::Raise(OutcomeV::NotConst(span), st),
        Some(i) => {
            let const_fn = st.query.fns@[i];
            if const_fn.args@.len() != args.len() {
                Step::Raise(
                    fail(
                        span,
                        IrErrorKind::ArgumentCountMismatch {
                            actual: args.len() as usize,
                            expected: const_fn.args@.len() as usize,
                        },
                    ),
                    st,
                )
            } else {
                let entered = StateV {
                    scopes: st.scopes.push(
                        ScopeV {
                            kind: ScopeKind::Isolate,
                            locals: bound(const_fn.args@, args, 0, Seq::empty()),
                        },
                    ),
                    dependencies: if used == Used::Used {
                        st.dependencies.push(target)
                    } else {
                        st.dependencies
                    },
                    ..st
                };
                closed(as_value(eval_ir_model(const_fn.ir, used, entered)))
            }
        },
    }
}

/// The evaluation of a call: the arguments from left to right, then the
/// call.
pub open spec fn eval_ir_call_model(ir: IrCall, used: Used, st: StateV) -> Step<ValueV>
    decreases st.budget, 2nat, 0nat,
{
    match items_model(ir.args@, 0, Seq::empty(), used, st) {
        Step::Raise(outcome, s) => Step::Raise(outcome, s),
        Step::Done(values, s) => if s.budget <= st.budget {
            call_const_fn_model(ir.span, ir.target, values, used, s)
        } else {
            Step::Host
        },
        _ => Step::Host,
    }
}

} // verus!
