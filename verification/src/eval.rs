//! The evaluator.
//!
//! [`eval_ir`] walks a tree and yields its value. It pays one unit of the
//! budget for the node it is given before it does anything else; the function
//! for the kind of the node takes nothing more. A block that stands without a
//! node around it is evaluated by [`eval_block`], which pays for it. Every
//! function leaves the scope stack as deep as it found it, and is proved to do
//! what its counterpart in [`crate::semantics`] says.

use crate::error::{expected_error, IrError, IrErrorKind, IrEvalBreak, IrEvalOutcome, OutcomeV};
use crate::integer::{
    difference, int_value, order, product, quotient, shift_left, shift_right, sum, to_decimal,
    to_u32,
};
use crate::floats::{compare, FloatOps};
use crate::interpreter::{IrInterpreter, Query, StateV, Used};
use crate::ir::{
    Ir, IrAssign, IrBinary, IrBinaryOp, IrBranches, IrBreak, IrCall, IrCondition, IrDecl, IrKind,
    IrLoop, IrObject, IrScope, IrSet, IrTemplate, IrTemplateComponent, IrTuple, IrVec,
};
use crate::model::{
    binary, closed, concatenated, fail, float_stored, integer_binary, lemma_target_set_depth,
    next_handle, opened, popped, shared, target_mut, target_store, text_shared, Step,
};
use crate::scopes::{insert, ScopeGuard, ScopeV};
use crate::semantics::{
    as_value, block_model, bool_text, bound, branch_model, call_const_fn_model, caught,
    condition_model, eval_ir_assign_model, eval_ir_binary_model, eval_ir_branches_model,
    eval_ir_break_model, eval_ir_call_model, eval_ir_decl_model, eval_ir_loop_model, eval_ir_model,
    eval_ir_object_model, eval_ir_scope_model, eval_ir_set_model, eval_ir_template_model,
    eval_ir_tuple_model, eval_ir_vec_model, fields_model, instructions_model, items_model, joined,
    loop_condition_model, loop_turns_model, outcome_error, scope_body_model, spent,
    template_parts_model,
};
use crate::span::{Span, Spanned};
use crate::text::signed_decimal;
use crate::value::{entries_view, values_view, IrValue, Payload, Shared, ValueKind, ValueV};
use num_bigint::BigInt;
use vstd::prelude::*;
use vstd::string::*;

verus! {

/// Whether a result and the state it was reached in are what a step of the
/// model says. After float arithmetic or the formatting of a float, that is
/// what holds whatever the host answered: the result is a float and the state
/// is known, or the result is the handle of a new string cell, or it is unit
/// and the target holds some float. Only of a step that went on from there
/// nothing is said.
pub open spec fn yields(step: Step<ValueV>, r: Result<IrValue, IrEvalOutcome>, st: StateV) -> bool {
    match step {
        Step::Done(value, s) => r is Ok && r->Ok_0@ == value && st == s,
        Step::Raise(outcome, s) => r is Err && r->Err_0@ == outcome && st == s,
        Step::Float(s) => r is Ok && r->Ok_0@ is Float && st == s,
        Step::Text(s) => r is Ok && r->Ok_0@ == ValueV::String(next_handle(s)) && exists|
            text: Seq<char>,
        | st == #[trigger] text_shared(s, text),
        Step::Stored(target, s) => r is Ok && r->Ok_0@ == ValueV::Unit && exists|bits: u64|
            st == #[trigger] float_stored(target, bits, s),
        Step::Host => true,
    }
}

/// Whether the result of a branch and the state it was reached in are what
/// a step of the model says.
pub open spec fn yields_branch(
    step: Step<Option<ValueV>>,
    r: Result<Option<IrValue>, IrEvalOutcome>,
    st: StateV,
) -> bool {
    match step {
        Step::Done(value, s) => r is Ok && st == s && match value {
            Some(value) => r->Ok_0 is Some && r->Ok_0->0@ == value,
            None => r->Ok_0 is None,
        },
        Step::Raise(outcome, s) => r is Err && r->Err_0@ == outcome && st == s,
        Step::Float(s) => r is Ok && r->Ok_0 is Some && r->Ok_0->0@ is Float && st == s,
        Step::Text(s) => r is Ok && r->Ok_0 is Some && r->Ok_0->0@ == ValueV::String(
            next_handle(s),
        ) && exists|text: Seq<char>| st == #[trigger] text_shared(s, text),
        _ => true,
    }
}

/// What a step yields in a scope, the step with the scope closed yields
/// once the scope is closed.
proof fn lemma_yields_closed(step: Step<ValueV>, r: Result<IrValue, IrEvalOutcome>, inner: StateV)
    requires
        yields(step, r, inner),
    ensures
        yields(closed(step), r, popped(inner)),
{
    match step {
        Step::Text(s) => {
            let text = choose|text: Seq<char>| inner == #[trigger] text_shared(s, text);
            assert(popped(inner) == text_shared(popped(s), text));
        },
        _ => {},
    }
}

/// What a branch yields in its scope, the branch with the scope closed
/// yields once the scope is closed.
proof fn lemma_yields_branch_closed(
    step: Step<Option<ValueV>>,
    r: Result<Option<IrValue>, IrEvalOutcome>,
    inner: StateV,
)
    requires
        yields_branch(step, r, inner),
    ensures
        yields_branch(closed(step), r, popped(inner)),
{
    match step {
        Step::Text(s) => {
            let text = choose|text: Seq<char>| inner == #[trigger] text_shared(s, text);
            assert(popped(inner) == text_shared(popped(s), text));
        },
        _ => {},
    }
}

/// Whether a state can follow another in one evaluation: the scope stack is
/// as deep as before, and the budget has not grown.
pub open spec fn settled(before: StateV, after: StateV) -> bool {
    after.scopes.len() == before.scopes.len() && after.budget <= before.budget
}

/// The boolean that `value` holds, or the error that something else stood
/// at `span`.
pub fn as_bool(span: Span, value: IrValue) -> (r: Result<bool, IrError>)
    ensures
        match value@ {
            ValueV::Bool(b) => r == Ok::<bool, IrError>(b),
            _ => r == Err::<bool, _>(expected_error(span, ValueKind::Bool, value@)),
        },
{
    match value.into_bool() {
        Ok(b) => Ok(b),
        Err(actual) => Err(IrError::expected(span, ValueKind::Bool, &actual)),
    }
}

/// Pays for one visit.
fn charge<F: FloatOps>(interp: &mut IrInterpreter<'_, F>, span: Span) -> (r: Result<
    (),
    IrEvalOutcome,
>)
    ensures
        old(interp)@.budget == 0 ==> r is Err && r->Err_0@ == fail(
            span,
            IrErrorKind::BudgetExceeded,
        ) && final(interp)@ == old(interp)@,
        old(interp)@.budget > 0 ==> r is Ok && final(interp)@ == spent(old(interp)@),
{
    match interp.budget.take(span) {
        Ok(()) => Ok(()),
        Err(error) => Err(IrEvalOutcome::Error(error)),
    }
}

/// Closes the scope that `guard` was handed out for, and passes `result`
/// on.
fn close_scope<F: FloatOps, T>(
    interp: &mut IrInterpreter<'_, F>,
    span: Span,
    guard: ScopeGuard,
    result: Result<T, IrEvalOutcome>,
) -> (r: Result<T, IrEvalOutcome>)
    requires
        old(interp)@.scopes.len() == guard.length + 1,
    ensures
        r == result,
        final(interp)@ == popped(old(interp)@),
{
    match interp.scopes.pop(span, guard) {
        Ok(()) => result,
        Err(error) => Err(IrEvalOutcome::Error(error)),
    }
}

/// Puts `data` into a new cell.
fn share<F: FloatOps>(interp: &mut IrInterpreter<'_, F>, data: Payload) -> (handle: Shared)
    ensures
        handle == next_handle(old(interp)@),
        final(interp)@ == shared(old(interp)@, data@),
{
    interp.heap.share(data)
}

/// What the operator makes of two integers.
fn integer_op(op: IrBinaryOp, span: Span, rhs: Span, a: &BigInt, b: &BigInt) -> (r: Result<
    IrValue,
    IrError,
>)
    ensures
        match integer_binary(op, span, rhs, int_value(*a), int_value(*b)) {
            Ok(value) => r is Ok && r->Ok_0@ == value,
            Err(error) => r == Err::<IrValue, _>(error),
        },
{
    match op {
        IrBinaryOp::Add => Ok(IrValue::Integer(sum(a, b))),
        IrBinaryOp::Sub => Ok(IrValue::Integer(difference(a, b))),
        IrBinaryOp::Mul => Ok(IrValue::Integer(product(a, b))),
        IrBinaryOp::Div => match quotient(a, b) {
            Some(number) => Ok(IrValue::Integer(number)),
            None => Err(IrError::new(span, IrErrorKind::DivisionByZero)),
        },
        IrBinaryOp::Shl => match to_u32(b) {
            Some(n) => Ok(IrValue::Integer(shift_left(a, n))),
            None => Err(IrError::new(rhs, IrErrorKind::BadShiftOperand)),
        },
        IrBinaryOp::Shr => match to_u32(b) {
            Some(n) => Ok(IrValue::Integer(shift_right(a, n))),
            None => Err(IrError::new(rhs, IrErrorKind::BadShiftOperand)),
        },
        IrBinaryOp::Lt => Ok(IrValue::Bool(order(a, b) < 0)),
        IrBinaryOp::Lte => Ok(IrValue::Bool(order(a, b) <= 0)),
        IrBinaryOp::Eq => Ok(IrValue::Bool(order(a, b) == 0)),
        IrBinaryOp::Gt => Ok(IrValue::Bool(order(a, b) > 0)),
        IrBinaryOp::Gte => Ok(IrValue::Bool(order(a, b) >= 0)),
    }
}

/// The new string cell that holds the text of `a` followed by that of `b`.
fn add_strings<F: FloatOps>(
    interp: &mut IrInterpreter<'_, F>,
    span: Span,
    a: Shared,
    b: Shared,
) -> (r: Result<IrValue, IrEvalOutcome>)
    ensures
        yields(concatenated(span, a, b, old(interp)@), r, final(interp)@),
        settled(old(interp)@, final(interp)@),
{
    let mut text = match interp.heap.read_string(a) {
        Ok(text) => text,
        Err(error) => {
            return Err(IrEvalOutcome::Error(IrError::access(span, error)));
        },
    };
    let right = match interp.heap.read_string(b) {
        Ok(text) => text,
        Err(error) => {
            return Err(IrEvalOutcome::Error(IrError::access(span, error)));
        },
    };
    text.append(right.as_str());
    let handle = share(interp, Payload::String(text));
    Ok(IrValue::String(handle))
}

/// What the operator makes of two values. Integers and strings are combined
/// and floats compared here; the arithmetic of two floats is the host's,
/// whose answer is taken as it comes.
fn binary_op<F: FloatOps>(
    interp: &mut IrInterpreter<'_, F>,
    op: IrBinaryOp,
    span: Span,
    rhs: Span,
    a: IrValue,
    b: IrValue,
) -> (r: Result<IrValue, IrEvalOutcome>)
    ensures
        yields(binary(op, span, rhs, a@, b@, old(interp)@), r, final(interp)@),
        settled(old(interp)@, final(interp)@),
{
    match (a, b) {
        (IrValue::Integer(a), IrValue::Integer(b)) => match integer_op(op, span, rhs, &a, &b) {
            Ok(value) => Ok(value),
            Err(error) => Err(IrEvalOutcome::Error(error)),
        },
        (IrValue::Float(a), IrValue::Float(b)) => match op {
            IrBinaryOp::Add => Ok(IrValue::Float(interp.floats.arithmetic(op, a, b))),
            IrBinaryOp::Sub => Ok(IrValue::Float(interp.floats.arithmetic(op, a, b))),
            IrBinaryOp::Mul => Ok(IrValue::Float(interp.floats.arithmetic(op, a, b))),
            IrBinaryOp::Div => Ok(IrValue::Float(interp.floats.arithmetic(op, a, b))),
            IrBinaryOp::Lt => Ok(IrValue::Bool(compare(op, a, b))),
            IrBinaryOp::Lte => Ok(IrValue::Bool(compare(op, a, b))),
            IrBinaryOp::Eq => Ok(IrValue::Bool(compare(op, a, b))),
            IrBinaryOp::Gt => Ok(IrValue::Bool(compare(op, a, b))),
            IrBinaryOp::Gte => Ok(IrValue::Bool(compare(op, a, b))),
            _ => Err(IrEvalOutcome::NotConst(span)),
        },
        (IrValue::String(a), IrValue::String(b)) => match op {
            IrBinaryOp::Add => add_strings(interp, span, a, b),
            _ => Err(IrEvalOutcome::NotConst(span)),
        },
        _ => Err(IrEvalOutcome::NotConst(span)),
    }
}

/// Evaluates a compound assignment.
pub fn eval_ir_assign<F: FloatOps>(
    ir: &IrAssign,
    interp: &mut IrInterpreter<'_, F>,
    used: Used,
) -> (r: Result<IrValue, IrEvalOutcome>)
    ensures
        yields(eval_ir_assign_model(*ir, used, old(interp)@), r, final(interp)@),
        settled(old(interp)@, final(interp)@),
    decreases old(interp)@.budget, 3nat, 0nat,
{
    let value = match eval_ir(&ir.value, interp, used) {
        Ok(value) => value,
        Err(outcome) => {
            return Err(outcome);
        },
    };
    let ghost before = interp@;
    let ghost operand = value@;
    let r = interp.scopes.mut_target(
        &mut interp.heap,
        &ir.target,
        ir.op,
        ir.span,
        value,
        interp.floats,
    );
    proof {
        if target_mut(ir.target, ir.op, ir.span, operand, before.scopes, before.heap) is Host {
            let bits = choose|bits: u64|
                (interp.scopes@, interp.heap@) == #[trigger] target_store(
                    ir.target,
                    ValueV::Float(bits),
                    before.scopes,
                    before.heap,
                );
            assert(interp@ == float_stored(ir.target, bits, before));
        }
    }
    let result = match r {
        Ok(()) => Ok(IrValue::Unit),
        Err(error) => Err(IrEvalOutcome::Error(error)),
    };
    proof {
        let step = eval_ir_assign_model(*ir, used, old(interp)@);
        match step {
            Step::Stored(target, s) => {
                assert(exists|bits: u64| interp@ == #[trigger] float_stored(target, bits, s));
            },
            _ => {},
        }
        assert(yields(step, result, interp@));
    }
    result
}

/// Evaluates a binary operation: the left operand, the right operand, then
/// the operator.
pub fn eval_ir_binary<F: FloatOps>(
    ir: &IrBinary,
    interp: &mut IrInterpreter<'_, F>,
    used: Used,
) -> (r: Result<IrValue, IrEvalOutcome>)
    ensures
        yields(eval_ir_binary_model(*ir, used, old(interp)@), r, final(interp)@),
        settled(old(interp)@, final(interp)@),
    decreases old(interp)@.budget, 3nat, 0nat,
{
    let span = ir.span;
    let a = match eval_ir(&ir.lhs, interp, used) {
        Ok(value) => value,
        Err(outcome) => {
            return Err(outcome);
        },
    };
    let b = match eval_ir(&ir.rhs, interp, used) {
        Ok(value) => value,
        Err(outcome) => {
            return Err(outcome);
        },
    };
    binary_op(interp, ir.op, span, ir.rhs.span, a, b)
}

/// Evaluates one branch inside its scope: the body if the condition holds.
fn eval_branch<F: FloatOps>(
    condition: &IrCondition,
    body: &IrScope,
    interp: &mut IrInterpreter<'_, F>,
    used: Used,
) -> (r: Result<Option<IrValue>, IrEvalOutcome>)
    ensures
        yields_branch(branch_model(*condition, *body, used, old(interp)@), r, final(interp)@),
        settled(old(interp)@, final(interp)@),
    decreases old(interp)@.budget, 4nat, 0nat,
{
    let value = match eval_ir_condition(condition, interp, used) {
        Ok(value) => value,
        Err(outcome) => {
            return Err(outcome);
        },
    };
    let holds = match as_bool(condition.span(), value) {
        Ok(holds) => holds,
        Err(error) => {
            return Err(IrEvalOutcome::Error(error));
        },
    };
    if holds {
        match eval_block(body, interp, used) {
            Ok(value) => Ok(Some(value)),
            Err(outcome) => Err(outcome),
        }
    } else {
        Ok(None)
    }
}

/// Evaluates a chain of branches: the value of the first one whose
/// condition holds, else that of the default, else unit.
pub fn eval_ir_branches<F: FloatOps>(
    ir: &IrBranches,
    interp: &mut IrInterpreter<'_, F>,
    used: Used,
) -> (r: Result<IrValue, IrEvalOutcome>)
    ensures
        yields(eval_ir_branches_model(*ir, 0, used, old(interp)@), r, final(interp)@),
        settled(old(interp)@, final(interp)@),
    decreases old(interp)@.budget, 5nat, 0nat,
{
    let ghost start = interp@;
    let ghost whole = eval_ir_branches_model(*ir, 0, used, start);
    let mut i: usize = 0;
    while i < ir.branches.len()
        invariant
            i <= ir.branches.len(),
            settled(start, interp@),
            start == old(interp)@,
            whole == eval_ir_branches_model(*ir, 0, used, start),
            whole is Host || whole == eval_ir_branches_model(*ir, i as int, used, interp@),
        decreases ir.branches.len() - i,
    {
        let guard = interp.scopes.push();
        let ghost opened_state = interp@;
        let result = eval_branch(&ir.branches[i].0, &ir.branches[i].1, interp, used);
        proof {
            lemma_yields_branch_closed(
                branch_model(
                    ir.branches@[i as int].0,
                    ir.branches@[i as int].1,
                    used,
                    opened_state,
                ),
                result,
                interp@,
            );
        }
        match close_scope(interp, ir.branches[i].1.span, guard, result) {
            Err(outcome) => {
                return Err(outcome);
            },
            Ok(Some(output)) => {
                return Ok(output);
            },
            Ok(None) => {},
        }
        i += 1;
    }
    match &ir.default_branch {
        Some(branch) => eval_block(branch, interp, used),
        None => Ok(IrValue::Unit),
    }
}

/// Binds the parameters from `i` on to the arguments from `i` on in the
/// innermost scope.
fn bind_args<F: FloatOps>(
    interp: &mut IrInterpreter<'_, F>,
    params: &Vec<String>,
    args: &Vec<IrValue>,
    span: Span,
)
    requires
        params@.len() == args@.len(),
        old(interp)@.scopes.len() > 0,
        old(interp)@.scopes.last().locals == Seq::<(Seq<char>, ValueV)>::empty(),
    ensures
        final(interp)@ == (StateV {
            scopes: old(interp)@.scopes.drop_last().push(
                ScopeV {
                    kind: old(interp)@.scopes.last().kind,
                    locals: bound(params@, values_view(args@), 0, Seq::empty()),
                },
            ),
            ..old(interp)@
        }),
{
    let ghost start = interp@;
    let mut i: usize = 0;
    assert(interp@.scopes =~= start.scopes.drop_last().push(
        ScopeV { kind: start.scopes.last().kind, locals: Seq::empty() },
    ));
    while i < params.len()
        invariant
            i <= params.len(),
            params@.len() == args@.len(),
            start.scopes.len() > 0,
            interp@.scopes.len() == start.scopes.len(),
            interp@ == (StateV {
                scopes: start.scopes.drop_last().push(
                    ScopeV { kind: start.scopes.last().kind, locals: interp@.scopes.last().locals },
                ),
                ..start
            }),
            bound(params@, values_view(args@), 0, Seq::empty()) == bound(
                params@,
                values_view(args@),
                i as int,
                interp@.scopes.last().locals,
            ),
        decreases params.len() - i,
    {
        let ghost before = interp@.scopes;
        let _ = interp.scopes.decl(&params[i], args[i].clone(), span);
        assert(interp@.scopes =~= start.scopes.drop_last().push(
            ScopeV { kind: start.scopes.last().kind, locals: interp@.scopes.last().locals },
        ));
        i += 1;
    }
}

/// The error that an outcome becomes where a value is required.
pub fn into_error(outcome: IrEvalOutcome) -> (error: IrError)
    ensures
        error == outcome_error(outcome@),
{
    match outcome {
        IrEvalOutcome::Error(error) => error,
        IrEvalOutcome::NotConst(span) => IrError::new(span, IrErrorKind::NotConst),
        IrEvalOutcome::Break(span, _) => IrError::new(span, IrErrorKind::BreakOutsideOfLoop),
    }
}

/// Evaluates a call: the arguments from left to right, then the call.
pub fn eval_ir_call<F: FloatOps>(
    ir: &IrCall,
    interp: &mut IrInterpreter<'_, F>,
    used: Used,
) -> (r: Result<IrValue, IrEvalOutcome>)
    ensures
        yields(eval_ir_call_model(*ir, used, old(interp)@), r, final(interp)@),
        settled(old(interp)@, final(interp)@),
    decreases old(interp)@.budget, 2nat, 0nat,
{
    let args = match eval_items(&ir.args, interp, used) {
        Ok(args) => args,
        Err(outcome) => {
            return Err(outcome);
        },
    };
    interp.call_const_fn(ir.span, ir.target, args, used)
}

/// Evaluates a condition to a boolean value. A pattern that matches
/// declares its names in the innermost scope.
pub fn eval_ir_condition<F: FloatOps>(
    ir: &IrCondition,
    interp: &mut IrInterpreter<'_, F>,
    used: Used,
) -> (r: Result<IrValue, IrEvalOutcome>)
    ensures
        match condition_model(*ir, used, old(interp)@) {
            Step::Done(b, s) => r is Ok && r->Ok_0@ == ValueV::Bool(b) && final(interp)@ == s,
            Step::Raise(outcome, s) => r is Err && r->Err_0@ == outcome && final(interp)@ == s,
            _ => true,
        },
        r is Ok ==> r->Ok_0@ is Bool,
        settled(old(interp)@, final(interp)@),
        r is Ok ==> final(interp)@.budget < old(interp)@.budget,
    decreases old(interp)@.budget, 1nat, 0nat,
{
    match ir {
        IrCondition::Ir(ir) => {
            let value = match eval_ir(ir, interp, used) {
                Ok(value) => value,
                Err(outcome) => {
                    return Err(outcome);
                },
            };
            match as_bool(ir.span, value) {
                Ok(b) => Ok(IrValue::Bool(b)),
                Err(error) => Err(IrEvalOutcome::Error(error)),
            }
        },
        IrCondition::Let(ir_let) => {
            let value = match eval_ir(&ir_let.ir, interp, used) {
                Ok(value) => value,
                Err(outcome) => {
                    return Err(outcome);
                },
            };
            match ir_let.pat.matches(interp, value, ir_let.span) {
                Ok(b) => Ok(IrValue::Bool(b)),
                Err(outcome) => Err(outcome),
            }
        },
    }
}

/// Evaluates a declaration: the value, then the binding in the innermost
/// scope.
pub fn eval_ir_decl<F: FloatOps>(
    ir: &IrDecl,
    interp: &mut IrInterpreter<'_, F>,
    used: Used,
) -> (r: Result<IrValue, IrEvalOutcome>)
    ensures
        yields(eval_ir_decl_model(*ir, used, old(interp)@), r, final(interp)@),
        settled(old(interp)@, final(interp)@),
    decreases old(interp)@.budget, 3nat, 0nat,
{
    let value = match eval_ir(&ir.value, interp, used) {
        Ok(value) => value,
        Err(outcome) => {
            return Err(outcome);
        },
    };
    match interp.scopes.decl(&ir.name, value, ir.span) {
        Ok(()) => Ok(IrValue::Unit),
        Err(error) => Err(IrEvalOutcome::Error(error)),
    }
}

/// Whether the next turn of a loop is taken.
fn eval_loop_condition<F: FloatOps>(
    ir: &IrLoop,
    interp: &mut IrInterpreter<'_, F>,
    used: Used,
) -> (r: Result<bool, IrEvalOutcome>)
    ensures
        match loop_condition_model(*ir, used, old(interp)@) {
            Step::Done(b, s) => r == Ok::<bool, IrEvalOutcome>(b) && final(interp)@ == s,
            Step::Raise(outcome, s) => r is Err && r->Err_0@ == outcome && final(interp)@ == s,
            _ => true,
        },
        settled(old(interp)@, final(interp)@),
    decreases old(interp)@.budget, 2nat, 0nat,
{
    match &ir.condition {
        None => Ok(true),
        Some(condition) => {
            match interp.scopes.clear_current(condition.span()) {
                Ok(()) => {},
                Err(error) => {
                    return Err(IrEvalOutcome::Error(error));
                },
            }
            let value = match eval_ir_condition(condition, interp, used) {
                Ok(value) => value,
                Err(outcome) => {
                    return Err(outcome);
                },
            };
            match as_bool(condition.span(), value) {
                Ok(b) => Ok(b),
                Err(error) => Err(IrEvalOutcome::Error(error)),
            }
        },
    }
}

/// How a loop answers a break that its body raised.
fn catch_break<F: FloatOps>(
    ir: &IrLoop,
    interp: &IrInterpreter<'_, F>,
    span: Span,
    b: IrEvalBreak,
) -> (r: Result<IrValue, IrEvalOutcome>)
    ensures
        yields(caught(*ir, span, b@, interp@), r, interp@),
{
    match b {
        IrEvalBreak::Inherent => Ok(IrValue::Unit),
        IrEvalBreak::Label(l) => {
            let own = match &ir.label {
                Some(label) => *label == l,
                None => false,
            };
            if own {
                Ok(IrValue::Unit)
            } else {
                Err(IrEvalOutcome::Break(span, IrEvalBreak::Label(l)))
            }
        },
        IrEvalBreak::Value(value) => {
            if ir.condition.is_none() {
                Ok(value)
            } else {
                Err(IrEvalOutcome::Error(IrError::new(span, IrErrorKind::BreakWithValue)))
            }
        },
    }
}

/// Takes the turns of a loop inside its scope.
fn eval_loop_turns<F: FloatOps>(
    ir: &IrLoop,
    interp: &mut IrInterpreter<'_, F>,
    used: Used,
) -> (r: Result<IrValue, IrEvalOutcome>)
    ensures
        yields(loop_turns_model(*ir, used, old(interp)@), r, final(interp)@),
        settled(old(interp)@, final(interp)@),
    decreases old(interp)@.budget, 4nat, 0nat,
{
    let ghost start = interp@;
    let ghost whole = loop_turns_model(*ir, used, start);
    loop
        invariant
            settled(start, interp@),
            start == old(interp)@,
            whole == loop_turns_model(*ir, used, start),
            whole is Host || whole == loop_turns_model(*ir, used, interp@),
        decreases interp@.budget,
    {
        let ghost turn = interp@;
        match eval_loop_condition(ir, interp, used) {
            Ok(true) => {},
            Ok(false) => {
                return Ok(IrValue::Unit);
            },
            Err(outcome) => {
                return Err(outcome);
            },
        }
        match eval_block(&ir.body, interp, used) {
            Ok(_) => {},
            Err(outcome) => match outcome {
                IrEvalOutcome::Break(span, b) => {
                    return catch_break(ir, interp, span, b);
                },
                outcome => {
                    return Err(outcome);
                },
            },
        }
    }
}

/// Evaluates a loop: a scope is opened, the turns are taken, and the scope
/// is closed again however the loop ended.
pub fn eval_ir_loop<F: FloatOps>(
    ir: &IrLoop,
    interp: &mut IrInterpreter<'_, F>,
    used: Used,
) -> (r: Result<IrValue, IrEvalOutcome>)
    ensures
        yields(eval_ir_loop_model(*ir, used, old(interp)@), r, final(interp)@),
        settled(old(interp)@, final(interp)@),
    decreases old(interp)@.budget, 5nat, 0nat,
{
    let span = ir.span;
    let guard = interp.scopes.push();
    let ghost opened_state = interp@;
    let result = eval_loop_turns(ir, interp, used);
    proof {
        lemma_yields_closed(loop_turns_model(*ir, used, opened_state), result, interp@);
    }
    close_scope(interp, span, guard, result)
}

/// Evaluates a break: the outcome that carries its value if it has one,
/// else its label if it has one.
pub fn eval_ir_break<F: FloatOps>(
    ir: &IrBreak,
    interp: &mut IrInterpreter<'_, F>,
    used: Used,
) -> (r: Result<IrValue, IrEvalOutcome>)
    ensures
        yields(eval_ir_break_model(*ir, used, old(interp)@), r, final(interp)@),
        settled(old(interp)@, final(interp)@),
        r is Err,
    decreases old(interp)@.budget, 3nat, 0nat,
{
    let span = ir.span;
    match &ir.value {
        Some(value) => match eval_ir(value, interp, used) {
            Ok(value) => Err(IrEvalOutcome::Break(span, IrEvalBreak::Value(value))),
            Err(outcome) => Err(outcome),
        },
        None => match &ir.label {
            Some(label) => Err(IrEvalOutcome::Break(span, IrEvalBreak::Label(label.clone()))),
            None => Err(IrEvalOutcome::Break(span, IrEvalBreak::Inherent)),
        },
    }
}

/// Evaluates the fields of an object, one after the other.
fn eval_fields<F: FloatOps>(
    assignments: &Vec<(String, Ir)>,
    interp: &mut IrInterpreter<'_, F>,
    used: Used,
) -> (r: Result<Vec<(String, IrValue)>, IrEvalOutcome>)
    ensures
        match fields_model(assignments@, 0, Seq::empty(), used, old(interp)@) {
            Step::Done(entries, s) => r is Ok && entries_view(r->Ok_0@) == entries
                && final(interp)@ == s,
            Step::Raise(outcome, s) => r is Err && r->Err_0@ == outcome && final(interp)@ == s,
            _ => true,
        },
        settled(old(interp)@, final(interp)@),
    decreases old(interp)@.budget, 1nat, 0nat,
{
    let ghost start = interp@;
    let ghost whole = fields_model(assignments@, 0, Seq::empty(), used, start);
    let mut object: Vec<(String, IrValue)> = Vec::new();
    assert(entries_view(object@) =~= Seq::empty());
    let mut i: usize = 0;
    while i < assignments.len()
        invariant
            i <= assignments.len(),
            settled(start, interp@),
            start == old(interp)@,
            whole == fields_model(assignments@, 0, Seq::empty(), used, start),
            whole is Host || whole == fields_model(
                assignments@,
                i as int,
                entries_view(object@),
                used,
                interp@,
            ),
        decreases assignments.len() - i,
    {
        let value = match eval_ir(&assignments[i].1, interp, used) {
            Ok(value) => value,
            Err(outcome) => {
                return Err(outcome);
            },
        };
        insert(&mut object, assignments[i].0.clone(), value);
        i += 1;
    }
    Ok(object)
}

/// Evaluates an object: the values of its fields, in a new cell.
pub fn eval_ir_object<F: FloatOps>(
    ir: &IrObject,
    interp: &mut IrInterpreter<'_, F>,
    used: Used,
) -> (r: Result<IrValue, IrEvalOutcome>)
    ensures
        yields(eval_ir_object_model(*ir, used, old(interp)@), r, final(interp)@),
        settled(old(interp)@, final(interp)@),
    decreases old(interp)@.budget, 2nat, 0nat,
{
    let object = match eval_fields(&ir.assignments, interp, used) {
        Ok(object) => object,
        Err(outcome) => {
            return Err(outcome);
        },
    };
    Ok(IrValue::Object(share(interp, Payload::Object(object))))
}

/// Evaluates the instructions of a block, then its last expression.
fn eval_scope_body<F: FloatOps>(
    ir: &IrScope,
    interp: &mut IrInterpreter<'_, F>,
    used: Used,
) -> (r: Result<IrValue, IrEvalOutcome>)
    ensures
        yields(scope_body_model(*ir, used, old(interp)@), r, final(interp)@),
        settled(old(interp)@, final(interp)@),
    decreases old(interp)@.budget, 2nat, 0nat,
{
    let ghost start = interp@;
    let ghost whole = instructions_model(ir.instructions@, 0, used, start);
    let mut i: usize = 0;
    while i < ir.instructions.len()
        invariant
            i <= ir.instructions.len(),
            settled(start, interp@),
            start == old(interp)@,
            whole == instructions_model(ir.instructions@, 0, used, start),
            whole is Host || whole == instructions_model(ir.instructions@, i as int, used, interp@),
        decreases ir.instructions.len() - i,
    {
        match eval_ir(&ir.instructions[i], interp, used) {
            Ok(_) => {},
            Err(outcome) => {
                return Err(outcome);
            },
        }
        i += 1;
    }
    match &ir.last {
        Some(last) => eval_ir(last, interp, used),
        None => Ok(IrValue::Unit),
    }
}

/// Evaluates a block: a scope is opened, the body is evaluated, and the
/// scope is closed again however the body ended.
pub fn eval_ir_scope<F: FloatOps>(
    ir: &IrScope,
    interp: &mut IrInterpreter<'_, F>,
    used: Used,
) -> (r: Result<IrValue, IrEvalOutcome>)
    ensures
        yields(eval_ir_scope_model(*ir, used, old(interp)@), r, final(interp)@),
        settled(old(interp)@, final(interp)@),
    decreases old(interp)@.budget, 3nat, 0nat,
{
    let guard = interp.scopes.push();
    let ghost opened_state = interp@;
    let result = eval_scope_body(ir, interp, used);
    proof {
        lemma_yields_closed(scope_body_model(*ir, used, opened_state), result, interp@);
    }
    close_scope(interp, ir.span, guard, result)
}

/// Evaluates a block that is a node of its own, as the body of a loop, the
/// body of a branch and a default branch are: pays for the visit, then
/// evaluates the block.
pub fn eval_block<F: FloatOps>(
    ir: &IrScope,
    interp: &mut IrInterpreter<'_, F>,
    used: Used,
) -> (r: Result<IrValue, IrEvalOutcome>)
    ensures
        yields(block_model(*ir, used, old(interp)@), r, final(interp)@),
        settled(old(interp)@, final(interp)@),
        old(interp)@.budget > 0 ==> final(interp)@.budget < old(interp)@.budget,
        old(interp)@.budget == 0 ==> r is Err && final(interp)@ == old(interp)@,
    decreases old(interp)@.budget, 3nat, 1nat,
{
    match charge(interp, ir.span) {
        Ok(()) => {},
        Err(outcome) => {
            return Err(outcome);
        },
    }
    eval_ir_scope(ir, interp, used)
}

/// Evaluates a write: the value, then the write to the target.
pub fn eval_ir_set<F: FloatOps>(
    ir: &IrSet,
    interp: &mut IrInterpreter<'_, F>,
    used: Used,
) -> (r: Result<IrValue, IrEvalOutcome>)
    ensures
        yields(eval_ir_set_model(*ir, used, old(interp)@), r, final(interp)@),
        settled(old(interp)@, final(interp)@),
    decreases old(interp)@.budget, 3nat, 0nat,
{
    let value = match eval_ir(&ir.value, interp, used) {
        Ok(value) => value,
        Err(outcome) => {
            return Err(outcome);
        },
    };
    proof {
        lemma_target_set_depth(ir.target, value@, interp@.scopes, interp@.heap);
    }
    match interp.scopes.set_target(&mut interp.heap, &ir.target, value) {
        Ok(()) => Ok(IrValue::Unit),
        Err(error) => Err(IrEvalOutcome::Error(error)),
    }
}

/// Evaluates the parts of a template into one text.
fn eval_template_parts<F: FloatOps>(
    components: &Vec<IrTemplateComponent>,
    interp: &mut IrInterpreter<'_, F>,
    used: Used,
) -> (r: Result<String, IrEvalOutcome>)
    ensures
        match template_parts_model(components@, 0, Some(Seq::empty()), used, old(interp)@) {
            Step::Done(text, s) => r is Ok && final(interp)@ == s && (text matches Some(t)
                ==> r->Ok_0@ == t),
            Step::Raise(outcome, s) => r is Err && r->Err_0@ == outcome && final(interp)@ == s,
            _ => true,
        },
        settled(old(interp)@, final(interp)@),
    decreases old(interp)@.budget, 1nat, 0nat,
{
    let ghost start = interp@;
    let ghost whole = template_parts_model(components@, 0, Some(Seq::empty()), used, start);
    let ghost mut text: Option<Seq<char>> = Some(Seq::empty());
    let mut buf = String::new();
    let mut i: usize = 0;
    while i < components.len()
        invariant
            i <= components.len(),
            settled(start, interp@),
            start == old(interp)@,
            whole == template_parts_model(components@, 0, Some(Seq::empty()), used, start),
            text matches Some(t) ==> buf@ == t,
            whole is Host || whole
                == template_parts_model(components@, i as int, text, used, interp@),
        decreases components.len() - i,
    {
        match &components[i] {
            IrTemplateComponent::String(string) => {
                buf.append(string.as_str());
                proof {
                    text = joined(text, string@);
                }
            },
            IrTemplateComponent::Ir(ir) => {
                let const_value = match eval_ir(ir, interp, used) {
                    Ok(value) => value,
                    Err(outcome) => {
                        return Err(outcome);
                    },
                };
                match const_value {
                    IrValue::Integer(integer) => {
                        buf.append(to_decimal(&integer).as_str());
                        proof {
                            text = joined(text, signed_decimal(int_value(integer)));
                        }
                    },
                    IrValue::Float(float) => {
                        buf.append(interp.floats.format(float).as_str());
                        proof {
                            text = None;
                        }
                    },
                    IrValue::Bool(b) => {
                        buf.append(if b { "true" } else { "false" });
                        proof {
                            text = joined(text, bool_text(b));
                        }
                    },
                    IrValue::String(s) => {
                        let s = match interp.heap.read_string(s) {
                            Ok(s) => s,
                            Err(error) => {
                                return Err(IrEvalOutcome::Error(IrError::access(ir.span, error)));
                            },
                        };
                        buf.append(s.as_str());
                        proof {
                            text = joined(text, s@);
                        }
                    },
                    _ => {
                        return Err(IrEvalOutcome::not_const(ir));
                    },
                }
            },
        }
        i += 1;
    }
    Ok(buf)
}

/// Evaluates a template: the text of its parts, in a new string cell.
pub fn eval_ir_template<F: FloatOps>(
    ir: &IrTemplate,
    interp: &mut IrInterpreter<'_, F>,
    used: Used,
) -> (r: Result<IrValue, IrEvalOutcome>)
    ensures
        yields(eval_ir_template_model(*ir, used, old(interp)@), r, final(interp)@),
        settled(old(interp)@, final(interp)@),
    decreases old(interp)@.budget, 3nat, 0nat,
{
    let buf = match eval_template_parts(&ir.components, interp, used) {
        Ok(buf) => buf,
        Err(outcome) => {
            return Err(outcome);
        },
    };
    let ghost before = interp@;
    let ghost text = buf@;
    let handle = share(interp, Payload::String(buf));
    assert(interp@ == text_shared(before, text));
    Ok(IrValue::String(handle))
}

/// Evaluates the nodes one after the other and collects their values.
fn eval_items<F: FloatOps>(
    items: &Vec<Ir>,
    interp: &mut IrInterpreter<'_, F>,
    used: Used,
) -> (r: Result<Vec<IrValue>, IrEvalOutcome>)
    ensures
        match items_model(items@, 0, Seq::empty(), used, old(interp)@) {
            Step::Done(values, s) => r is Ok && values_view(r->Ok_0@) == values && final(interp)@
                == s,
            Step::Raise(outcome, s) => r is Err && r->Err_0@ == outcome && final(interp)@ == s,
            _ => true,
        },
        settled(old(interp)@, final(interp)@),
    decreases old(interp)@.budget, 1nat, 0nat,
{
    let ghost start = interp@;
    let ghost whole = items_model(items@, 0, Seq::empty(), used, start);
    let mut values: Vec<IrValue> = Vec::with_capacity(items.len());
    assert(values_view(values@) =~= Seq::empty());
    let mut i: usize = 0;
    while i < items.len()
        invariant
            i <= items.len(),
            settled(start, interp@),
            start == old(interp)@,
            whole == items_model(items@, 0, Seq::empty(), used, start),
            whole is Host || whole == items_model(
                items@,
                i as int,
                values_view(values@),
                used,
                interp@,
            ),
        decreases items.len() - i,
    {
        let ghost before = values_view(values@);
        let value = match eval_ir(&items[i], interp, used) {
            Ok(value) => value,
            Err(outcome) => {
                return Err(outcome);
            },
        };
        values.push(value);
        assert(values_view(values@) =~= before.push(value@));
        i += 1;
    }
    Ok(values)
}

/// Evaluates a tuple: the values of its items, in a new cell.
pub fn eval_ir_tuple<F: FloatOps>(
    ir: &IrTuple,
    interp: &mut IrInterpreter<'_, F>,
    used: Used,
) -> (r: Result<IrValue, IrEvalOutcome>)
    ensures
        yields(eval_ir_tuple_model(*ir, used, old(interp)@), r, final(interp)@),
        settled(old(interp)@, final(interp)@),
    decreases old(interp)@.budget, 2nat, 0nat,
{
    let items = match eval_items(&ir.items, interp, used) {
        Ok(items) => items,
        Err(outcome) => {
            return Err(outcome);
        },
    };
    Ok(IrValue::Tuple(share(interp, Payload::Tuple(items))))
}

/// Evaluates a vector: the values of its items, in a new cell.
pub fn eval_ir_vec<F: FloatOps>(
    ir: &IrVec,
    interp: &mut IrInterpreter<'_, F>,
    used: Used,
) -> (r: Result<IrValue, IrEvalOutcome>)
    ensures
        yields(eval_ir_vec_model(*ir, used, old(interp)@), r, final(interp)@),
        settled(old(interp)@, final(interp)@),
    decreases old(interp)@.budget, 2nat, 0nat,
{
    let vec = match eval_items(&ir.items, interp, used) {
        Ok(vec) => vec,
        Err(outcome) => {
            return Err(outcome);
        },
    };
    Ok(IrValue::Vec(share(interp, Payload::Vec(vec))))
}

/// Evaluates a node.
///
/// One unit of the budget is paid for the node first, and the node takes no
/// more than that for itself: with nothing left of the budget the evaluation
/// fails and changes nothing; otherwise the budget is smaller afterwards by
/// that unit and by what the parts of the node take. Whatever the outcome,
/// the scope stack is as deep afterwards as it was before. Result and final
/// state are those of [`eval_ir_model`]; see [`yields`] for what that is where
/// the host was asked for float arithmetic or for the text of a float.
pub fn eval_ir<F: FloatOps>(ir: &Ir, interp: &mut IrInterpreter<'_, F>, used: Used) -> (r: Result<
    IrValue,
    IrEvalOutcome,
>)
    ensures
        yields(eval_ir_model(*ir, used, old(interp)@), r, final(interp)@),
        settled(old(interp)@, final(interp)@),
        old(interp)@.budget > 0 ==> final(interp)@.budget < old(interp)@.budget,
        old(interp)@.budget == 0 ==> r is Err && final(interp)@ == old(interp)@,
    decreases old(interp)@.budget, 0nat, 0nat,
{
    match charge(interp, ir.span) {
        Ok(()) => {},
        Err(outcome) => {
            return Err(outcome);
        },
    }
    match &ir.kind {
        IrKind::Scope(ir) => eval_ir_scope(ir, interp, used),
        IrKind::Binary(ir) => eval_ir_binary(ir, interp, used),
        IrKind::Decl(ir) => eval_ir_decl(ir, interp, used),
        IrKind::SetTarget(ir) => eval_ir_set(ir, interp, used),
        IrKind::Assign(ir) => eval_ir_assign(ir, interp, used),
        IrKind::Template(ir) => eval_ir_template(ir, interp, used),
        IrKind::Name(name) => match interp.scopes.get_name(name, ir.span) {
            Ok(value) => Ok(value),
            Err(error) => Err(IrEvalOutcome::Error(error)),
        },
        IrKind::Target(target) => match interp.scopes.get_target(&mut interp.heap, target) {
            Ok(value) => Ok(value),
            Err(error) => Err(IrEvalOutcome::Error(error)),
        },
        IrKind::Value(value) => Ok(value.clone()),
        IrKind::Branches(ir) => eval_ir_branches(ir, interp, used),
        IrKind::Loop(ir) => eval_ir_loop(ir, interp, used),
        IrKind::Break(ir) => eval_ir_break(ir, interp, used),
        IrKind::Vec(ir) => eval_ir_vec(ir, interp, used),
        IrKind::Tuple(ir) => eval_ir_tuple(ir, interp, used),
        IrKind::Object(ir) => eval_ir_object(ir, interp, used),
        IrKind::Call(ir) => eval_ir_call(ir, interp, used),
    }
}

impl<'a, F: FloatOps> IrInterpreter<'a, F> {
    /// Calls the constant function registered under `target`: its body is
    /// evaluated in an isolating scope that binds its parameters to `args`, and
    /// must give a value. A call made with `Used::Used` is recorded among the
    /// dependencies.
    pub fn call_const_fn(&mut self, span: Span, target: u64, args: Vec<IrValue>, used: Used) -> (r:
        Result<IrValue, IrEvalOutcome>)
        ensures
            yields(
                call_const_fn_model(span, target, values_view(args@), used, old(self)@),
                r,
                final(self)@,
            ),
            settled(old(self)@, final(self)@),
        decreases old(self)@.budget, 1nat, 0nat,
    {
        let query: &'a Query = self.query;
        let const_fn = match query.const_fn_for(target) {
            Some(const_fn) => const_fn,
            None => {
                return Err(IrEvalOutcome::NotConst(span));
            },
        };
        assert(values_view(args@).len() == args@.len());
        if const_fn.args.len() != args.len() {
            return Err(
                IrEvalOutcome::Error(
                    IrError::new(
                        span,
                        IrErrorKind::ArgumentCountMismatch {
                            actual: args.len(),
                            expected: const_fn.args.len(),
                        },
                    ),
                ),
            );
        }
        let ghost start = self@;
        let guard = self.scopes.isolate();
        assert(self@.scopes.drop_last() =~= start.scopes);
        bind_args(self, &const_fn.args, &args, span);
        if used == Used::Used {
            self.dependencies.push(target);
        }
        let ghost entered = self@;
        let result = match eval_ir(&const_fn.ir, self, used) {
            Ok(value) => Ok(value),
            Err(outcome) => Err(IrEvalOutcome::Error(into_error(outcome))),
        };
        proof {
            lemma_yields_closed(
                as_value(eval_ir_model(const_fn.ir, used, entered)),
                result,
                self@,
            );
        }
        close_scope(self, span, guard, result)
    }

    /// Evaluates a node to a value. An expression that is no constant, and
    /// a break that no loop caught, are errors here.
    pub fn eval_value(&mut self, ir: &Ir, used: Used) -> (r: Result<IrValue, IrError>)
        ensures
            match as_value(eval_ir_model(*ir, used, old(self)@)) {
                Step::Raise(outcome, s) => r is Err && OutcomeV::Error(r->Err_0) == outcome
                    && final(self)@ == s,
                Step::Done(value, s) => r is Ok && r->Ok_0@ == value && final(self)@ == s,
                Step::Float(s) => r is Ok && r->Ok_0@ is Float && final(self)@ == s,
                Step::Text(s) => r is Ok && r->Ok_0@ == ValueV::String(next_handle(s)) && exists|
                    text: Seq<char>,
                | final(self)@ == #[trigger] text_shared(s, text),
                _ => true,
            },
            settled(old(self)@, final(self)@),
    {
        match eval_ir(ir, self, used) {
            Ok(value) => Ok(value),
            Err(outcome) => Err(into_error(outcome)),
        }
    }
}

} // verus!
