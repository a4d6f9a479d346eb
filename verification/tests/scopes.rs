use num_bigint::BigInt;
use rune_ir::access::{AccessError, NotAccessibleMut, Snapshot};
use rune_ir::error::{IrError, IrErrorKind, IrEvalOutcome};
use rune_ir::eval::{as_bool, into_error};
use rune_ir::interpreter::{ConstFn, IrBudget, Query};
use rune_ir::ir::{Ir, IrKind};
use rune_ir::scopes::{insert, position, IrScopes, ScopeGuard, ScopeKind};
use rune_ir::span::{Span, Spanned};
use rune_ir::text::{decimal_string, digit_str};
use rune_ir::value::{IrValue, Shared, ValueKind};

fn number(value: &IrValue) -> BigInt {
    match value {
        IrValue::Integer(n) => n.clone(),
        other => panic!("expected an integer, got {:?}", other),
    }
}

fn key(name: &str) -> String {
    name.to_string()
}

#[test]
fn scopes_open_and_close_in_turn() {
    let mut scopes = IrScopes::new();
    assert_eq!(scopes.len(), 0);
    let outer = scopes.push();
    let inner = scopes.push();
    assert_eq!(outer.length, 0);
    assert_eq!(inner.length, 1);
    assert_eq!(scopes.len(), 2);
    assert_eq!(scopes.pop(Span::new(1, 2), inner), Ok(()));
    assert_eq!(scopes.pop(Span::new(1, 2), outer), Ok(()));
    assert_eq!(scopes.len(), 0);
}

#[test]
fn closing_out_of_turn_is_an_error() {
    let mut scopes = IrScopes::new();
    let outer = scopes.push();
    let _inner = scopes.push();
    let error = scopes.pop(Span::new(3, 4), outer).unwrap_err();
    assert_eq!(error, IrError { span: Span::new(3, 4), kind: IrErrorKind::ScopeMismatch });
    assert_eq!(error.to_string(), "scope length mismatch");
    assert_eq!(scopes.len(), 1);

    let mut scopes = IrScopes::new();
    let error = scopes.pop(Span::new(5, 6), ScopeGuard { length: 0 }).unwrap_err();
    assert_eq!(error, IrError { span: Span::new(5, 6), kind: IrErrorKind::MissingScope });
    assert_eq!(error.to_string(), "expected at least one scope");
    assert_eq!(error.span(), Span::new(5, 6));
}

#[test]
fn names_are_found_from_the_inside_out() {
    let at = Span::new(0, 1);
    let mut scopes = IrScopes::new();
    assert_eq!(
        scopes.decl(&key("x"), IrValue::integer(0), at).unwrap_err().kind,
        IrErrorKind::MissingScope
    );
    assert_eq!(scopes.clear_current(at).unwrap_err().kind, IrErrorKind::MissingScope);
    assert!(scopes.try_get(&key("x")).is_none());

    let outer = scopes.push();
    scopes.decl(&key("x"), IrValue::integer(1), at).unwrap();
    scopes.decl(&key("y"), IrValue::integer(2), at).unwrap();
    let inner = scopes.push();
    scopes.decl(&key("x"), IrValue::integer(10), at).unwrap();
    assert_eq!(number(&scopes.try_get(&key("x")).unwrap()), BigInt::from(10));
    assert_eq!(number(&scopes.get_name(&key("y"), at).unwrap()), BigInt::from(2));
    assert_eq!(scopes.get_name(&key("z"), at).unwrap_err().kind, IrErrorKind::MissingLocal);
    assert_eq!(scopes.get_name(&key("z"), at).unwrap_err().to_string(), "missing local");

    // A write goes to the binding that is seen.
    scopes.set_name(&key("x"), IrValue::integer(11), at).unwrap();
    scopes.set_name(&key("y"), IrValue::integer(3), at).unwrap();
    assert_eq!(
        scopes.set_name(&key("z"), IrValue::Unit, at).unwrap_err().kind,
        IrErrorKind::MissingLocal
    );
    assert_eq!(number(&scopes.try_get(&key("x")).unwrap()), BigInt::from(11));
    scopes.pop(at, inner).unwrap();
    assert_eq!(number(&scopes.try_get(&key("x")).unwrap()), BigInt::from(1));
    assert_eq!(number(&scopes.try_get(&key("y")).unwrap()), BigInt::from(3));

    // An isolating scope hides what is below it.
    let isolated = scopes.isolate();
    assert_eq!(scopes.scopes[1].kind, ScopeKind::Isolate);
    assert!(scopes.try_get(&key("x")).is_none());
    assert_eq!(
        scopes.set_name(&key("x"), IrValue::Unit, at).unwrap_err().kind,
        IrErrorKind::MissingLocal
    );
    let nested = scopes.push();
    assert!(scopes.try_get(&key("x")).is_none());
    scopes.pop(at, nested).unwrap();
    scopes.decl(&key("x"), IrValue::integer(5), at).unwrap();
    assert_eq!(number(&scopes.try_get(&key("x")).unwrap()), BigInt::from(5));
    scopes.clear_current(at).unwrap();
    assert!(scopes.try_get(&key("x")).is_none());
    scopes.pop(at, isolated).unwrap();
    assert_eq!(number(&scopes.try_get(&key("x")).unwrap()), BigInt::from(1));
    scopes.pop(at, outer).unwrap();
}

#[test]
fn entries_keep_their_place() {
    let mut entries: Vec<(String, IrValue)> = Vec::new();
    assert_eq!(position(&entries, &key("a")), None);
    insert(&mut entries, key("a"), IrValue::integer(1));
    insert(&mut entries, key("b"), IrValue::integer(2));
    insert(&mut entries, key("a"), IrValue::integer(3));
    assert_eq!(position(&entries, &key("a")), Some(0));
    assert_eq!(position(&entries, &key("b")), Some(1));
    assert_eq!(position(&entries, &key("c")), None);
    assert_eq!(entries.len(), 2);
    assert_eq!(number(&entries[0].1), BigInt::from(3));
}

#[test]
fn each_key_stands_once() {
    let distinct = |entries: &Vec<(String, IrValue)>| {
        (0..entries.len()).all(|i| (0..i).all(|j| entries[i].0 != entries[j].0))
    };
    let mut entries: Vec<(String, IrValue)> = Vec::new();
    for name in ["a", "b", "a", "c", "b", "a"] {
        insert(&mut entries, key(name), IrValue::Unit);
        assert!(distinct(&entries));
    }
    let names: Vec<&str> = entries.iter().map(|e| e.0.as_str()).collect();
    assert_eq!(names, vec!["a", "b", "c"]);

    let mut scopes = IrScopes::new();
    let guard = scopes.push();
    for name in ["x", "y", "x", "x", "z", "y"] {
        scopes.decl(&key(name), IrValue::Unit, Span::new(0, 1)).unwrap();
        assert!(distinct(&scopes.scopes[0].locals));
    }
    scopes.set_name(&key("y"), IrValue::Bool(true), Span::new(0, 1)).unwrap();
    assert!(distinct(&scopes.scopes[0].locals));
    assert_eq!(scopes.scopes[0].locals.len(), 3);
    scopes.pop(Span::new(0, 1), guard).unwrap();
}

#[test]
fn budget_is_taken_one_by_one() {
    let mut budget = IrBudget::new(2);
    assert_eq!(budget.take(Span::new(0, 1)), Ok(()));
    assert_eq!(budget.budget, 1);
    assert_eq!(budget.take(Span::new(0, 1)), Ok(()));
    assert_eq!(budget.budget, 0);
    assert_eq!(
        budget.take(Span::new(7, 8)),
        Err(IrError { span: Span::new(7, 8), kind: IrErrorKind::BudgetExceeded })
    );
    assert_eq!(budget.budget, 0);
}

#[test]
fn registry_finds_the_first_function_of_an_id() {
    let mut query = Query::new();
    assert!(query.const_fn_for(1).is_none());
    let body = |n: i64| Ir { span: Span::new(0, 1), kind: IrKind::Value(IrValue::integer(n)) };
    query.insert(ConstFn { id: 1, args: vec![], ir: body(10) });
    query.insert(ConstFn { id: 2, args: vec![key("a")], ir: body(20) });
    query.insert(ConstFn { id: 1, args: vec![], ir: body(30) });
    let found = query.const_fn_for(1).unwrap();
    assert!(matches!(&found.ir.kind, IrKind::Value(v) if number(v) == BigInt::from(10)));
    assert_eq!(query.const_fn_for(2).unwrap().args, vec![key("a")]);
    assert!(query.const_fn_for(3).is_none());
}

#[test]
fn values_and_their_kinds() {
    assert_eq!(IrValue::Unit.kind(), ValueKind::Unit);
    assert_eq!(IrValue::Bool(true).kind(), ValueKind::Bool);
    assert_eq!(IrValue::integer(1).kind(), ValueKind::Integer);
    assert_eq!(IrValue::Float(0).kind(), ValueKind::Float);
    assert_eq!(IrValue::String(Shared { index: 0 }).kind(), ValueKind::String);
    assert_eq!(IrValue::Vec(Shared { index: 0 }).kind(), ValueKind::Vec);
    assert_eq!(IrValue::Tuple(Shared { index: 0 }).kind(), ValueKind::Tuple);
    assert_eq!(IrValue::Object(Shared { index: 0 }).kind(), ValueKind::Object);
    assert_eq!(ValueKind::Unit.as_str(), "unit");
    assert_eq!(ValueKind::Float.as_str(), "float");
    assert_eq!(Shared { index: 3 }.clone_handle(), Shared { index: 3 });
    assert_eq!(number(&IrValue::integer(-9).clone()), BigInt::from(-9));
    assert_eq!(number(&IrValue::integer(i64::MIN)), BigInt::from(i64::MIN));

    assert_eq!(IrValue::Bool(true).into_bool().ok(), Some(true));
    assert!(matches!(IrValue::Unit.into_bool(), Err(IrValue::Unit)));
    assert_eq!(as_bool(Span::new(0, 1), IrValue::Bool(false)), Ok(false));
    assert_eq!(
        as_bool(Span::new(2, 3), IrValue::Tuple(Shared { index: 0 })),
        Err(IrError {
            span: Span::new(2, 3),
            kind: IrErrorKind::Expected { expected: ValueKind::Bool, actual: ValueKind::Tuple }
        })
    );
}

#[test]
fn outcomes_become_errors() {
    let at = Span::new(4, 5);
    assert_eq!(
        into_error(IrEvalOutcome::NotConst(at)),
        IrError { span: at, kind: IrErrorKind::NotConst }
    );
    let error = IrError { span: at, kind: IrErrorKind::DivisionByZero };
    assert_eq!(into_error(IrEvalOutcome::Error(error)), error);
    assert!(matches!(IrEvalOutcome::from(error), IrEvalOutcome::Error(e) if e == error));
    assert!(matches!(IrEvalOutcome::not_const(&at), IrEvalOutcome::NotConst(s) if s == at));
    assert_eq!(IrError::new(at, IrErrorKind::NotConst).to_string(), "not a constant expression");
    assert_eq!(
        IrError::new(at, IrErrorKind::BreakOutsideOfLoop).to_string(),
        "break outside of loop"
    );
    assert_eq!(
        IrError::new(at, IrErrorKind::BadShiftOperand).to_string(),
        "cannot be converted to shift operand"
    );
    assert_eq!(
        IrError::new(at, IrErrorKind::BreakWithValue).to_string(),
        "break with value is not supported for conditional loops"
    );
    assert_eq!(IrError::new(at, IrErrorKind::UnsupportedOperands).to_string(), "unsupported operands");
    assert_eq!(IrError::new(at, IrErrorKind::MissingField).to_string(), "missing field");
    assert_eq!(
        IrError::new(at, IrErrorKind::MissingIndex { index: 12 }).to_string(),
        "missing index 12"
    );
    let access = AccessError::NotAccessibleMut { error: NotAccessibleMut(Snapshot(-1)) };
    assert_eq!(
        IrError::access(at, access).to_string(),
        "cannot write, value is shared by 1"
    );
    assert_eq!(
        IrError::expected(at, ValueKind::Object, &IrValue::Unit).to_string(),
        "expected `object` but got `unit`"
    );
}

#[test]
fn decimal_numerals() {
    assert_eq!(decimal_string(0), "0");
    assert_eq!(decimal_string(7), "7");
    assert_eq!(decimal_string(10), "10");
    assert_eq!(decimal_string(1234567890), "1234567890");
    assert_eq!(decimal_string(usize::MAX), usize::MAX.to_string());
    for d in 0..10 {
        assert_eq!(digit_str(d), d.to_string());
    }
}
