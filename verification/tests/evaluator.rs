use num_bigint::BigInt;
use rune_ir::access::{AccessError, NotAccessibleRef, Snapshot};
use rune_ir::error::{IrError, IrErrorKind, IrEvalBreak, IrEvalOutcome};
use rune_ir::eval::eval_ir;
use rune_ir::floats::{compare, FloatOps, NoFloats, NAN};
use rune_ir::interpreter::{ConstFn, IrInterpreter, Query, Used};
use rune_ir::ir::{
    Ir, IrAssign, IrAssignOp, IrBinary, IrBinaryOp, IrBranches, IrBreak, IrCall, IrCondition,
    IrDecl, IrKind, IrLet, IrLit, IrLoop, IrObject, IrPat, IrPatKind, IrScope, IrSet, IrTarget,
    IrTargetKind, IrTemplate, IrTemplateComponent, IrTuple, IrVec,
};
use rune_ir::span::Span;
use rune_ir::value::{IrValue, Payload, Shared, ValueKind};

struct Floats;

impl FloatOps for Floats {
    fn arithmetic(&self, op: IrBinaryOp, lhs: u64, rhs: u64) -> u64 {
        let a = f64::from_bits(lhs);
        let b = f64::from_bits(rhs);
        let c = match op {
            IrBinaryOp::Add => a + b,
            IrBinaryOp::Sub => a - b,
            IrBinaryOp::Mul => a * b,
            IrBinaryOp::Div => a / b,
            _ => f64::NAN,
        };
        c.to_bits()
    }

    fn format(&self, bits: u64) -> String {
        ryu::Buffer::new().format(f64::from_bits(bits)).to_string()
    }
}

fn sp(n: u32) -> Span {
    Span::new(n, n + 1)
}

fn node(n: u32, kind: IrKind) -> Ir {
    Ir { span: sp(n), kind }
}

fn number(n: i64) -> Ir {
    node(0, IrKind::Value(IrValue::integer(n)))
}

fn boolean(b: bool) -> Ir {
    node(0, IrKind::Value(IrValue::Bool(b)))
}

fn float(x: f64) -> Ir {
    node(0, IrKind::Value(IrValue::Float(x.to_bits())))
}

fn name(n: &str) -> Ir {
    node(0, IrKind::Name(n.to_string()))
}

fn binary(op: IrBinaryOp, lhs: Ir, rhs: Ir) -> Ir {
    node(
        7,
        IrKind::Binary(IrBinary { span: sp(7), op, lhs: Box::new(lhs), rhs: Box::new(rhs) }),
    )
}

fn decl(n: &str, value: Ir) -> Ir {
    node(
        3,
        IrKind::Decl(IrDecl { span: sp(3), name: n.to_string(), value: Box::new(value) }),
    )
}

fn scope(instructions: Vec<Ir>, last: Option<Ir>) -> IrScope {
    IrScope { span: sp(2), instructions, last: last.map(Box::new) }
}

fn block(instructions: Vec<Ir>, last: Option<Ir>) -> Ir {
    node(2, IrKind::Scope(scope(instructions, last)))
}

fn target_name(n: &str) -> IrTarget {
    IrTarget { span: sp(5), kind: IrTargetKind::Name(n.to_string()) }
}

fn target_index(inner: IrTarget, index: usize) -> IrTarget {
    IrTarget { span: sp(5), kind: IrTargetKind::Index(Box::new(inner), index) }
}

fn target_field(inner: IrTarget, field: &str) -> IrTarget {
    IrTarget { span: sp(5), kind: IrTargetKind::Field(Box::new(inner), field.to_string()) }
}

fn store(target: IrTarget, value: Ir) -> Ir {
    node(4, IrKind::SetTarget(IrSet { span: sp(4), target, value: Box::new(value) }))
}

fn assign(target: IrTarget, op: IrAssignOp, value: Ir) -> Ir {
    node(4, IrKind::Assign(IrAssign { span: sp(4), target, value: Box::new(value), op }))
}

fn looping(label: Option<&str>, condition: Option<IrCondition>, body: IrScope) -> Ir {
    node(
        8,
        IrKind::Loop(IrLoop {
            span: sp(8),
            label: label.map(|l| l.to_string()),
            condition: condition.map(Box::new),
            body,
        }),
    )
}

fn breaking(label: Option<&str>, value: Option<Ir>) -> Ir {
    node(
        9,
        IrKind::Break(IrBreak {
            span: sp(9),
            label: label.map(|l| l.to_string()),
            value: value.map(Box::new),
        }),
    )
}

fn vector(items: Vec<Ir>) -> Ir {
    node(6, IrKind::Vec(IrVec { span: sp(6), items }))
}

fn tuple(items: Vec<Ir>) -> Ir {
    node(6, IrKind::Tuple(IrTuple { span: sp(6), items }))
}

fn object(assignments: Vec<(&str, Ir)>) -> Ir {
    node(
        6,
        IrKind::Object(IrObject {
            span: sp(6),
            assignments: assignments.into_iter().map(|(k, v)| (k.to_string(), v)).collect(),
        }),
    )
}

fn template(components: Vec<IrTemplateComponent>) -> Ir {
    node(10, IrKind::Template(IrTemplate { span: sp(10), components }))
}

fn branches(list: Vec<(IrCondition, IrScope)>, default_branch: Option<IrScope>) -> Ir {
    node(11, IrKind::Branches(IrBranches { branches: list, default_branch }))
}

fn as_int(value: &IrValue) -> BigInt {
    match value {
        IrValue::Integer(n) => n.clone(),
        other => panic!("expected an integer, got {:?}", other),
    }
}

fn string_of(interp: &mut IrInterpreter<'_, Floats>, value: &IrValue) -> String {
    match value {
        IrValue::String(h) => interp.heap.read_string(*h).unwrap(),
        other => panic!("expected a string, got {:?}", other),
    }
}

fn items_of(interp: &mut IrInterpreter<'_, Floats>, value: &IrValue) -> Vec<IrValue> {
    match value {
        IrValue::Vec(h) => interp.heap.read_items(*h, ValueKind::Vec).unwrap(),
        IrValue::Tuple(h) => interp.heap.read_items(*h, ValueKind::Tuple).unwrap(),
        other => panic!("expected a vector or tuple, got {:?}", other),
    }
}

fn entries_of(interp: &mut IrInterpreter<'_, Floats>, value: &IrValue) -> Vec<(String, IrValue)> {
    match value {
        IrValue::Object(h) => interp.heap.read_entries(*h).unwrap(),
        other => panic!("expected an object, got {:?}", other),
    }
}

fn error_of(r: Result<IrValue, IrEvalOutcome>) -> IrError {
    match r {
        Err(IrEvalOutcome::Error(error)) => error,
        other => panic!("expected an error, got {:?}", other),
    }
}

#[test]
fn adds_two_integers() {
    let query = Query::new();
    let mut interp = IrInterpreter::new(100, &query, &Floats);
    let ir = binary(IrBinaryOp::Add, number(2), number(3));
    let value = eval_ir(&ir, &mut interp, Used::Used).unwrap();
    assert_eq!(as_int(&value), BigInt::from(5));
}

#[test]
fn division_by_zero_is_an_error() {
    let query = Query::new();
    let mut interp = IrInterpreter::new(100, &query, &Floats);
    let ir = binary(IrBinaryOp::Div, number(1), number(0));
    let error = error_of(eval_ir(&ir, &mut interp, Used::Used));
    assert_eq!(error.kind, IrErrorKind::DivisionByZero);
    assert_eq!(error.span, sp(7));
    assert_eq!(error.to_string(), "division by zero");
}

#[test]
fn scope_yields_declared_name() {
    let query = Query::new();
    let mut interp = IrInterpreter::new(100, &query, &Floats);
    let ir = block(vec![decl("x", number(10))], Some(name("x")));
    let value = eval_ir(&ir, &mut interp, Used::Used).unwrap();
    assert_eq!(as_int(&value), BigInt::from(10));
    assert_eq!(interp.scopes.len(), 0);
}

#[test]
fn loop_with_false_condition_yields_unit() {
    let query = Query::new();
    let mut interp = IrInterpreter::new(100, &query, &Floats);
    let ir = looping(
        None,
        Some(IrCondition::Ir(boolean(false))),
        scope(vec![], Some(number(1))),
    );
    let value = eval_ir(&ir, &mut interp, Used::Used).unwrap();
    assert!(matches!(value, IrValue::Unit));
    assert_eq!(interp.scopes.len(), 0);
}

#[test]
fn labelled_break_with_value_leaves_the_loop() {
    let query = Query::new();
    let mut interp = IrInterpreter::new(100, &query, &Floats);
    let ir = looping(
        Some("outer"),
        None,
        scope(vec![], Some(breaking(Some("outer"), Some(number(7))))),
    );
    let value = eval_ir(&ir, &mut interp, Used::Used).unwrap();
    assert_eq!(as_int(&value), BigInt::from(7));
    assert_eq!(interp.scopes.len(), 0);
}

#[test]
fn template_renders_integer() {
    let query = Query::new();
    let mut interp = IrInterpreter::new(100, &query, &Floats);
    let ir = template(vec![
        IrTemplateComponent::String("x=".to_string()),
        IrTemplateComponent::Ir(number(42)),
    ]);
    let value = eval_ir(&ir, &mut interp, Used::Used).unwrap();
    assert_eq!(string_of(&mut interp, &value), "x=42");
}

#[test]
fn adds_two_strings() {
    let query = Query::new();
    let mut interp = IrInterpreter::new(100, &query, &Floats);
    let a = interp.heap.share(Payload::String("a".to_string()));
    let b = interp.heap.share(Payload::String("b".to_string()));
    let ir = binary(
        IrBinaryOp::Add,
        node(0, IrKind::Value(IrValue::String(a))),
        node(0, IrKind::Value(IrValue::String(b))),
    );
    let value = eval_ir(&ir, &mut interp, Used::Used).unwrap();
    assert_eq!(string_of(&mut interp, &value), "ab");
    assert_eq!(string_of(&mut interp, &IrValue::String(a)), "a");
    assert_eq!(string_of(&mut interp, &IrValue::String(b)), "b");
    assert_eq!(interp.heap.snapshot(a), Some(Snapshot(0)));
}

#[test]
fn branches_fall_through_to_default() {
    let query = Query::new();
    let mut interp = IrInterpreter::new(100, &query, &Floats);
    let ir = branches(
        vec![(IrCondition::Ir(boolean(false)), scope(vec![], Some(number(1))))],
        Some(scope(vec![], Some(number(9)))),
    );
    let value = eval_ir(&ir, &mut interp, Used::Used).unwrap();
    assert_eq!(as_int(&value), BigInt::from(9));
    assert_eq!(interp.scopes.len(), 0);
}

#[test]
fn value_evaluates_to_itself() {
    let query = Query::new();
    let mut interp = IrInterpreter::new(100, &query, &Floats);
    assert_eq!(as_int(&eval_ir(&number(-12), &mut interp, Used::Used).unwrap()), BigInt::from(-12));
    assert!(matches!(
        eval_ir(&boolean(true), &mut interp, Used::Used).unwrap(),
        IrValue::Bool(true)
    ));
    let unit = node(0, IrKind::Value(IrValue::Unit));
    assert!(matches!(eval_ir(&unit, &mut interp, Used::Used).unwrap(), IrValue::Unit));
    match eval_ir(&float(1.5), &mut interp, Used::Used).unwrap() {
        IrValue::Float(bits) => assert_eq!(f64::from_bits(bits), 1.5),
        other => panic!("expected a float, got {:?}", other),
    }
}

#[test]
fn scope_with_only_last_is_its_last() {
    let query = Query::new();
    let mut interp = IrInterpreter::new(100, &query, &Floats);
    let e = binary(IrBinaryOp::Mul, number(6), number(7));
    let plain = eval_ir(&e, &mut interp, Used::Used).unwrap();
    let e = binary(IrBinaryOp::Mul, number(6), number(7));
    let scoped = eval_ir(&block(vec![], Some(e)), &mut interp, Used::Used).unwrap();
    assert_eq!(as_int(&plain), as_int(&scoped));
}

#[test]
fn vec_evaluates_item_by_item() {
    let query = Query::new();
    let mut interp = IrInterpreter::new(100, &query, &Floats);
    let ir = vector(vec![
        number(1),
        binary(IrBinaryOp::Add, number(1), number(1)),
        binary(IrBinaryOp::Sub, number(5), number(2)),
    ]);
    let value = eval_ir(&ir, &mut interp, Used::Used).unwrap();
    assert!(matches!(value, IrValue::Vec(_)));
    let items: Vec<BigInt> = items_of(&mut interp, &value).iter().map(as_int).collect();
    assert_eq!(items, vec![BigInt::from(1), BigInt::from(2), BigInt::from(3)]);
}

#[test]
fn shift_amount_boundary() {
    let query = Query::new();
    let mut interp = IrInterpreter::new(100, &query, &Floats);
    let most = node(0, IrKind::Value(IrValue::Integer(BigInt::from(u32::MAX))));
    let ir = binary(IrBinaryOp::Shr, number(1), most);
    assert_eq!(as_int(&eval_ir(&ir, &mut interp, Used::Used).unwrap()), BigInt::from(0));
    let most = node(0, IrKind::Value(IrValue::Integer(BigInt::from(u32::MAX))));
    let ir = binary(IrBinaryOp::Shl, number(0), most);
    assert_eq!(as_int(&eval_ir(&ir, &mut interp, Used::Used).unwrap()), BigInt::from(0));
    let too_much = Ir {
        span: sp(21),
        kind: IrKind::Value(IrValue::Integer(BigInt::from(u32::MAX) + 1)),
    };
    let ir = binary(IrBinaryOp::Shl, number(1), too_much);
    let error = error_of(eval_ir(&ir, &mut interp, Used::Used));
    assert_eq!(error.kind, IrErrorKind::BadShiftOperand);
    assert_eq!(error.span, sp(21));
    let negative = binary(IrBinaryOp::Shr, number(1), number(-1));
    assert_eq!(
        error_of(eval_ir(&negative, &mut interp, Used::Used)).kind,
        IrErrorKind::BadShiftOperand
    );
}

#[test]
fn integer_operators() {
    let query = Query::new();
    let mut interp = IrInterpreter::new(1000, &query, &Floats);
    let cases: Vec<(IrBinaryOp, i64, i64, i64)> = vec![
        (IrBinaryOp::Add, 7, -9, -2),
        (IrBinaryOp::Sub, 7, 9, -2),
        (IrBinaryOp::Mul, -7, 9, -63),
        (IrBinaryOp::Div, 7, 2, 3),
        (IrBinaryOp::Div, -7, 2, -3),
        (IrBinaryOp::Div, 7, -2, -3),
        (IrBinaryOp::Div, -7, -2, 3),
        (IrBinaryOp::Shl, 3, 4, 48),
        (IrBinaryOp::Shl, -3, 4, -48),
        (IrBinaryOp::Shr, 48, 4, 3),
        (IrBinaryOp::Shr, -5, 1, -3),
        (IrBinaryOp::Shr, -1, 10, -1),
    ];
    for (op, a, b, expected) in cases {
        let value = eval_ir(&binary(op, number(a), number(b)), &mut interp, Used::Used).unwrap();
        assert_eq!(as_int(&value), BigInt::from(expected));
    }
    let comparisons: Vec<(IrBinaryOp, i64, i64, bool)> = vec![
        (IrBinaryOp::Lt, 1, 2, true),
        (IrBinaryOp::Lt, 2, 2, false),
        (IrBinaryOp::Lte, 2, 2, true),
        (IrBinaryOp::Lte, 3, 2, false),
        (IrBinaryOp::Eq, 2, 2, true),
        (IrBinaryOp::Eq, -2, 2, false),
        (IrBinaryOp::Gt, 3, 2, true),
        (IrBinaryOp::Gt, 2, 2, false),
        (IrBinaryOp::Gte, 2, 2, true),
        (IrBinaryOp::Gte, 1, 2, false),
    ];
    for (op, a, b, expected) in comparisons {
        let value = eval_ir(&binary(op, number(a), number(b)), &mut interp, Used::Used).unwrap();
        assert!(matches!(value, IrValue::Bool(b) if b == expected));
    }
}

#[test]
fn integers_are_not_bounded() {
    let query = Query::new();
    let mut interp = IrInterpreter::new(100, &query, &Floats);
    let ir = binary(IrBinaryOp::Mul, number(i64::MAX), number(i64::MAX));
    let value = eval_ir(&ir, &mut interp, Used::Used).unwrap();
    assert_eq!(as_int(&value), BigInt::from(i64::MAX) * BigInt::from(i64::MAX));
    let ir = binary(IrBinaryOp::Shl, number(1), number(100));
    let value = eval_ir(&ir, &mut interp, Used::Used).unwrap();
    assert_eq!(as_int(&value).to_string(), "1267650600228229401496703205376");
}

#[test]
fn mixed_operands_are_not_const() {
    let query = Query::new();
    let mut interp = IrInterpreter::new(100, &query, &Floats);
    let ir = binary(IrBinaryOp::Add, number(1), boolean(true));
    match eval_ir(&ir, &mut interp, Used::Used) {
        Err(IrEvalOutcome::NotConst(span)) => assert_eq!(span, sp(7)),
        other => panic!("expected not-const, got {:?}", other),
    }
    let ir = binary(IrBinaryOp::Add, number(1), float(1.0));
    assert!(matches!(eval_ir(&ir, &mut interp, Used::Used), Err(IrEvalOutcome::NotConst(_))));
    let ir = binary(IrBinaryOp::Shl, float(1.0), float(1.0));
    assert!(matches!(eval_ir(&ir, &mut interp, Used::Used), Err(IrEvalOutcome::NotConst(_))));
    let a = interp.heap.share(Payload::String("a".to_string()));
    let ir = binary(
        IrBinaryOp::Sub,
        node(0, IrKind::Value(IrValue::String(a))),
        node(0, IrKind::Value(IrValue::String(a))),
    );
    assert!(matches!(eval_ir(&ir, &mut interp, Used::Used), Err(IrEvalOutcome::NotConst(_))));
}

#[test]
fn float_operators_go_to_the_host() {
    let query = Query::new();
    let mut interp = IrInterpreter::new(100, &query, &Floats);
    let ir = binary(IrBinaryOp::Add, float(1.5), float(2.25));
    match eval_ir(&ir, &mut interp, Used::Used).unwrap() {
        IrValue::Float(bits) => assert_eq!(f64::from_bits(bits), 3.75),
        other => panic!("expected a float, got {:?}", other),
    }
    let ir = binary(IrBinaryOp::Lt, float(1.5), float(2.25));
    assert!(matches!(eval_ir(&ir, &mut interp, Used::Used).unwrap(), IrValue::Bool(true)));
    let ir = binary(IrBinaryOp::Eq, float(f64::NAN), float(f64::NAN));
    assert!(matches!(eval_ir(&ir, &mut interp, Used::Used).unwrap(), IrValue::Bool(false)));
    let ir = template(vec![IrTemplateComponent::Ir(float(0.1))]);
    let value = eval_ir(&ir, &mut interp, Used::Used).unwrap();
    assert_eq!(string_of(&mut interp, &value), "0.1");
}

#[test]
fn float_comparison_is_that_of_the_machine() {
    let samples: Vec<f64> = vec![
        0.0,
        -0.0,
        1.0,
        -1.0,
        1.5,
        -1.5,
        f64::MIN_POSITIVE,
        -f64::MIN_POSITIVE,
        5e-324,
        -5e-324,
        f64::MAX,
        f64::MIN,
        f64::INFINITY,
        f64::NEG_INFINITY,
        f64::NAN,
        -f64::NAN,
        f64::from_bits(0x7ff0_0000_0000_0001),
        f64::from_bits(0xfff8_0000_0000_0000),
        1e300,
        -1e-300,
        2.0,
        3.0,
    ];
    for &a in &samples {
        for &b in &samples {
            let (x, y) = (a.to_bits(), b.to_bits());
            assert_eq!(compare(IrBinaryOp::Lt, x, y), a < b, "{} < {}", a, b);
            assert_eq!(compare(IrBinaryOp::Lte, x, y), a <= b, "{} <= {}", a, b);
            assert_eq!(compare(IrBinaryOp::Eq, x, y), a == b, "{} == {}", a, b);
            assert_eq!(compare(IrBinaryOp::Gt, x, y), a > b, "{} > {}", a, b);
            assert_eq!(compare(IrBinaryOp::Gte, x, y), a >= b, "{} >= {}", a, b);
            assert!(!compare(IrBinaryOp::Add, x, y));
        }
    }
}

#[test]
fn float_results_leave_the_rest_exact() {
    let query = Query::new();
    let mut interp = IrInterpreter::new(100, &query, &Floats);
    // A float sum as a statement: its value is dropped, what follows is
    // evaluated as ever.
    let ir = block(
        vec![decl("x", number(4)), binary(IrBinaryOp::Mul, float(1.5), float(2.0))],
        Some(binary(IrBinaryOp::Add, name("x"), number(1))),
    );
    let value = eval_ir(&ir, &mut interp, Used::Used).unwrap();
    assert_eq!(as_int(&value), BigInt::from(5));
    assert_eq!(interp.budget.budget, 100 - 9);
    assert_eq!(interp.heap.len(), 0);

    // A float among the parts of a template: one new string cell.
    let before = interp.heap.len();
    let ir = template(vec![
        IrTemplateComponent::String("pi=".to_string()),
        IrTemplateComponent::Ir(float(3.25)),
        IrTemplateComponent::Ir(number(7)),
    ]);
    let value = eval_ir(&ir, &mut interp, Used::Used).unwrap();
    assert!(matches!(value, IrValue::String(h) if h.index == before));
    assert_eq!(interp.heap.len(), before + 1);
    assert_eq!(string_of(&mut interp, &value), "pi=3.257");

    // A compound assignment of floats changes the target alone.
    let ir = block(
        vec![
            decl("a", float(1.0)),
            decl("b", number(2)),
            assign(target_name("a"), IrAssignOp::Add, float(0.5)),
        ],
        Some(tuple(vec![name("a"), name("b")])),
    );
    let value = eval_ir(&ir, &mut interp, Used::Used).unwrap();
    let items = items_of(&mut interp, &value);
    assert!(matches!(items[0], IrValue::Float(bits) if f64::from_bits(bits) == 1.5));
    assert_eq!(as_int(&items[1]), BigInt::from(2));
    let ir = block(
        vec![decl("a", float(1.0))],
        Some(assign(target_name("a"), IrAssignOp::Shl, float(0.5))),
    );
    assert_eq!(
        error_of(eval_ir(&ir, &mut interp, Used::Used)).kind,
        IrErrorKind::UnsupportedOperands
    );
}

#[test]
fn host_without_floats() {
    let query = Query::new();
    let mut interp = IrInterpreter::new(100, &query, &NoFloats);
    let ir = binary(IrBinaryOp::Add, number(2), number(3));
    assert_eq!(as_int(&eval_ir(&ir, &mut interp, Used::Used).unwrap()), BigInt::from(5));
    let ir = binary(IrBinaryOp::Add, float(1.0), float(2.0));
    match eval_ir(&ir, &mut interp, Used::Used).unwrap() {
        IrValue::Float(bits) => {
            assert_eq!(bits, NAN);
            assert!(f64::from_bits(bits).is_nan());
        }
        other => panic!("expected a float, got {:?}", other),
    }
    // Comparison is decided in the library, whatever the host.
    let ir = binary(IrBinaryOp::Lt, float(1.0), float(2.0));
    assert!(matches!(eval_ir(&ir, &mut interp, Used::Used).unwrap(), IrValue::Bool(true)));
    let ir = template(vec![IrTemplateComponent::Ir(float(1.0))]);
    let value = eval_ir(&ir, &mut interp, Used::Used).unwrap();
    match value {
        IrValue::String(h) => assert_eq!(interp.heap.read_string(h).unwrap(), "NaN"),
        other => panic!("expected a string, got {:?}", other),
    }
}

#[test]
fn empty_containers_and_template() {
    let query = Query::new();
    let mut interp = IrInterpreter::new(100, &query, &Floats);
    let value = eval_ir(&vector(vec![]), &mut interp, Used::Used).unwrap();
    assert!(matches!(value, IrValue::Vec(_)));
    assert_eq!(items_of(&mut interp, &value).len(), 0);
    let value = eval_ir(&tuple(vec![]), &mut interp, Used::Used).unwrap();
    assert!(matches!(value, IrValue::Tuple(_)));
    assert_eq!(items_of(&mut interp, &value).len(), 0);
    let value = eval_ir(&object(vec![]), &mut interp, Used::Used).unwrap();
    assert!(entries_of(&mut interp, &value).is_empty());
    let value = eval_ir(&template(vec![]), &mut interp, Used::Used).unwrap();
    assert_eq!(string_of(&mut interp, &value), "");
}

#[test]
fn template_renders_bool_string_and_rejects_containers() {
    let query = Query::new();
    let mut interp = IrInterpreter::new(100, &query, &Floats);
    let s = interp.heap.share(Payload::String("mid".to_string()));
    let ir = template(vec![
        IrTemplateComponent::Ir(boolean(true)),
        IrTemplateComponent::String("-".to_string()),
        IrTemplateComponent::Ir(node(0, IrKind::Value(IrValue::String(s)))),
        IrTemplateComponent::Ir(number(-5)),
        IrTemplateComponent::Ir(boolean(false)),
    ]);
    let value = eval_ir(&ir, &mut interp, Used::Used).unwrap();
    assert_eq!(string_of(&mut interp, &value), "true-mid-5false");
    let ir = template(vec![IrTemplateComponent::Ir(Ir { span: sp(33), kind: IrKind::Vec(IrVec { span: sp(6), items: vec![] }) })]);
    match eval_ir(&ir, &mut interp, Used::Used) {
        Err(IrEvalOutcome::NotConst(span)) => assert_eq!(span, sp(33)),
        other => panic!("expected not-const, got {:?}", other),
    }
}

#[test]
fn budget_is_charged_and_exhausted() {
    let query = Query::new();
    // One unit for each of the three nodes: the sum and its two operands.
    let mut interp = IrInterpreter::new(3, &query, &Floats);
    let ir = binary(IrBinaryOp::Add, number(2), number(3));
    let value = eval_ir(&ir, &mut interp, Used::Used).unwrap();
    assert_eq!(as_int(&value), BigInt::from(5));
    assert_eq!(interp.budget.budget, 0);
    let error = error_of(eval_ir(&number(1), &mut interp, Used::Used));
    assert_eq!(error.kind, IrErrorKind::BudgetExceeded);
    assert_eq!(error.to_string(), "budget exceeded");
    assert_eq!(interp.budget.budget, 0);

    // With two units the right operand cannot be paid for.
    let mut interp = IrInterpreter::new(2, &query, &Floats);
    let rhs = Ir { span: sp(30), kind: IrKind::Value(IrValue::integer(3)) };
    let ir = binary(IrBinaryOp::Add, number(2), rhs);
    let error = error_of(eval_ir(&ir, &mut interp, Used::Used));
    assert_eq!(error.kind, IrErrorKind::BudgetExceeded);
    assert_eq!(error.span, sp(30));
    assert_eq!(interp.budget.budget, 0);

    let mut interp = IrInterpreter::new(10, &query, &Floats);
    assert!(eval_ir(&number(1), &mut interp, Used::Used).is_ok());
    assert_eq!(interp.budget.budget, 9);
}

#[test]
fn every_visited_node_takes_one_unit() {
    let query = Query::new();
    let spent = |ir: Ir| {
        let mut interp = IrInterpreter::new(1000, &query, &Floats);
        eval_ir(&ir, &mut interp, Used::Used).unwrap();
        1000 - interp.budget.budget
    };
    // Leaves.
    assert_eq!(spent(number(1)), 1);
    assert_eq!(spent(vector(vec![])), 1);
    assert_eq!(spent(template(vec![IrTemplateComponent::String("a".to_string())])), 1);
    assert_eq!(spent(branches(vec![], None)), 1);
    // A node and its parts.
    assert_eq!(spent(block(vec![], None)), 1);
    assert_eq!(spent(block(vec![decl("x", number(1))], Some(name("x")))), 4);
    assert_eq!(spent(vector(vec![number(1), number(2), number(3)])), 4);
    assert_eq!(spent(template(vec![IrTemplateComponent::Ir(number(1))])), 2);
    assert_eq!(
        spent(block(vec![decl("x", number(1))], Some(store(target_name("x"), number(2))))),
        5
    );
    assert_eq!(
        spent(block(
            vec![decl("x", number(1))],
            Some(assign(target_name("x"), IrAssignOp::Add, number(2)))
        )),
        5
    );
    // A block that stands without a node around it is a node of its own:
    // the branches, the condition, and the default block.
    assert_eq!(
        spent(branches(
            vec![(IrCondition::Ir(boolean(false)), scope(vec![], Some(number(1))))],
            Some(scope(vec![], Some(number(9)))),
        )),
        4
    );
    // The loop, its condition, the body block and the break in it.
    assert_eq!(
        spent(looping(
            None,
            Some(IrCondition::Ir(boolean(true))),
            scope(vec![breaking(None, None)], None)
        )),
        4
    );
    // A loop whose condition holds once and fails the second time.
    let ir = block(
        vec![
            decl("n", number(0)),
            looping(
                None,
                Some(IrCondition::Ir(binary(IrBinaryOp::Lt, name("n"), number(1)))),
                scope(vec![assign(target_name("n"), IrAssignOp::Add, number(1))], None),
            ),
        ],
        None,
    );
    // block 1, decl 2, loop 1, condition 3 twice, body block and assign 3 once.
    assert_eq!(spent(ir), 1 + 2 + 1 + 3 + 3 + 3);
}

#[test]
fn endless_loop_runs_out_of_budget() {
    let query = Query::new();
    let mut interp = IrInterpreter::new(1000, &query, &Floats);
    let ir = looping(None, None, scope(vec![], None));
    let error = error_of(eval_ir(&ir, &mut interp, Used::Used));
    assert_eq!(error.kind, IrErrorKind::BudgetExceeded);
    assert_eq!(interp.scopes.len(), 0);
    assert_eq!(interp.budget.budget, 0);
}

#[test]
fn evaluation_is_deterministic() {
    let query = Query::new();
    let build = || {
        block(
            vec![
                decl("x", number(1)),
                looping(
                    None,
                    Some(IrCondition::Ir(binary(IrBinaryOp::Lt, name("x"), number(100)))),
                    scope(vec![assign(target_name("x"), IrAssignOp::Mul, number(3))], None),
                ),
            ],
            Some(name("x")),
        )
    };
    let mut first = IrInterpreter::new(10_000, &query, &Floats);
    let mut second = IrInterpreter::new(10_000, &query, &Floats);
    let a = eval_ir(&build(), &mut first, Used::Used).unwrap();
    let b = eval_ir(&build(), &mut second, Used::Used).unwrap();
    assert_eq!(as_int(&a), BigInt::from(243));
    assert_eq!(as_int(&a), as_int(&b));
    assert_eq!(first.budget.budget, second.budget.budget);
}

#[test]
fn break_with_label_leaves_the_matching_loop() {
    let query = Query::new();
    let mut interp = IrInterpreter::new(1000, &query, &Floats);
    // 'outer: loop { loop { break 'outer } }; after the loops, x is still 1.
    let inner = looping(None, None, scope(vec![breaking(Some("outer"), None)], None));
    let outer = looping(
        Some("outer"),
        None,
        scope(vec![inner, store(target_name("x"), number(2))], None),
    );
    let ir = block(vec![decl("x", number(1)), outer], Some(name("x")));
    let value = eval_ir(&ir, &mut interp, Used::Used).unwrap();
    assert_eq!(as_int(&value), BigInt::from(1));
    assert_eq!(interp.scopes.len(), 0);
}

#[test]
fn break_with_other_label_is_raised_again() {
    let query = Query::new();
    let mut interp = IrInterpreter::new(1000, &query, &Floats);
    let ir = looping(Some("a"), None, scope(vec![breaking(Some("b"), None)], None));
    match eval_ir(&ir, &mut interp, Used::Used) {
        Err(IrEvalOutcome::Break(span, IrEvalBreak::Label(l))) => {
            assert_eq!(span, sp(9));
            assert_eq!(l, "b");
        }
        other => panic!("expected a break, got {:?}", other),
    }
    assert_eq!(interp.scopes.len(), 0);
    let ir = looping(None, None, scope(vec![breaking(Some("b"), None)], None));
    assert!(matches!(
        eval_ir(&ir, &mut interp, Used::Used),
        Err(IrEvalOutcome::Break(_, IrEvalBreak::Label(_)))
    ));
}

#[test]
fn inherent_break_leaves_the_innermost_loop() {
    let query = Query::new();
    let mut interp = IrInterpreter::new(1000, &query, &Floats);
    let inner = looping(None, None, scope(vec![breaking(None, None)], None));
    let outer = looping(
        None,
        None,
        scope(vec![inner, store(target_name("x"), number(2)), breaking(None, None)], None),
    );
    let ir = block(vec![decl("x", number(1)), outer], Some(name("x")));
    let value = eval_ir(&ir, &mut interp, Used::Used).unwrap();
    assert_eq!(as_int(&value), BigInt::from(2));
}

#[test]
fn break_with_value_in_conditional_loop_is_an_error() {
    let query = Query::new();
    let mut interp = IrInterpreter::new(1000, &query, &Floats);
    let ir = looping(
        None,
        Some(IrCondition::Ir(boolean(true))),
        scope(vec![breaking(None, Some(number(1)))], None),
    );
    let error = error_of(eval_ir(&ir, &mut interp, Used::Used));
    assert_eq!(error.kind, IrErrorKind::BreakWithValue);
    assert_eq!(error.span, sp(9));
    assert_eq!(interp.scopes.len(), 0);
}

#[test]
fn break_outside_of_loop_escapes_as_break() {
    let query = Query::new();
    let mut interp = IrInterpreter::new(1000, &query, &Floats);
    assert!(matches!(
        eval_ir(&breaking(None, None), &mut interp, Used::Used),
        Err(IrEvalOutcome::Break(_, IrEvalBreak::Inherent))
    ));
    let error = interp.eval_value(&breaking(None, None), Used::Used).unwrap_err();
    assert_eq!(error.kind, IrErrorKind::BreakOutsideOfLoop);
    let error = interp
        .eval_value(&binary(IrBinaryOp::Add, number(1), boolean(true)), Used::Used)
        .unwrap_err();
    assert_eq!(error.kind, IrErrorKind::NotConst);
}

#[test]
fn names_shadow_and_scopes_end() {
    let query = Query::new();
    let mut interp = IrInterpreter::new(1000, &query, &Floats);
    let ir = block(
        vec![
            decl("x", number(1)),
            block(vec![decl("x", number(2)), decl("y", number(3))], None),
        ],
        Some(name("x")),
    );
    assert_eq!(as_int(&eval_ir(&ir, &mut interp, Used::Used).unwrap()), BigInt::from(1));
    let ir = block(vec![block(vec![decl("y", number(3))], None)], Some(name("y")));
    let error = error_of(eval_ir(&ir, &mut interp, Used::Used));
    assert_eq!(error.kind, IrErrorKind::MissingLocal);
    assert_eq!(interp.scopes.len(), 0);
    let ir = block(vec![decl("x", number(1)), decl("x", number(5))], Some(name("x")));
    assert_eq!(as_int(&eval_ir(&ir, &mut interp, Used::Used).unwrap()), BigInt::from(5));
    let error = error_of(eval_ir(&decl("x", number(1)), &mut interp, Used::Used));
    assert_eq!(error.kind, IrErrorKind::MissingScope);
}

#[test]
fn set_writes_through_shared_handles() {
    let query = Query::new();
    let mut interp = IrInterpreter::new(1000, &query, &Floats);
    // let a = [1, 2]; let b = a; b.1 = 7; a.1
    let ir = block(
        vec![
            decl("a", vector(vec![number(1), number(2)])),
            decl("b", name("a")),
            store(target_index(target_name("b"), 1), number(7)),
        ],
        Some(node(0, IrKind::Target(target_index(target_name("a"), 1)))),
    );
    let value = eval_ir(&ir, &mut interp, Used::Used).unwrap();
    assert_eq!(as_int(&value), BigInt::from(7));
}

#[test]
fn set_and_assign_on_fields_and_indices() {
    let query = Query::new();
    let mut interp = IrInterpreter::new(1000, &query, &Floats);
    let ir = block(
        vec![
            decl("o", object(vec![("n", number(1)), ("t", tuple(vec![number(10), number(20)]))])),
            store(target_field(target_name("o"), "m"), number(5)),
            assign(target_field(target_name("o"), "n"), IrAssignOp::Add, number(41)),
            assign(
                target_index(target_field(target_name("o"), "t"), 1),
                IrAssignOp::Shl,
                number(2),
            ),
        ],
        Some(tuple(vec![
            node(0, IrKind::Target(target_field(target_name("o"), "n"))),
            node(0, IrKind::Target(target_field(target_name("o"), "m"))),
            node(0, IrKind::Target(target_index(target_field(target_name("o"), "t"), 1))),
        ])),
    );
    let value = eval_ir(&ir, &mut interp, Used::Used).unwrap();
    let items: Vec<BigInt> = items_of(&mut interp, &value).iter().map(as_int).collect();
    assert_eq!(items, vec![BigInt::from(42), BigInt::from(5), BigInt::from(80)]);
}

#[test]
fn target_errors() {
    let query = Query::new();
    let mut interp = IrInterpreter::new(1000, &query, &Floats);
    let with_v = |last: Ir| block(vec![decl("v", vector(vec![number(1)])), decl("n", number(1))], Some(last));
    let ir = with_v(store(target_index(target_name("v"), 3), number(0)));
    assert_eq!(
        error_of(eval_ir(&ir, &mut interp, Used::Used)).kind,
        IrErrorKind::MissingIndex { index: 3 }
    );
    let ir = with_v(node(0, IrKind::Target(target_index(target_name("v"), 1))));
    assert_eq!(
        error_of(eval_ir(&ir, &mut interp, Used::Used)).kind,
        IrErrorKind::MissingIndex { index: 1 }
    );
    let ir = with_v(node(0, IrKind::Target(target_field(target_name("v"), "f"))));
    assert_eq!(
        error_of(eval_ir(&ir, &mut interp, Used::Used)).kind,
        IrErrorKind::Expected { expected: ValueKind::Object, actual: ValueKind::Vec }
    );
    let ir = with_v(node(0, IrKind::Target(target_index(target_name("n"), 0))));
    assert_eq!(
        error_of(eval_ir(&ir, &mut interp, Used::Used)).kind,
        IrErrorKind::Expected { expected: ValueKind::Tuple, actual: ValueKind::Integer }
    );
    let ir = with_v(store(target_name("zz"), number(0)));
    assert_eq!(error_of(eval_ir(&ir, &mut interp, Used::Used)).kind, IrErrorKind::MissingLocal);
    let ir = block(
        vec![decl("o", object(vec![]))],
        Some(assign(target_field(target_name("o"), "f"), IrAssignOp::Add, number(1))),
    );
    assert_eq!(error_of(eval_ir(&ir, &mut interp, Used::Used)).kind, IrErrorKind::MissingField);
    let ir = with_v(assign(target_name("n"), IrAssignOp::Add, boolean(true)));
    assert_eq!(
        error_of(eval_ir(&ir, &mut interp, Used::Used)).kind,
        IrErrorKind::UnsupportedOperands
    );
    let ir = with_v(assign(target_name("n"), IrAssignOp::Div, number(0)));
    assert_eq!(error_of(eval_ir(&ir, &mut interp, Used::Used)).kind, IrErrorKind::DivisionByZero);
    assert_eq!(interp.scopes.len(), 0);
}

#[test]
fn condition_must_be_bool() {
    let query = Query::new();
    let mut interp = IrInterpreter::new(1000, &query, &Floats);
    let ir = branches(
        vec![(IrCondition::Ir(Ir { span: sp(40), kind: IrKind::Value(IrValue::integer(1)) }), scope(vec![], None))],
        None,
    );
    let error = error_of(eval_ir(&ir, &mut interp, Used::Used));
    assert_eq!(
        error.kind,
        IrErrorKind::Expected { expected: ValueKind::Bool, actual: ValueKind::Integer }
    );
    assert_eq!(error.span, sp(40));
    assert_eq!(error.to_string(), "expected `bool` but got `integer`");
    assert_eq!(interp.scopes.len(), 0);
    let ir = branches(vec![], None);
    assert!(matches!(eval_ir(&ir, &mut interp, Used::Used).unwrap(), IrValue::Unit));
    let ir = branches(
        vec![
            (IrCondition::Ir(boolean(false)), scope(vec![], Some(number(1)))),
            (IrCondition::Ir(boolean(true)), scope(vec![], Some(number(2)))),
            (IrCondition::Ir(boolean(true)), scope(vec![], Some(number(3)))),
        ],
        Some(scope(vec![], Some(number(4)))),
    );
    assert_eq!(as_int(&eval_ir(&ir, &mut interp, Used::Used).unwrap()), BigInt::from(2));
}

fn pat(kind: IrPatKind) -> IrPat {
    IrPat { span: sp(50), kind }
}

fn let_condition(p: IrPat, ir: Ir) -> IrCondition {
    IrCondition::Let(IrLet { span: sp(51), pat: p, ir })
}

#[test]
fn patterns_bind_on_match_only() {
    let query = Query::new();
    let mut interp = IrInterpreter::new(1000, &query, &Floats);
    // if let (a, 2, _) = (1, 2, 3) { a } else { 0 }
    let p = pat(IrPatKind::Tuple(vec![
        pat(IrPatKind::Binding("a".to_string())),
        pat(IrPatKind::Lit(IrLit::Integer(BigInt::from(2)))),
        pat(IrPatKind::Ignore),
    ]));
    let ir = branches(
        vec![(
            let_condition(p, tuple(vec![number(1), number(2), number(3)])),
            scope(vec![], Some(name("a"))),
        )],
        Some(scope(vec![], Some(number(0)))),
    );
    assert_eq!(as_int(&eval_ir(&ir, &mut interp, Used::Used).unwrap()), BigInt::from(1));

    // A later mismatch leaves nothing bound.
    let p = pat(IrPatKind::Tuple(vec![
        pat(IrPatKind::Binding("a".to_string())),
        pat(IrPatKind::Lit(IrLit::Integer(BigInt::from(9)))),
    ]));
    let ir = block(
        vec![branches(
            vec![(let_condition(p, tuple(vec![number(1), number(2)])), scope(vec![], None))],
            None,
        )],
        None,
    );
    assert!(eval_ir(&ir, &mut interp, Used::Used).is_ok());
    let guard = interp.scopes.push();
    let p = pat(IrPatKind::Tuple(vec![
        pat(IrPatKind::Binding("a".to_string())),
        pat(IrPatKind::Lit(IrLit::Bool(false))),
    ]));
    let t = eval_ir(&tuple(vec![number(1), boolean(true)]), &mut interp, Used::Used).unwrap();
    assert!(!p.matches(&mut interp, t, sp(0)).unwrap());
    assert!(interp.scopes.try_get(&"a".to_string()).is_none());
    interp.scopes.pop(sp(0), guard).unwrap();

    // Arity must be exact.
    let p = pat(IrPatKind::Tuple(vec![pat(IrPatKind::Ignore)]));
    let ir = branches(
        vec![(let_condition(p, tuple(vec![number(1), number(2)])), scope(vec![], Some(number(1))))],
        Some(scope(vec![], Some(number(0)))),
    );
    assert_eq!(as_int(&eval_ir(&ir, &mut interp, Used::Used).unwrap()), BigInt::from(0));

    // A value of another category is an error.
    let p = pat(IrPatKind::Tuple(vec![]));
    let ir = branches(vec![(let_condition(p, number(1)), scope(vec![], None))], None);
    let error = error_of(eval_ir(&ir, &mut interp, Used::Used));
    assert_eq!(
        error.kind,
        IrErrorKind::Expected { expected: ValueKind::Tuple, actual: ValueKind::Integer }
    );
    assert_eq!(error.span, sp(50));
    assert_eq!(interp.scopes.len(), 0);
}

#[test]
fn object_patterns() {
    let query = Query::new();
    let mut interp = IrInterpreter::new(1000, &query, &Floats);
    let make = || object(vec![("a", number(1)), ("b", number(2))]);
    let exact = |rest: bool, keys: Vec<&str>| {
        pat(IrPatKind::Object(
            keys.into_iter()
                .map(|k| (k.to_string(), pat(IrPatKind::Binding(k.to_string()))))
                .collect(),
            rest,
        ))
    };
    let run = |interp: &mut IrInterpreter<'_, Floats>, p: IrPat| {
        let ir = branches(
            vec![(let_condition(p, make()), scope(vec![], Some(name("a"))))],
            Some(scope(vec![], Some(number(0)))),
        );
        as_int(&eval_ir(&ir, interp, Used::Used).unwrap())
    };
    assert_eq!(run(&mut interp, exact(false, vec!["a", "b"])), BigInt::from(1));
    assert_eq!(run(&mut interp, exact(false, vec!["a"])), BigInt::from(0));
    assert_eq!(run(&mut interp, exact(true, vec!["a"])), BigInt::from(1));
    assert_eq!(run(&mut interp, exact(true, vec!["a", "c"])), BigInt::from(0));
    assert_eq!(run(&mut interp, exact(false, vec!["a", "c"])), BigInt::from(0));
}

#[test]
fn string_literal_pattern_and_binding() {
    let query = Query::new();
    let mut interp = IrInterpreter::new(1000, &query, &Floats);
    let s = interp.heap.share(Payload::String("yes".to_string()));
    let p = pat(IrPatKind::Lit(IrLit::String("yes".to_string())));
    let ir = branches(
        vec![(
            let_condition(p, node(0, IrKind::Value(IrValue::String(s)))),
            scope(vec![], Some(number(1))),
        )],
        Some(scope(vec![], Some(number(0)))),
    );
    assert_eq!(as_int(&eval_ir(&ir, &mut interp, Used::Used).unwrap()), BigInt::from(1));
    let p = pat(IrPatKind::Lit(IrLit::String("no".to_string())));
    let ir = branches(
        vec![(
            let_condition(p, node(0, IrKind::Value(IrValue::String(s)))),
            scope(vec![], Some(number(1))),
        )],
        Some(scope(vec![], Some(number(0)))),
    );
    assert_eq!(as_int(&eval_ir(&ir, &mut interp, Used::Used).unwrap()), BigInt::from(0));
}

#[test]
fn loop_condition_bindings_do_not_leak() {
    let query = Query::new();
    let mut interp = IrInterpreter::new(10_000, &query, &Floats);
    // let n = 0; while let x = n { n += 1; if n == 3 { break } }; n
    let condition = let_condition(pat(IrPatKind::Binding("x".to_string())), name("n"));
    let body = scope(
        vec![
            assign(target_name("n"), IrAssignOp::Add, number(1)),
            branches(
                vec![(
                    IrCondition::Ir(binary(IrBinaryOp::Eq, name("n"), number(3))),
                    scope(vec![breaking(None, None)], None),
                )],
                None,
            ),
        ],
        None,
    );
    let ir = block(
        vec![decl("n", number(0)), looping(None, Some(condition), body)],
        Some(name("n")),
    );
    assert_eq!(as_int(&eval_ir(&ir, &mut interp, Used::Used).unwrap()), BigInt::from(3));
    assert_eq!(interp.scopes.len(), 0);
}

fn register(query: &mut Query, id: u64, args: Vec<&str>, ir: Ir) {
    query.insert(ConstFn { id, args: args.into_iter().map(|a| a.to_string()).collect(), ir });
}

fn call(target: u64, args: Vec<Ir>) -> Ir {
    node(12, IrKind::Call(IrCall { span: sp(12), target, args }))
}

#[test]
fn calls_constant_functions() {
    let mut query = Query::new();
    register(&mut query, 7, vec!["a", "b"], binary(IrBinaryOp::Sub, name("a"), name("b")));
    // fact(n) = if n <= 1 { 1 } else { n * fact(n - 1) }
    register(
        &mut query,
        8,
        vec!["n"],
        branches(
            vec![(
                IrCondition::Ir(binary(IrBinaryOp::Lte, name("n"), number(1))),
                scope(vec![], Some(number(1))),
            )],
            Some(scope(
                vec![],
                Some(binary(
                    IrBinaryOp::Mul,
                    name("n"),
                    call(8, vec![binary(IrBinaryOp::Sub, name("n"), number(1))]),
                )),
            )),
        ),
    );
    register(&mut query, 9, vec![], name("hidden"));
    register(&mut query, 10, vec![], breaking(None, None));
    let mut interp = IrInterpreter::new(10_000, &query, &Floats);
    let value = eval_ir(&call(7, vec![number(10), number(4)]), &mut interp, Used::Used).unwrap();
    assert_eq!(as_int(&value), BigInt::from(6));
    let value = eval_ir(&call(8, vec![number(20)]), &mut interp, Used::Unused).unwrap();
    assert_eq!(as_int(&value), BigInt::from(2432902008176640000i64));
    assert_eq!(interp.dependencies, vec![7]);
    assert_eq!(interp.scopes.len(), 0);

    // The caller's names are hidden from the body.
    let ir = block(vec![decl("hidden", number(1))], Some(call(9, vec![])));
    let error = error_of(eval_ir(&ir, &mut interp, Used::Used));
    assert_eq!(error.kind, IrErrorKind::MissingLocal);

    let error = error_of(eval_ir(&call(10, vec![]), &mut interp, Used::Used));
    assert_eq!(error.kind, IrErrorKind::BreakOutsideOfLoop);

    let error = error_of(eval_ir(&call(7, vec![number(1)]), &mut interp, Used::Used));
    assert_eq!(error.kind, IrErrorKind::ArgumentCountMismatch { actual: 1, expected: 2 });
    assert_eq!(error.to_string(), "argument count mismatch, got 1 but expected 2");

    match eval_ir(&call(99, vec![]), &mut interp, Used::Used) {
        Err(IrEvalOutcome::NotConst(span)) => assert_eq!(span, sp(12)),
        other => panic!("expected not-const, got {:?}", other),
    }
    assert_eq!(interp.scopes.len(), 0);

    let value = interp
        .call_const_fn(sp(0), 7, vec![IrValue::integer(3), IrValue::integer(1)], Used::Used)
        .unwrap();
    assert_eq!(as_int(&value), BigInt::from(2));
}

#[test]
fn recursion_is_bounded_by_the_budget() {
    let mut query = Query::new();
    register(&mut query, 1, vec![], call(1, vec![]));
    let mut interp = IrInterpreter::new(300, &query, &Floats);
    let error = error_of(eval_ir(&call(1, vec![]), &mut interp, Used::Used));
    assert_eq!(error.kind, IrErrorKind::BudgetExceeded);
    assert_eq!(interp.scopes.len(), 0);
}

#[test]
fn failed_borrow_is_an_error() {
    let query = Query::new();
    let mut interp = IrInterpreter::new(1000, &query, &Floats);
    let a = interp.heap.share(Payload::String("a".to_string()));
    let held = interp.heap.borrow_mut(a).unwrap();
    let ir = binary(
        IrBinaryOp::Add,
        node(0, IrKind::Value(IrValue::String(a))),
        node(0, IrKind::Value(IrValue::String(a))),
    );
    let error = error_of(eval_ir(&ir, &mut interp, Used::Used));
    assert_eq!(
        error.kind,
        IrErrorKind::Access {
            error: AccessError::NotAccessibleRef { error: NotAccessibleRef(Snapshot(1)) }
        }
    );
    assert_eq!(error.to_string(), "cannot read, value is exclusively accessed");
    interp.heap.release_mut(held);
    assert!(eval_ir(&ir, &mut interp, Used::Used).is_ok());

    let dangling = node(0, IrKind::Value(IrValue::String(Shared { index: 999 })));
    let ir = template(vec![IrTemplateComponent::Ir(dangling)]);
    let error = error_of(eval_ir(&ir, &mut interp, Used::Used));
    assert_eq!(
        error.kind,
        IrErrorKind::Access { error: AccessError::MissingCell { index: 999 } }
    );

    let v = eval_ir(&vector(vec![]), &mut interp, Used::Used).unwrap();
    let h = match v {
        IrValue::Vec(h) => h,
        other => panic!("expected a vector, got {:?}", other),
    };
    let wrong = node(0, IrKind::Value(IrValue::String(h)));
    let ir = template(vec![IrTemplateComponent::Ir(wrong)]);
    let error = error_of(eval_ir(&ir, &mut interp, Used::Used));
    assert_eq!(
        error.kind,
        IrErrorKind::Access {
            error: AccessError::UnexpectedType {
                expected: ValueKind::String,
                actual: ValueKind::Vec
            }
        }
    );
    assert_eq!(error.to_string(), "expected data of type `string`, but found `vec`");
}

#[test]
fn object_fields_keep_their_order_and_later_keys_win() {
    let query = Query::new();
    let mut interp = IrInterpreter::new(1000, &query, &Floats);
    let ir = object(vec![("b", number(1)), ("a", number(2)), ("b", number(3))]);
    let value = eval_ir(&ir, &mut interp, Used::Used).unwrap();
    let seen: Vec<(String, BigInt)> =
        entries_of(&mut interp, &value).iter().map(|(k, v)| (k.clone(), as_int(v))).collect();
    assert_eq!(
        seen,
        vec![("b".to_string(), BigInt::from(3)), ("a".to_string(), BigInt::from(2))]
    );
}
