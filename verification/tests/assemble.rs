use rune_ir::assemble::{CompileError, Compiler, Inst, LitByteStr, Needs, Value, Warning};
use rune_ir::ast::{Kind, Token};
use rune_ir::lexer::{chars_of, lex};
use rune_ir::literal::ResolveErrorKind;
use rune_ir::span::{Span, Spanned};

fn literals(source: &str) -> (Compiler, Vec<LitByteStr>) {
    let chars = chars_of(source);
    let tokens = lex(&chars, 4).unwrap();
    let literals = tokens.into_iter().map(|token| LitByteStr { token }).collect();
    (Compiler::new(4, chars), literals)
}

#[test]
fn needed_literal_is_assembled() {
    let (mut c, lits) = literals(r#"b"Hello World" b"\x00\xff" b"Hello World""#);
    assert_eq!(lits[0].resolve(&c.source).unwrap(), b"Hello World");
    assert_eq!(lits[0].span(), Span::new(0, 14));

    assert_eq!(lits[0].assemble(&mut c, Needs::Value), Ok(Value::Unnamed(Span::new(0, 14))));
    assert_eq!(c.unit.static_bytes, vec![b"Hello World".to_vec()]);
    assert_eq!(c.assembly, vec![(Inst::Bytes { slot: 0 }, Span::new(0, 14))]);
    assert!(c.warnings.is_empty());

    assert_eq!(lits[1].assemble(&mut c, Needs::Type), Ok(Value::Unnamed(lits[1].token.span)));
    assert_eq!(c.unit.static_bytes, vec![b"Hello World".to_vec(), vec![0, 0xff]]);
    assert_eq!(c.assembly.len(), 2);
    assert_eq!(c.assembly[1], (Inst::Bytes { slot: 1 }, lits[1].token.span));

    // The same bytes are stored once.
    assert_eq!(lits[2].assemble(&mut c, Needs::Value), Ok(Value::Unnamed(lits[2].token.span)));
    assert_eq!(c.unit.static_bytes.len(), 2);
    assert_eq!(c.assembly[2], (Inst::Bytes { slot: 0 }, lits[2].token.span));
    assert!(c.warnings.is_empty());
}

#[test]
fn literal_that_is_not_needed_is_passed_over() {
    let (mut c, lits) = literals(r#"b"Hello World""#);
    assert!(!Needs::Nothing.value());
    assert!(Needs::Value.value());
    assert!(Needs::Type.value());
    assert_eq!(lits[0].assemble(&mut c, Needs::Nothing), Ok(Value::Empty(Span::new(0, 14))));
    assert_eq!(c.warnings, vec![Warning::NotUsed { source_id: 4, span: Span::new(0, 14) }]);
    assert!(c.unit.static_bytes.is_empty());
    assert!(c.assembly.is_empty());
}

#[test]
fn literal_that_cannot_be_resolved_is_an_error() {
    let (mut c, lits) = literals(r#"b"\u{41}" "text""#);
    match lits[0].assemble(&mut c, Needs::Value) {
        Err(CompileError::Resolve { error }) => {
            assert_eq!(error.kind, ResolveErrorKind::BadText);
            assert_eq!(error.span, Span::new(0, 9));
        }
        other => panic!("expected an error, got {:?}", other),
    }
    match lits[1].assemble(&mut c, Needs::Value) {
        Err(CompileError::Resolve { error }) => {
            assert_eq!(error.kind, ResolveErrorKind::NotLiteral)
        }
        other => panic!("expected an error, got {:?}", other),
    }
    let stray = LitByteStr { token: Token { span: Span::new(0, 99), kind: Kind::LitByteStr } };
    match stray.assemble(&mut c, Needs::Value) {
        Err(CompileError::Resolve { error }) => assert_eq!(error.kind, ResolveErrorKind::BadSlice),
        other => panic!("expected an error, got {:?}", other),
    }
    assert!(c.unit.static_bytes.is_empty());
    assert!(c.assembly.is_empty());
    assert!(c.warnings.is_empty());
    // Without need, the literal is not looked at.
    assert!(stray.assemble(&mut c, Needs::Nothing).is_ok());
}
