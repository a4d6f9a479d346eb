use rune_ir::ast::{
    Expectation, Expr, ExprAwait, ExprReturn, ExprVec, ExprYield, Kind, Label, LitSource,
    ParseError, Parser, Token,
};
use rune_ir::lexer::{chars_of, lex};
use rune_ir::literal::{ResolveError, ResolveErrorKind};
use rune_ir::span::{Span, Spanned};
use rune_ir::storage::{MacroContext, Sources, Storage};

fn parse(source: &str) -> Result<(Expr, usize), ParseError> {
    let tokens = lex(&chars_of(source), 0).unwrap();
    let mut parser = Parser::new(tokens);
    let expr = Expr::parse(&mut parser)?;
    Ok((expr, parser.position))
}

fn kinds(source: &str) -> Vec<Kind> {
    lex(&chars_of(source), 0).unwrap().into_iter().map(|t| t.kind).collect()
}

#[test]
fn lexes_keywords_and_punctuation() {
    assert_eq!(
        kinds("return yield await returns awaits yields [ , ] . x.await"),
        vec![
            Kind::Return,
            Kind::Yield,
            Kind::Await,
            Kind::Ident,
            Kind::Ident,
            Kind::Ident,
            Kind::OpenBracket,
            Kind::Comma,
            Kind::CloseBracket,
            Kind::Dot,
            Kind::Ident,
            Kind::Dot,
            Kind::Await,
        ]
    );
}

#[test]
fn parses_return() {
    let (expr, end) = parse("return").unwrap();
    match &expr {
        Expr::Return(ExprReturn { attributes, return_token, expr }) => {
            assert!(attributes.is_empty());
            assert_eq!(return_token.span, Span::new(0, 6));
            assert!(expr.is_none());
        }
        other => panic!("expected a return, got {:?}", other),
    }
    assert_eq!(end, 1);
    assert_eq!(expr.span(), Span::new(0, 6));

    let (expr, end) = parse("return 42").unwrap();
    match &expr {
        Expr::Return(r) => {
            assert!(matches!(r.expr.as_deref(), Some(Expr::Lit(_))));
            assert_eq!(r.span(), Span::new(0, 9));
        }
        other => panic!("expected a return, got {:?}", other),
    }
    assert_eq!(end, 2);

    let (expr, end) = parse("#[attr] return 42").unwrap();
    match &expr {
        Expr::Return(r) => {
            assert_eq!(r.attributes.len(), 1);
            assert_eq!(r.attributes[0].token.span, Span::new(0, 7));
            assert!(r.expr.is_some());
        }
        other => panic!("expected a return, got {:?}", other),
    }
    assert_eq!(end, 3);
    assert_eq!(expr.span(), Span::new(0, 17));
    assert!(!expr.is_const());

    let (expr, end) = parse("return }").unwrap();
    assert!(matches!(expr, Expr::Return(ExprReturn { expr: None, .. })));
    assert_eq!(end, 1);
}

#[test]
fn parses_yield() {
    let (expr, end) = parse("yield").unwrap();
    assert!(matches!(&expr, Expr::Yield(ExprYield { expr: None, .. })));
    assert_eq!(end, 1);
    let (expr, end) = parse("yield 42").unwrap();
    match &expr {
        Expr::Yield(y) => {
            assert!(matches!(y.expr.as_deref(), Some(Expr::Lit(_))));
            assert_eq!(y.yield_token.span, Span::new(0, 5));
            assert_eq!(y.span(), Span::new(0, 8));
        }
        other => panic!("expected a yield, got {:?}", other),
    }
    assert_eq!(end, 2);
    let (expr, end) = parse("#[attr] yield 42").unwrap();
    match &expr {
        Expr::Yield(y) => assert_eq!(y.attributes.len(), 1),
        other => panic!("expected a yield, got {:?}", other),
    }
    assert_eq!(end, 3);
    assert_eq!(expr.span(), Span::new(0, 16));
}

#[test]
fn parses_await() {
    let (expr, end) = parse("42.await").unwrap();
    match &expr {
        Expr::Await(ExprAwait { attributes, expr, dot, await_token }) => {
            assert!(attributes.is_empty());
            assert!(matches!(**expr, Expr::Lit(_)));
            assert_eq!(dot.kind, Kind::Dot);
            assert_eq!(await_token.span, Span::new(3, 8));
        }
        other => panic!("expected an await, got {:?}", other),
    }
    assert_eq!(end, 3);
    assert_eq!(expr.span(), Span::new(0, 8));

    let (expr, end) = parse("test.await.await ;").unwrap();
    match &expr {
        Expr::Await(outer) => match &*outer.expr {
            Expr::Await(inner) => assert!(matches!(*inner.expr, Expr::Path(_))),
            other => panic!("expected an await, got {:?}", other),
        },
        other => panic!("expected an await, got {:?}", other),
    }
    assert_eq!(end, 5);
    assert_eq!(expr.span(), Span::new(0, 16));

    // A dot that no `await` follows is left where it stands.
    let (expr, end) = parse("test.x").unwrap();
    assert!(matches!(expr, Expr::Path(_)));
    assert_eq!(end, 1);

    // The operand of a negation takes the awaits.
    let (expr, end) = parse("-x.await").unwrap();
    match &expr {
        Expr::Unary(_, inner) => assert!(matches!(**inner, Expr::Await(_))),
        other => panic!("expected a negation, got {:?}", other),
    }
    assert_eq!(end, 4);
    let (expr, _) = parse("{ 1 }.await").unwrap();
    assert!(matches!(expr, Expr::Await(_)));
}

#[test]
fn parses_vectors() {
    let (expr, end) = parse("[1, \"two\"]").unwrap();
    match &expr {
        Expr::Vec(ExprVec { attributes, items }) => {
            assert!(attributes.is_empty());
            assert_eq!(items.items.len(), 2);
            assert!(items.items[0].1.is_some());
            assert!(items.items[1].1.is_none());
            assert_eq!(items.open.kind, Kind::OpenBracket);
            assert_eq!(items.close.kind, Kind::CloseBracket);
        }
        other => panic!("expected a vector, got {:?}", other),
    }
    assert_eq!(end, 5);
    assert_eq!(expr.span(), Span::new(0, 10));

    let (expr, end) = parse("[1, 2,]").unwrap();
    match &expr {
        Expr::Vec(v) => {
            assert_eq!(v.items.items.len(), 2);
            assert!(v.items.items[1].1.is_some());
            assert_eq!(v.span(), Span::new(0, 7));
        }
        other => panic!("expected a vector, got {:?}", other),
    }
    assert_eq!(end, 6);

    let (expr, end) = parse("[]").unwrap();
    assert!(matches!(&expr, Expr::Vec(v) if v.items.items.is_empty()));
    assert_eq!(end, 2);

    let (expr, end) = parse("#[a] [[1], {2}, x.await, return]").unwrap();
    match &expr {
        Expr::Vec(v) => {
            assert_eq!(v.attributes.len(), 1);
            assert_eq!(v.items.items.len(), 4);
            assert!(matches!(v.items.items[0].0, Expr::Vec(_)));
            assert!(matches!(v.items.items[1].0, Expr::Block(_)));
            assert!(matches!(v.items.items[2].0, Expr::Await(_)));
            assert!(matches!(v.items.items[3].0, Expr::Return(_)));
        }
        other => panic!("expected a vector, got {:?}", other),
    }
    assert_eq!(end, 16);
    assert_eq!(expr.span(), Span::new(0, 32));

    assert_eq!(parse("[1").unwrap_err(), ParseError::Eof);
    assert_eq!(parse("[1,").unwrap_err(), ParseError::Eof);
    assert_eq!(parse("[").unwrap_err(), ParseError::Eof);
    assert!(matches!(
        parse("[1 2]").unwrap_err(),
        ParseError::Expected {
            what: Expectation::CloseBracket,
            actual: Token { kind: Kind::Number, .. }
        }
    ));
    assert!(matches!(
        parse("[,]").unwrap_err(),
        ParseError::Expected { what: Expectation::Expr, actual: Token { kind: Kind::Comma, .. } }
    ));
    assert!(matches!(
        parse("#[a] 1").unwrap_err(),
        ParseError::Expected { what: Expectation::Expr, actual: Token { kind: Kind::Number, .. } }
    ));
    assert_eq!(parse("#[a]").unwrap_err(), ParseError::Eof);
}

#[test]
fn labels_from_macros_and_sources() {
    let mut storage = Storage::new();
    let first = Label::new_with("foo", Span::new(3, 9), &mut storage);
    let second = Label::new_with("bar", Span::new(3, 9), &mut storage);
    assert_eq!(first.source, LitSource::Synthetic(0));
    assert_eq!(second.source, LitSource::Synthetic(1));
    assert_eq!(
        first.token,
        Token { span: Span::new(3, 9), kind: Kind::Label(LitSource::Synthetic(0)) }
    );
    let sources = Sources::new();
    assert_eq!(first.resolve(&storage, &sources).unwrap(), "foo");
    assert_eq!(second.resolve(&storage, &sources).unwrap(), "bar");
    assert_eq!(storage.get_string(1).map(|s| s.as_str()), Some("bar"));
    assert_eq!(storage.get_string(2), None);

    let mut ctx = MacroContext { macro_span: Span::new(10, 20), storage };
    let third = Label::new(&mut ctx, "baz");
    assert_eq!(third.source, LitSource::Synthetic(2));
    assert_eq!(third.span(), Span::new(10, 20));
    assert_eq!(third.resolve(&ctx.storage, &sources).unwrap(), "baz");
    assert_eq!(first.resolve(&ctx.storage, &sources).unwrap(), "foo");

    let empty = Storage::new();
    assert_eq!(
        third.resolve(&empty, &sources).unwrap_err(),
        ResolveError {
            span: Span::new(10, 20),
            kind: ResolveErrorKind::BadSyntheticId { id: 2 }
        }
    );

    let mut sources = Sources::new();
    let other = sources.insert(chars_of("nothing here"));
    let id = sources.insert(chars_of("break 'outer;"));
    assert_eq!((other, id), (0, 1));
    let tokens = lex(&chars_of("break 'outer;"), id).unwrap();
    let mut parser = Parser::new(tokens);
    parser.next().unwrap();
    let label = Label::parse(&mut parser).unwrap();
    assert_eq!(label.source, LitSource::Text(1));
    assert_eq!(label.resolve(&empty, &sources).unwrap(), "outer");
    assert_eq!(sources.source(1, Span::new(0, 5)).unwrap(), "break");
    assert_eq!(sources.source(1, Span::new(0, 14)), None);
    assert_eq!(sources.source(1, Span::new(3, 2)), None);
    assert_eq!(sources.source(2, Span::new(0, 0)), None);

    let elsewhere = Label {
        token: Token { span: Span::new(6, 40), kind: Kind::Label(LitSource::Text(1)) },
        source: LitSource::Text(1),
    };
    assert_eq!(
        elsewhere.resolve(&empty, &sources).unwrap_err(),
        ResolveError { span: Span::new(6, 40), kind: ResolveErrorKind::BadSlice }
    );
    let nowhere = Label {
        token: Token { span: Span::new(6, 12), kind: Kind::Label(LitSource::Text(7)) },
        source: LitSource::Text(7),
    };
    assert_eq!(nowhere.resolve(&empty, &sources).unwrap_err().kind, ResolveErrorKind::BadSlice);
}

#[test]
fn spans_join_and_trim() {
    assert_eq!(Span::new(2, 5).join(Span::new(4, 9)), Span::new(2, 9));
    assert_eq!(Span::new(4, 9).join(Span::new(2, 5)), Span::new(2, 9));
    assert_eq!(Span::new(2, 9).join(Span::new(3, 4)), Span::new(2, 9));
    assert_eq!(Span::new(2, 5).trim_start(1), Span::new(3, 5));
    assert_eq!(Span::new(2, 5).trim_start(3), Span::new(5, 5));
    assert_eq!(Span::new(2, 5).trim_start(4), Span::new(5, 5));
    assert_eq!(Span::new(2, 5).trim_start(0), Span::new(2, 5));
    assert_eq!(Span::empty(), Span::new(0, 0));
    assert_eq!(Span::new(1, 2).span(), Span::new(1, 2));
}
