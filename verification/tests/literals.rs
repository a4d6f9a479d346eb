use num_bigint::BigInt;
use rune_ir::ast::{
    Attribute, Expectation, Expr, ExprBlock, ExprBreak, ExprBreakValue, ItemFn, Kind, Label,
    LitSource, ParseError, Parser, Stmt, Token,
};
use rune_ir::lexer::{chars_of, lex, LexError};
use rune_ir::literal::{LitValue, ResolveErrorKind};
use rune_ir::span::{Span, Spanned};

/// Lexes and parses `fn main() { .. }` and gives the value of the literal
/// that its body ends with.
fn run(source: &str) -> LitValue {
    let chars = chars_of(source);
    let tokens = lex(&chars, 0).unwrap();
    let mut parser = Parser::new(tokens);
    let item = ItemFn::parse(&mut parser).unwrap();
    assert!(parser.is_eof());
    let expr = item.body.tail().expect("the body ends with an expression");
    expr.resolve(&chars).unwrap()
}

fn string(source: &str) -> String {
    match run(source) {
        LitValue::Str(s) => s,
        other => panic!("expected a string, got {:?}", other),
    }
}

fn bytes(source: &str) -> Vec<u8> {
    match run(source) {
        LitValue::ByteStr(b) => b,
        other => panic!("expected bytes, got {:?}", other),
    }
}

fn integer(source: &str) -> i64 {
    match run(source) {
        LitValue::Integer(n) => i64::try_from(n).unwrap(),
        other => panic!("expected an integer, got {:?}", other),
    }
}

fn byte(source: &str) -> u8 {
    match run(source) {
        LitValue::Byte(b) => b,
        other => panic!("expected a byte, got {:?}", other),
    }
}

fn character(source: &str) -> char {
    match run(source) {
        LitValue::Char(c) => c,
        other => panic!("expected a character, got {:?}", other),
    }
}

#[test]
fn test_literals() {
    assert_eq!(string(r#"fn main() { "Hello World" }"#), "Hello World");
    assert_eq!(
        bytes(r#"fn main() { b"Hello World" }"#),
        b"Hello World"[..]
    );

    assert_eq!(integer(r#"fn main() { 0xff }"#), 0xff);
    assert_eq!(integer(r#"fn main() { -0xff }"#), -0xff);

    assert_eq!(integer(r#"fn main() { 0b10010001 }"#), 0b10010001);
    assert_eq!(integer(r#"fn main() { -0b10010001 }"#), -0b10010001);

    assert_eq!(integer(r#"fn main() { 0o77 }"#), 0o77);
    assert_eq!(integer(r#"fn main() { -0o77 }"#), -0o77);

    assert_eq!(byte(r#"fn main() { b'0' }"#), b'0');
    assert_eq!(byte(r#"fn main() { b'\xaf' }"#), b'\xaf');

    assert_eq!(character(r#"fn main() { '\x60' }"#), '\x60');
    assert_eq!(character(r#"fn main() { '\u{1F4AF}' }"#), '\u{1F4AF}');
    assert_eq!(character(r#"fn main() { '💯' }"#), '💯');
}

fn resolve_error(source: &str) -> ResolveErrorKind {
    let chars = chars_of(source);
    let tokens = lex(&chars, 0).unwrap();
    let mut parser = Parser::new(tokens);
    let expr = Expr::parse(&mut parser).unwrap();
    expr.resolve(&chars).unwrap_err().kind
}

fn value_of(source: &str) -> LitValue {
    let chars = chars_of(source);
    let tokens = lex(&chars, 0).unwrap();
    let mut parser = Parser::new(tokens);
    let expr = Expr::parse(&mut parser).unwrap();
    expr.resolve(&chars).unwrap()
}

#[test]
fn numbers_in_all_radixes() {
    let cases: Vec<(&str, i64)> = vec![
        ("0", 0),
        ("42", 42),
        ("1_000_000", 1_000_000),
        ("0x0", 0),
        ("0xDEAD_beef", 0xDEAD_beef),
        ("0b0", 0),
        ("0b1111_0000", 0xf0),
        ("0o17", 15),
        ("--7", 7),
        ("- 12", -12),
        ("0x7fffffffffffffff", i64::MAX),
    ];
    for (source, expected) in cases {
        match value_of(source) {
            LitValue::Integer(n) => assert_eq!(n, BigInt::from(expected), "{}", source),
            other => panic!("expected an integer, got {:?}", other),
        }
    }
    match value_of("0xffffffffffffffffffffffff") {
        LitValue::Integer(n) => assert_eq!(n.to_string(), "79228162514264337593543950335"),
        other => panic!("expected an integer, got {:?}", other),
    }
    assert_eq!(resolve_error("0b12"), ResolveErrorKind::BadNumber);
    assert_eq!(resolve_error("0o8"), ResolveErrorKind::BadNumber);
    assert_eq!(resolve_error("0xg"), ResolveErrorKind::BadNumber);
    assert_eq!(resolve_error("12ab"), ResolveErrorKind::BadNumber);
    assert_eq!(resolve_error("0x"), ResolveErrorKind::BadNumber);
}

#[test]
fn text_with_escapes() {
    match value_of(r#""a\tb\n\\\"\x41\u{e9}\0'""#) {
        LitValue::Str(s) => assert_eq!(s, "a\tb\n\\\"\x41\u{e9}\0'"),
        other => panic!("expected a string, got {:?}", other),
    }
    match value_of(r#""""#) {
        LitValue::Str(s) => assert_eq!(s, ""),
        other => panic!("expected a string, got {:?}", other),
    }
    match value_of(r#"b"\xff\x00a\r""#) {
        LitValue::ByteStr(b) => assert_eq!(b, vec![0xff, 0, b'a', b'\r']),
        other => panic!("expected bytes, got {:?}", other),
    }
    match value_of(r"'\''") {
        LitValue::Char(c) => assert_eq!(c, '\''),
        other => panic!("expected a character, got {:?}", other),
    }
    match value_of(r"b'\n'") {
        LitValue::Byte(b) => assert_eq!(b, b'\n'),
        other => panic!("expected a byte, got {:?}", other),
    }
    // A character escape holds ASCII only; a byte escape holds any byte.
    assert_eq!(resolve_error(r"'\x80'"), ResolveErrorKind::BadText);
    assert_eq!(resolve_error(r#""\x80""#), ResolveErrorKind::BadText);
    // Bytes hold no characters beyond ASCII and no unicode escapes.
    assert_eq!(resolve_error("b'é'"), ResolveErrorKind::BadText);
    assert_eq!(resolve_error(r#"b"\u{41}""#), ResolveErrorKind::BadText);
    // Surrogates and codes past the last scalar value are no characters.
    assert_eq!(resolve_error(r"'\u{D800}'"), ResolveErrorKind::BadText);
    assert_eq!(resolve_error(r"'\u{110000}'"), ResolveErrorKind::BadText);
    assert_eq!(resolve_error(r"'\u{}'"), ResolveErrorKind::BadText);
    assert_eq!(resolve_error(r"'\u{1234567}'"), ResolveErrorKind::BadText);
    assert_eq!(resolve_error(r"'\q'"), ResolveErrorKind::BadText);
    assert_eq!(resolve_error(r"'\x4'"), ResolveErrorKind::BadText);
    assert_eq!(resolve_error(r"'\n\n'"), ResolveErrorKind::BadLength);
    assert_eq!(resolve_error(r"b'\n\n'"), ResolveErrorKind::BadLength);
    match value_of(r"'\u{10FFFF}'") {
        LitValue::Char(c) => assert_eq!(c, '\u{10FFFF}'),
        other => panic!("expected a character, got {:?}", other),
    }
    match value_of(r"'\u{D7FF}'") {
        LitValue::Char(c) => assert_eq!(c, '\u{D7FF}'),
        other => panic!("expected a character, got {:?}", other),
    }
}

#[test]
fn only_literals_have_values() {
    assert_eq!(resolve_error("x"), ResolveErrorKind::NotLiteral);
    assert_eq!(resolve_error("{ 1 }"), ResolveErrorKind::NotLiteral);
    assert_eq!(resolve_error("break"), ResolveErrorKind::NotLiteral);
    assert_eq!(resolve_error(r#"-"a""#), ResolveErrorKind::NotLiteral);
    let token = Token { span: Span::new(0, 9), kind: Kind::Number };
    assert_eq!(
        token.resolve(&chars_of("12")).unwrap_err().kind,
        ResolveErrorKind::BadSlice
    );
    let token = Token { span: Span::new(0, 1), kind: Kind::LitStr };
    assert_eq!(
        token.resolve(&chars_of("\"")).unwrap_err().kind,
        ResolveErrorKind::BadSlice
    );
    let token = Token { span: Span::new(0, 1), kind: Kind::Open };
    assert_eq!(
        token.resolve(&chars_of("{")).unwrap_err().kind,
        ResolveErrorKind::NotLiteral
    );
}

fn kinds(source: &str) -> Vec<Kind> {
    lex(&chars_of(source), 3).unwrap().into_iter().map(|t| t.kind).collect()
}

#[test]
fn lexes_tokens_with_spans() {
    let tokens = lex(&chars_of("fn main() {\n  'a break 'a; -7 }"), 3).unwrap();
    let seen: Vec<Kind> = tokens.iter().map(|t| t.kind).collect();
    assert_eq!(
        seen,
        vec![
            Kind::Fn,
            Kind::Ident,
            Kind::OpenParen,
            Kind::CloseParen,
            Kind::Open,
            Kind::Label(LitSource::Text(3)),
            Kind::Break,
            Kind::Label(LitSource::Text(3)),
            Kind::SemiColon,
            Kind::Dash,
            Kind::Number,
            Kind::Close,
        ]
    );
    assert_eq!(tokens[0].span, Span::new(0, 2));
    assert_eq!(tokens[1].span, Span::new(3, 7));
    assert_eq!(tokens[5].span, Span::new(14, 16));
    assert_eq!(tokens[10].span, Span::new(28, 29));
    assert_eq!(kinds("breaks break fn fnx _x1"), vec![
        Kind::Ident,
        Kind::Break,
        Kind::Fn,
        Kind::Ident,
        Kind::Ident,
    ]);
    assert_eq!(kinds("#[test] { } 'x' '\\'' b'a' b\"s\" \"t\" b"), vec![
        Kind::Attribute,
        Kind::Open,
        Kind::Close,
        Kind::LitChar,
        Kind::LitChar,
        Kind::LitByte,
        Kind::LitByteStr,
        Kind::LitStr,
        Kind::Ident,
    ]);
    assert_eq!(kinds("  \t\r\n "), vec![]);
    assert_eq!(kinds(""), vec![]);
}

#[test]
fn lexer_errors() {
    assert_eq!(lex(&chars_of("1 + 2"), 0), Err(LexError::UnexpectedChar { at: 2 }));
    assert_eq!(lex(&chars_of(" \"abc"), 0), Err(LexError::Unterminated { at: 1 }));
    assert_eq!(lex(&chars_of("\"abc\\"), 0), Err(LexError::Unterminated { at: 0 }));
    assert_eq!(lex(&chars_of("b'a"), 0), Err(LexError::Unterminated { at: 0 }));
    assert_eq!(lex(&chars_of("#[x"), 0), Err(LexError::Unterminated { at: 0 }));
    assert_eq!(lex(&chars_of("#x"), 0), Err(LexError::UnexpectedChar { at: 0 }));
    assert_eq!(lex(&chars_of("'"), 0), Err(LexError::UnexpectedChar { at: 0 }));
    assert_eq!(lex(&chars_of("' "), 0), Err(LexError::UnexpectedChar { at: 0 }));
}

fn parse_block(source: &str) -> Result<ExprBlock, ParseError> {
    let tokens = lex(&chars_of(source), 0).unwrap();
    let mut parser = Parser::new(tokens);
    ExprBlock::parse(&mut parser)
}

#[test]
fn blocks_produce_and_are_const() {
    let block = parse_block("{ 1; 2 }").unwrap();
    assert!(!block.produces_nothing());
    assert!(block.is_const());
    assert_eq!(block.block.statements.len(), 2);
    assert!(matches!(block.block.statements[0], Stmt::Semi(Expr::Lit(_), _)));
    assert!(matches!(block.block.statements[1], Stmt::Expr(Expr::Lit(_))));

    let block = parse_block("{ 1; 2; }").unwrap();
    assert!(block.produces_nothing());
    assert!(block.is_const());

    let block = parse_block("{}").unwrap();
    assert!(block.produces_nothing());
    assert!(block.is_const());
    assert_eq!(block.span(), Span::new(0, 2));

    let block = parse_block("{ 1; { \"a\"; { 2 } } }").unwrap();
    assert!(block.is_const());
    let block = parse_block("{ 1; { x; 2 } }").unwrap();
    assert!(!block.is_const());
    let block = parse_block("{ break }").unwrap();
    assert!(!block.is_const());
    let block = parse_block("{ -1 }").unwrap();
    assert!(!block.is_const());

    let block = parse_block("#[a] #[b] { 1 }").unwrap();
    assert_eq!(block.attributes.len(), 2);
    assert_eq!(block.attributes[0], Attribute { token: Token { span: Span::new(0, 4), kind: Kind::Attribute } });
    assert_eq!(block.span(), Span::new(0, 15));
}

#[test]
fn parse_with_attributes_attaches_them() {
    let tokens = lex(&chars_of("{ 1 } 2"), 0).unwrap();
    let mut parser = Parser::new(tokens);
    let attribute = Attribute { token: Token { span: Span::new(90, 94), kind: Kind::Attribute } };
    let block = ExprBlock::parse_with_attributes(&mut parser, vec![attribute]).unwrap();
    assert_eq!(block.attributes, vec![attribute]);
    assert_eq!(block.block.statements.len(), 1);
    assert_eq!(parser.position, 3);
    assert!(!parser.is_eof());

    let tokens = lex(&chars_of("1 { }"), 0).unwrap();
    let mut parser = Parser::new(tokens.clone());
    assert_eq!(
        ExprBlock::parse_with_attributes(&mut parser, vec![]).unwrap_err(),
        ParseError::Expected { what: Expectation::Open, actual: tokens[0] }
    );
    assert_eq!(parser.position, 0);
}

#[test]
fn parser_errors() {
    assert_eq!(parse_block("{ 1").unwrap_err(), ParseError::Eof);
    assert_eq!(parse_block("").unwrap_err(), ParseError::Eof);
    assert_eq!(parse_block("#[a]").unwrap_err(), ParseError::Eof);
    assert!(matches!(
        parse_block("{ ; }").unwrap_err(),
        ParseError::Expected { what: Expectation::Expr, actual: Token { kind: Kind::SemiColon, .. } }
    ));
    assert!(matches!(
        parse_block("{ 1 ) }").unwrap_err(),
        ParseError::Expected { what: Expectation::Expr, actual: Token { kind: Kind::CloseParen, .. } }
    ));
    assert!(matches!(
        parse_block("#[a] 1").unwrap_err(),
        ParseError::Expected { what: Expectation::Open, .. }
    ));
    let item = |source: &str| {
        let mut parser = Parser::new(lex(&chars_of(source), 0).unwrap());
        ItemFn::parse(&mut parser).map(|_| ())
    };
    assert!(item("fn f() { }").is_ok());
    assert!(matches!(item("f() { }"), Err(ParseError::Expected { what: Expectation::Fn, .. })));
    assert!(matches!(item("fn () { }"), Err(ParseError::Expected { what: Expectation::Ident, .. })));
    assert!(matches!(item("fn f) { }"), Err(ParseError::Expected { what: Expectation::OpenParen, .. })));
    assert!(matches!(item("fn f( { }"), Err(ParseError::Expected { what: Expectation::CloseParen, .. })));
    assert!(matches!(item("fn f() 1"), Err(ParseError::Expected { what: Expectation::Open, .. })));
    assert_eq!(item("fn f()"), Err(ParseError::Eof));
    assert_eq!(item("fn"), Err(ParseError::Eof));
}

#[test]
fn breaks_and_labels() {
    let parse = |source: &str| {
        let mut parser = Parser::new(lex(&chars_of(source), 7).unwrap());
        let b = ExprBreak::parse(&mut parser).unwrap();
        (b, parser.position)
    };
    let (b, end) = parse("break");
    assert!(b.expr.is_none());
    assert_eq!(end, 1);
    assert_eq!(b.span(), Span::new(0, 5));

    let (b, end) = parse("break 'out; 1");
    match &b.expr {
        Some(ExprBreakValue::Label(label)) => {
            assert_eq!(label.source, LitSource::Text(7));
            assert_eq!(label.span(), Span::new(6, 10));
        }
        other => panic!("expected a label, got {:?}", other),
    }
    assert_eq!(end, 2);
    assert_eq!(b.span(), Span::new(0, 10));
    assert_eq!(b.expr.as_ref().unwrap().span(), Span::new(6, 10));

    let (b, end) = parse("break { 12 } }");
    assert!(matches!(&b.expr, Some(ExprBreakValue::Expr(e)) if matches!(**e, Expr::Block(_))));
    assert_eq!(end, 4);
    assert_eq!(b.span(), Span::new(0, 12));

    let (b, end) = parse("break break 1");
    assert!(matches!(&b.expr, Some(ExprBreakValue::Expr(e)) if matches!(**e, Expr::Break(_))));
    assert_eq!(end, 3);

    let (b, end) = parse("break }");
    assert!(b.expr.is_none());
    assert_eq!(end, 1);

    let mut parser = Parser::new(lex(&chars_of("1"), 0).unwrap());
    assert!(matches!(
        ExprBreak::parse(&mut parser),
        Err(ParseError::Expected { what: Expectation::Expr, .. })
    ));
    let mut parser = Parser::new(vec![]);
    assert_eq!(ExprBreak::parse(&mut parser).unwrap_err(), ParseError::Eof);

    assert!(ExprBreakValue::peek(Some(Token { span: Span::new(0, 1), kind: Kind::Label(LitSource::Text(0)) })));
    assert!(ExprBreakValue::peek(Some(Token { span: Span::new(0, 1), kind: Kind::Number })));
    assert!(!ExprBreakValue::peek(Some(Token { span: Span::new(0, 1), kind: Kind::Close })));
    assert!(!ExprBreakValue::peek(None));

    let mut parser = Parser::new(lex(&chars_of("'a 1"), 2).unwrap());
    assert!(Label::peek(&parser));
    let label = Label::parse(&mut parser).unwrap();
    assert_eq!(label.source, LitSource::Text(2));
    assert_eq!(label.token.kind, Kind::Label(LitSource::Text(2)));
    assert!(!Label::peek(&parser));
    assert!(matches!(
        Label::parse(&mut parser),
        Err(ParseError::Expected { what: Expectation::Label, .. })
    ));
    assert_eq!(parser.position, 1);
    assert_eq!(parser.next().unwrap().kind, Kind::Number);
    assert_eq!(Label::parse(&mut parser).unwrap_err(), ParseError::Eof);
    assert_eq!(parser.next().unwrap_err(), ParseError::Eof);
}
