//! The values of literals.
//!
//! A literal token names a stretch of its source. The functions of this
//! module say what value that stretch stands for: a number in one of four
//! radixes, or text with escapes.

use crate::ast::grammar::is_literal;
use crate::ast::{Expr, Kind, Token};
use crate::integer::{difference, from_i64, int_value, product, sum};
use crate::span::Span;
use crate::text::{char_from_u32, is_scalar, push_char};
use num_bigint::BigInt;
use vstd::prelude::*;
use vstd::string::*;

verus! {

/// The value of a literal.
#[derive(Debug)]
pub enum LitValue {
    Integer(BigInt),
    Byte(u8),
    Char(char),
    Str(String),
    ByteStr(Vec<u8>),
}

/// What a [`LitValue`] stands for.
pub enum LitV {
    Integer(int),
    Byte(u8),
    Char(char),
    Str(Seq<char>),
    ByteStr(Seq<u8>),
}

impl View for LitValue {
    type V = LitV;

    open spec fn view(&self) -> LitV {
        match *self {
            LitValue::Integer(n) => LitV::Integer(int_value(n)),
            LitValue::Byte(b) => LitV::Byte(b),
            LitValue::Char(c) => LitV::Char(c),
            LitValue::Str(s) => LitV::Str(s@),
            LitValue::ByteStr(bytes) => LitV::ByteStr(bytes@),
        }
    }
}

/// Why an expression has no literal value.
#[derive(Clone, Copy, Debug, PartialEq, Eq, Structural)]
pub enum ResolveErrorKind {
    /// The span of the token does not lie in the source.
    BadSlice,
    /// The text is no number.
    BadNumber,
    /// The text holds a character or an escape that is not allowed there.
    BadText,
    /// A character or byte literal that does not hold exactly one character.
    BadLength,
    /// No string is stored under this id.
    BadSyntheticId { id: usize },
    /// The expression is no literal, or the negation of something that is no
    /// number.
    NotLiteral,
}

/// Why an expression has no literal value, and where.
#[derive(Clone, Copy, Debug, PartialEq, Eq, Structural)]
pub struct ResolveError {
    pub span: Span,
    pub kind: ResolveErrorKind,
}

/// The value of `c` as a digit of the given radix.
pub open spec fn digit_of(c: char, radix: int) -> Option<int> {
    let d = if '0' <= c <= '9' {
        c as int - '0' as int
    } else if 'a' <= c <= 'f' {
        c as int - 'a' as int + 10
    } else if 'A' <= c <= 'F' {
        c as int - 'A' as int + 10
    } else {
        radix
    };
    if d < radix {
        Some(d)
    } else {
        None
    }
}

/// The number that the digits stand for in the given radix. Underscores
/// between digits count for nothing.
pub open spec fn digits_value(digits: Seq<char>, radix: int) -> Option<int>
    decreases digits.len(),
{
    if digits.len() == 0 {
        Some(0)
    } else {
        match digits_value(digits.drop_last(), radix) {
            None => None,
            Some(value) => if digits.last() == '_' {
                Some(value)
            } else {
                match digit_of(digits.last(), radix) {
                    Some(d) => Some(value * radix + d),
                    None => None,
                }
            },
        }
    }
}

/// The radix that the prefix of a number names, if it has one.
pub open spec fn prefix_radix(text: Seq<char>) -> Option<int> {
    if text.len() > 2 && text[0] == '0' {
        if text[1] == 'x' {
            Some(16)
        } else if text[1] == 'b' {
            Some(2)
        } else if text[1] == 'o' {
            Some(8)
        } else {
            None
        }
    } else {
        None
    }
}

/// The number that the text of a number literal stands for: hexadecimal
/// after `0x`, binary after `0b`, octal after `0o`, decimal otherwise.
pub open spec fn number_value(text: Seq<char>) -> Option<int> {
    match prefix_radix(text) {
        Some(radix) => digits_value(text.subrange(2, text.len() as int), radix),
        None => if text.len() == 0 {
            None
        } else {
            digits_value(text, 10)
        },
    }
}

/// The code that the simple escape `\c` stands for.
pub open spec fn simple_escape(c: char) -> Option<u32> {
    if c == 'n' {
        Some(10)
    } else if c == 'r' {
        Some(13)
    } else if c == 't' {
        Some(9)
    } else if c == '0' {
        Some(0)
    } else if c == '\\' {
        Some(92)
    } else if c == '\'' {
        Some(39)
    } else if c == '"' {
        Some(34)
    } else {
        None
    }
}

/// The code of the escape `\u{..}` whose digits go on at `pos`, with the
/// `count` digits before giving `value`, and the position after its `}`.
pub open spec fn unicode_escape(text: Seq<char>, pos: int, value: int, count: int) -> Option<
    (u32, int),
>
    decreases text.len() - pos,
{
    if pos < 0 || pos >= text.len() {
        None
    } else if text[pos] == '}' {
        if count >= 1 && is_scalar(value) {
            Some((value as u32, pos + 1))
        } else {
            None
        }
    } else if count >= 6 {
        None
    } else {
        match digit_of(text[pos], 16) {
            Some(d) => unicode_escape(text, pos + 1, value * 16 + d, count + 1),
            None => None,
        }
    }
}

/// The code of the character or escape at `pos`, and the position after
/// it. In text of bytes a plain character must be ASCII, `\x` gives any byte
/// and `\u` is not allowed; in text of characters `\x` gives ASCII only.
pub open spec fn unit_at(text: Seq<char>, pos: int, bytes: bool) -> Option<(u32, int)> {
    if pos < 0 || pos >= text.len() {
        None
    } else if text[pos] != '\\' {
        if bytes && text[pos] as u32 >= 128 {
            None
        } else {
            Some((text[pos] as u32, pos + 1))
        }
    } else if pos + 1 >= text.len() {
        None
    } else if text[pos + 1] == 'x' {
        if pos + 3 >= text.len() {
            None
        } else {
            match (digit_of(text[pos + 2], 16), digit_of(text[pos + 3], 16)) {
                (Some(high), Some(low)) => if !bytes && high >= 8 {
                    None
                } else {
                    Some(((high * 16 + low) as u32, pos + 4))
                },
                _ => None,
            }
        }
    } else if text[pos + 1] == 'u' {
        if bytes || pos + 2 >= text.len() || text[pos + 2] != '{' {
            None
        } else {
            unicode_escape(text, pos + 3, 0, 0)
        }
    } else {
        match simple_escape(text[pos + 1]) {
            Some(code) => Some((code, pos + 2)),
            None => None,
        }
    }
}

/// The codes of the characters and escapes from `pos` on, added to `codes`.
pub open spec fn units(text: Seq<char>, pos: int, bytes: bool, codes: Seq<u32>) -> Option<Seq<u32>>
    decreases text.len() - pos,
{
    if pos < 0 || pos >= text.len() {
        Some(codes)
    } else {
        match unit_at(text, pos, bytes) {
            None => None,
            Some((code, end)) => if end <= pos || end > text.len() {
                None
            } else {
                units(text, end, bytes, codes.push(code))
            },
        }
    }
}

/// The characters of the codes.
pub open spec fn as_chars(codes: Seq<u32>) -> Seq<char> {
    codes.map_values(|code: u32| code as char)
}

/// The bytes of the codes.
pub open spec fn as_bytes(codes: Seq<u32>) -> Seq<u8> {
    codes.map_values(|code: u32| code as u8)
}

/// The error of the kind `kind` at `token`.
pub open spec fn bad(token: Token, kind: ResolveErrorKind) -> ResolveError {
    ResolveError { span: token.span, kind }
}

/// The value of a literal token of a source. The quotes of a text literal
/// and the `b` before them are not part of its text.
pub open spec fn token_value(token: Token, chars: Seq<char>) -> Result<LitV, ResolveError> {
    let start = token.span.start as int;
    let end = token.span.end as int;
    let skip: int = if token.kind == Kind::Number {
        0
    } else if token.kind == Kind::LitStr || token.kind == Kind::LitChar {
        1
    } else {
        2
    };
    let cut: int = if token.kind == Kind::Number {
        0
    } else {
        1
    };
    if !is_literal(token.kind) {
        Err(bad(token, ResolveErrorKind::NotLiteral))
    } else if end > chars.len() || start + skip > end - cut {
        Err(bad(token, ResolveErrorKind::BadSlice))
    } else {
        let text = chars.subrange(start + skip, end - cut);
        if token.kind == Kind::Number {
            match number_value(text) {
                Some(value) => Ok(LitV::Integer(value)),
                None => Err(bad(token, ResolveErrorKind::BadNumber)),
            }
        } else {
            let bytes = token.kind == Kind::LitByte || token.kind == Kind::LitByteStr;
            match units(text, 0, bytes, Seq::empty()) {
                None => Err(bad(token, ResolveErrorKind::BadText)),
                Some(codes) => if token.kind == Kind::LitStr {
                    Ok(LitV::Str(as_chars(codes)))
                } else if token.kind == Kind::LitByteStr {
                    Ok(LitV::ByteStr(as_bytes(codes)))
                } else if codes.len() != 1 {
                    Err(bad(token, ResolveErrorKind::BadLength))
                } else if token.kind == Kind::LitChar {
                    Ok(LitV::Char(codes[0] as char))
                } else {
                    Ok(LitV::Byte(codes[0] as u8))
                },
            }
        }
    }
}

/// The value of a literal expression: that of a literal, or the negative
/// of that of a negated number.
pub open spec fn resolved(expr: Expr, chars: Seq<char>) -> Result<LitV, ResolveError>
    decreases expr,
{
    match expr {
        Expr::Lit(token) => token_value(token, chars),
        Expr::Unary(op, inner) => match resolved(*inner, chars) {
            Err(error) => Err(error),
            Ok(LitV::Integer(value)) => Ok(LitV::Integer(-value)),
            Ok(_) => Err(bad(op, ResolveErrorKind::NotLiteral)),
        },
        Expr::Path(token) => Err(bad(token, ResolveErrorKind::NotLiteral)),
        Expr::Block(block) => Err(bad(block.block.open, ResolveErrorKind::NotLiteral)),
        Expr::Break(b) => Err(bad(b.break_, ResolveErrorKind::NotLiteral)),
        Expr::Return(r) => Err(bad(r.return_token, ResolveErrorKind::NotLiteral)),
        Expr::Yield(y) => Err(bad(y.yield_token, ResolveErrorKind::NotLiteral)),
        Expr::Await(a) => Err(bad(a.await_token, ResolveErrorKind::NotLiteral)),
        Expr::Vec(v) => Err(bad(v.items.open, ResolveErrorKind::NotLiteral)),
    }
}

/// Every character is a Unicode scalar value.
pub proof fn lemma_char_is_scalar(c: char)
    ensures
        is_scalar(c as int),
        c as u32 == c as int,
{
}

/// The value of `c` as a digit of the given radix.
fn digit_value(c: char, radix: u32) -> (r: Option<u32>)
    requires
        radix <= 16,
    ensures
        match digit_of(c, radix as int) {
            Some(d) => r == Some(d as u32) && 0 <= d < radix,
            None => r is None,
        },
{
    let d = if '0' <= c && c <= '9' {
        c as u32 - '0' as u32
    } else if 'a' <= c && c <= 'f' {
        c as u32 - 'a' as u32 + 10
    } else if 'A' <= c && c <= 'F' {
        c as u32 - 'A' as u32 + 10
    } else {
        radix
    };
    if d < radix {
        Some(d)
    } else {
        None
    }
}

/// The characters of `chars` from `from` to `to`.
fn slice(chars: &Vec<char>, from: usize, to: usize) -> (text: Vec<char>)
    requires
        from <= to <= chars@.len(),
    ensures
        text@ == chars@.subrange(from as int, to as int),
{
    let mut text: Vec<char> = Vec::new();
    let mut i = from;
    while i < to
        invariant
            from <= i <= to <= chars@.len(),
            text@ == chars@.subrange(from as int, i as int),
        decreases to - i,
    {
        text.push(chars[i]);
        i += 1;
        assert(text@ =~= chars@.subrange(from as int, i as int));
    }
    text
}

/// The number that the digits of `text` from `from` on stand for.
fn parse_digits(text: &Vec<char>, from: usize, radix: u32) -> (r: Option<BigInt>)
    requires
        from <= text@.len(),
        radix <= 16,
    ensures
        match digits_value(text@.subrange(from as int, text@.len() as int), radix as int) {
            Some(value) => r is Some && int_value(r->0) == value,
            None => r is None,
        },
{
    let n = text.len();
    let big_radix = from_i64(radix as i64);
    let mut value = from_i64(0);
    let mut i = from;
    assert(text@.subrange(from as int, from as int) =~= Seq::<char>::empty());
    while i < n
        invariant
            n == text@.len(),
            from <= i <= n,
            radix <= 16,
            int_value(big_radix) == radix,
            digits_value(text@.subrange(from as int, i as int), radix as int) == Some(
                int_value(value),
            ),
        decreases n - i,
    {
        let c = text[i];
        let ghost prefix = text@.subrange(from as int, i as int);
        let ghost longer = text@.subrange(from as int, i + 1);
        assert(longer.drop_last() =~= prefix);
        assert(longer.last() == c);
        if c != '_' {
            match digit_value(c, radix) {
                Some(d) => {
                    value = sum(&product(&value, &big_radix), &from_i64(d as i64));
                },
                None => {
                    proof {
                        lemma_digits_fail(text@, from as int, i + 1, radix as int);
                    }
                    return None;
                },
            }
        }
        i += 1;
    }
    assert(text@.subrange(from as int, n as int) =~= text@.subrange(
        from as int,
        text@.len() as int,
    ));
    Some(value)
}

/// Digits that are no number up to `mid` are no number however they go on.
proof fn lemma_digits_fail(text: Seq<char>, from: int, mid: int, radix: int)
    requires
        0 <= from <= mid <= text.len(),
        digits_value(text.subrange(from, mid), radix) is None,
    ensures
        digits_value(text.subrange(from, text.len() as int), radix) is None,
    decreases text.len() - mid,
{
    if mid < text.len() {
        assert(text.subrange(from, mid + 1).drop_last() =~= text.subrange(from, mid));
        lemma_digits_fail(text, from, mid + 1, radix);
    } else {
        assert(text.subrange(from, mid) =~= text.subrange(from, text.len() as int));
    }
}

/// The number that the text of a number literal stands for.
fn parse_number(text: &Vec<char>) -> (r: Option<BigInt>)
    ensures
        match number_value(text@) {
            Some(value) => r is Some && int_value(r->0) == value,
            None => r is None,
        },
{
    let n = text.len();
    if n > 2 && text[0] == '0' {
        if text[1] == 'x' {
            return parse_digits(text, 2, 16);
        } else if text[1] == 'b' {
            return parse_digits(text, 2, 2);
        } else if text[1] == 'o' {
            return parse_digits(text, 2, 8);
        }
    }
    if n == 0 {
        return None;
    }
    assert(text@.subrange(0, text@.len() as int) =~= text@);
    parse_digits(text, 0, 10)
}

/// The code of the escape `\u{..}` whose digits go on at `pos`.
fn parse_unicode(text: &Vec<char>, pos: usize) -> (r: Option<(u32, usize)>)
    requires
        pos <= text@.len(),
    ensures
        match unicode_escape(text@, pos as int, 0, 0) {
            Some((code, end)) => r == Some((code, end as usize)) && pos < end <= text@.len()
                && is_scalar(code as int),
            None => r is None,
        },
{
    let n = text.len();
    let mut at = pos;
    let mut value: u32 = 0;
    let mut count: u32 = 0;
    while at < n
        invariant
            n == text@.len(),
            pos <= at <= n,
            count <= 6,
            count == 0 ==> value == 0,
            count == 1 ==> value < 0x10,
            count == 2 ==> value < 0x100,
            count == 3 ==> value < 0x1000,
            count == 4 ==> value < 0x10000,
            count == 5 ==> value < 0x100000,
            value < 0x1000000,
            unicode_escape(text@, pos as int, 0, 0) == unicode_escape(
                text@,
                at as int,
                value as int,
                count as int,
            ),
        decreases n - at,
    {
        let c = text[at];
        if c == '}' {
            if count >= 1 && (value <= 0xD7FF || (0xE000 <= value && value <= 0x10FFFF)) {
                return Some((value, at + 1));
            } else {
                return None;
            }
        }
        if count >= 6 {
            return None;
        }
        match digit_value(c, 16) {
            Some(d) => {
                value = value * 16 + d;
                count += 1;
                at += 1;
            },
            None => {
                return None;
            },
        }
    }
    None
}

/// The code of the character or escape at `pos`.
fn parse_unit(text: &Vec<char>, pos: usize, bytes: bool) -> (r: Option<(u32, usize)>)
    requires
        pos < text@.len(),
    ensures
        match unit_at(text@, pos as int, bytes) {
            Some((code, end)) => r == Some((code, end as usize)) && pos < end <= text@.len() && (
            bytes ==> code < 256) && (!bytes ==> is_scalar(code as int)),
            None => r is None,
        },
{
    let n = text.len();
    let c = text[pos];
    proof {
        lemma_char_is_scalar(c);
    }
    if c != '\\' {
        if bytes && c as u32 >= 128 {
            return None;
        }
        return Some((c as u32, pos + 1));
    }
    if pos + 1 >= n {
        return None;
    }
    let e = text[pos + 1];
    if e == 'x' {
        if pos + 2 >= n || pos + 3 >= n {
            return None;
        }
        match (digit_value(text[pos + 2], 16), digit_value(text[pos + 3], 16)) {
            (Some(high), Some(low)) => {
                if !bytes && high >= 8 {
                    None
                } else {
                    Some((high * 16 + low, pos + 4))
                }
            },
            _ => None,
        }
    } else if e == 'u' {
        if bytes || pos + 2 >= n || text[pos + 2] != '{' {
            None
        } else {
            parse_unicode(text, pos + 3)
        }
    } else {
        let code = if e == 'n' {
            10
        } else if e == 'r' {
            13
        } else if e == 't' {
            9
        } else if e == '0' {
            0
        } else if e == '\\' {
            92
        } else if e == '\'' {
            39
        } else if e == '"' {
            34
        } else {
            return None;
        };
        Some((code, pos + 2))
    }
}

/// Whether every code can be a byte, where bytes are asked for, and a
/// character, where characters are.
pub open spec fn codes_fit(codes: Seq<u32>, bytes: bool) -> bool {
    forall|i: int|
        0 <= i < codes.len() ==> if bytes {
            #[trigger] codes[i] < 256
        } else {
            is_scalar(codes[i] as int)
        }
}

/// The codes of the characters and escapes of `text`.
fn parse_units(text: &Vec<char>, bytes: bool) -> (r: Option<Vec<u32>>)
    ensures
        match units(text@, 0, bytes, Seq::empty()) {
            Some(codes) => r is Some && r->0@ == codes && codes_fit(codes, bytes),
            None => r is None,
        },
{
    let n = text.len();
    let mut codes: Vec<u32> = Vec::new();
    let mut pos: usize = 0;
    while pos < n
        invariant
            n == text@.len(),
            pos <= n,
            units(text@, 0, bytes, Seq::empty()) == units(text@, pos as int, bytes, codes@),
            codes_fit(codes@, bytes),
        decreases n - pos,
    {
        match parse_unit(text, pos, bytes) {
            None => {
                return None;
            },
            Some((code, end)) => {
                codes.push(code);
                pos = end;
            },
        }
    }
    Some(codes)
}

/// The text of the codes, which are all Unicode scalar values.
fn text_of(codes: &Vec<u32>) -> (text: String)
    requires
        codes_fit(codes@, false),
    ensures
        text@ == as_chars(codes@),
{
    let mut text = String::new();
    let mut i: usize = 0;
    while i < codes.len()
        invariant
            i <= codes.len(),
            codes_fit(codes@, false),
            text@ == as_chars(codes@.subrange(0, i as int)),
        decreases codes.len() - i,
    {
        let ghost before = codes@.subrange(0, i as int);
        match char_from_u32(codes[i]) {
            Some(c) => {
                push_char(&mut text, c);
            },
            None => {},
        }
        i += 1;
        assert(as_chars(codes@.subrange(0, i as int)) =~= as_chars(before).push(
            codes@[i - 1] as char,
        ));
    }
    assert(codes@.subrange(0, codes@.len() as int) =~= codes@);
    text
}

/// The bytes of the codes, which are all below 256.
fn bytes_of(codes: &Vec<u32>) -> (bytes: Vec<u8>)
    requires
        codes_fit(codes@, true),
    ensures
        bytes@ == as_bytes(codes@),
{
    let mut bytes: Vec<u8> = Vec::new();
    let mut i: usize = 0;
    while i < codes.len()
        invariant
            i <= codes.len(),
            codes_fit(codes@, true),
            bytes@ == as_bytes(codes@.subrange(0, i as int)),
        decreases codes.len() - i,
    {
        let ghost before = codes@.subrange(0, i as int);
        bytes.push(codes[i] as u8);
        i += 1;
        assert(as_bytes(codes@.subrange(0, i as int)) =~= as_bytes(before).push(
            codes@[i - 1] as u8,
        ));
    }
    assert(codes@.subrange(0, codes@.len() as int) =~= codes@);
    bytes
}

impl Token {
    /// The value of a literal token of the source `chars`.
    pub fn resolve(&self, chars: &Vec<char>) -> (r: Result<LitValue, ResolveError>)
        ensures
            match token_value(*self, chars@) {
                Ok(value) => r is Ok && r->Ok_0@ == value,
                Err(error) => r == Err::<LitValue, _>(error),
            },
    {
        let start = self.span.start as usize;
        let end = self.span.end as usize;
        let (skip, cut): (usize, usize) = match self.kind {
            Kind::Number => (0, 0),
            Kind::LitStr => (1, 1),
            Kind::LitChar => (1, 1),
            Kind::LitByte => (2, 1),
            Kind::LitByteStr => (2, 1),
            _ => {
                return Err(ResolveError { span: self.span, kind: ResolveErrorKind::NotLiteral });
            },
        };
        if end > chars.len() || start > end || end - start < skip + cut {
            return Err(ResolveError { span: self.span, kind: ResolveErrorKind::BadSlice });
        }
        let text = slice(chars, start + skip, end - cut);
        match self.kind {
            Kind::Number => match parse_number(&text) {
                Some(value) => Ok(LitValue::Integer(value)),
                None => Err(ResolveError { span: self.span, kind: ResolveErrorKind::BadNumber }),
            },
            Kind::LitStr => match parse_units(&text, false) {
                Some(codes) => Ok(LitValue::Str(text_of(&codes))),
                None => Err(ResolveError { span: self.span, kind: ResolveErrorKind::BadText }),
            },
            Kind::LitByteStr => match parse_units(&text, true) {
                Some(codes) => Ok(LitValue::ByteStr(bytes_of(&codes))),
                None => Err(ResolveError { span: self.span, kind: ResolveErrorKind::BadText }),
            },
            Kind::LitChar => match parse_units(&text, false) {
                Some(codes) => {
                    if codes.len() != 1 {
                        return Err(
                            ResolveError { span: self.span, kind: ResolveErrorKind::BadLength },
                        );
                    }
                    match char_from_u32(codes[0]) {
                        Some(c) => Ok(LitValue::Char(c)),
                        None => Err(
                            ResolveError { span: self.span, kind: ResolveErrorKind::BadText },
                        ),
                    }
                },
                None => Err(ResolveError { span: self.span, kind: ResolveErrorKind::BadText }),
            },
            _ => match parse_units(&text, true) {
                Some(codes) => {
                    if codes.len() != 1 {
                        return Err(
                            ResolveError { span: self.span, kind: ResolveErrorKind::BadLength },
                        );
                    }
                    Ok(LitValue::Byte(codes[0] as u8))
                },
                None => Err(ResolveError { span: self.span, kind: ResolveErrorKind::BadText }),
            },
        }
    }
}

impl Expr {
    /// The value of a literal expression of the source `chars`: that of a
    /// literal, or the negative of that of a negated number.
    pub fn resolve(&self, chars: &Vec<char>) -> (r: Result<LitValue, ResolveError>)
        ensures
            match resolved(*self, chars@) {
                Ok(value) => r is Ok && r->Ok_0@ == value,
                Err(error) => r == Err::<LitValue, _>(error),
            },
        decreases self,
    {
        match self {
            Expr::Lit(token) => token.resolve(chars),
            Expr::Unary(op, inner) => match inner.resolve(chars) {
                Err(error) => Err(error),
                Ok(LitValue::Integer(value)) => Ok(
                    LitValue::Integer(difference(&from_i64(0), &value)),
                ),
                Ok(_) => Err(ResolveError { span: op.span, kind: ResolveErrorKind::NotLiteral }),
            },
            Expr::Path(token) => Err(
                ResolveError { span: token.span, kind: ResolveErrorKind::NotLiteral },
            ),
            Expr::Block(block) => Err(
                ResolveError { span: block.block.open.span, kind: ResolveErrorKind::NotLiteral },
            ),
            Expr::Break(b) => Err(
                ResolveError { span: b.break_.span, kind: ResolveErrorKind::NotLiteral },
            ),
            Expr::Return(r) => Err(
                ResolveError { span: r.return_token.span, kind: ResolveErrorKind::NotLiteral },
            ),
            Expr::Yield(y) => Err(
                ResolveError { span: y.yield_token.span, kind: ResolveErrorKind::NotLiteral },
            ),
            Expr::Await(a) => Err(
                ResolveError { span: a.await_token.span, kind: ResolveErrorKind::NotLiteral },
            ),
            Expr::Vec(v) => Err(
                ResolveError { span: v.items.open.span, kind: ResolveErrorKind::NotLiteral },
            ),
        }
    }
}

} // verus!
