//! The lexer: from the characters of a source to tokens.
//!
//! Spans count characters. [`lexed`] says which tokens a source is made of;
//! [`lex`] is proved to give exactly those.

use crate::ast::{Kind, LitSource, Token};
use crate::span::Span;
use vstd::prelude::*;
use vstd::string::*;

verus! {

/// Why a source could not be split into tokens.
#[derive(Clone, Copy, Debug, PartialEq, Eq, Structural)]
pub enum LexError {
    /// No token starts with the character at this position.
    UnexpectedChar { at: usize },
    /// The literal or attribute that starts at this position is not closed.
    Unterminated { at: usize },
    /// The source has more characters than a span can count.
    TooLong,
}

/// Whether `c` separates tokens.
pub open spec fn is_space(c: char) -> bool {
    c == ' ' || c == '\n' || c == '\t' || c == '\r'
}

/// Whether `c` is a decimal digit.
pub open spec fn is_digit(c: char) -> bool {
    '0' <= c <= '9'
}

/// Whether an identifier can start with `c`.
pub open spec fn is_ident_start(c: char) -> bool {
    ('a' <= c <= 'z') || ('A' <= c <= 'Z') || c == '_'
}

/// Whether an identifier can go on with `c`.
pub open spec fn is_ident_continue(c: char) -> bool {
    is_ident_start(c) || is_digit(c)
}

/// The end of the run of identifier characters that starts at `pos`.
pub open spec fn ident_end(chars: Seq<char>, pos: int) -> int
    decreases chars.len() - pos,
{
    if 0 <= pos < chars.len() && is_ident_continue(chars[pos]) {
        ident_end(chars, pos + 1)
    } else {
        pos
    }
}

/// The position after the quote that closes the text that goes on at `pos`.
/// A character after a backslash closes nothing.
pub open spec fn quoted_end(chars: Seq<char>, pos: int, quote: char) -> Option<int>
    decreases chars.len() - pos,
{
    if pos < 0 || pos >= chars.len() {
        None
    } else if chars[pos] == quote {
        Some(pos + 1)
    } else if chars[pos] == '\\' {
        if pos + 1 < chars.len() {
            quoted_end(chars, pos + 2, quote)
        } else {
            None
        }
    } else {
        quoted_end(chars, pos + 1, quote)
    }
}

/// The position after the first `]` at or after `pos`.
pub open spec fn bracket_end(chars: Seq<char>, pos: int) -> Option<int>
    decreases chars.len() - pos,
{
    if pos < 0 || pos >= chars.len() {
        None
    } else if chars[pos] == ']' {
        Some(pos + 1)
    } else {
        bracket_end(chars, pos + 1)
    }
}

/// The kind of the word from `pos` to `end`: a keyword or an identifier.
pub open spec fn word_kind(chars: Seq<char>, pos: int, end: int) -> Kind {
    let word = chars.subrange(pos, end);
    if word == seq!['f', 'n'] {
        Kind::Fn
    } else if word == seq!['b', 'r', 'e', 'a', 'k'] {
        Kind::Break
    } else if word == seq!['a', 'w', 'a', 'i', 't'] {
        Kind::Await
    } else if word == seq!['y', 'i', 'e', 'l', 'd'] {
        Kind::Yield
    } else if word == seq!['r', 'e', 't', 'u', 'r', 'n'] {
        Kind::Return
    } else {
        Kind::Ident
    }
}

/// The kind and the end of the literal that an opening quote at `open`
/// starts, with its text going on at `pos`.
pub open spec fn quoted(chars: Seq<char>, open: int, pos: int, quote: char, kind: Kind) -> Result<
    (Kind, int),
    LexError,
> {
    match quoted_end(chars, pos, quote) {
        Some(end) => Ok((kind, end)),
        None => Err(LexError::Unterminated { at: open as usize }),
    }
}

/// The kind and the end of the token that starts at `pos`, where a
/// character stands that is no space.
pub open spec fn token_at(chars: Seq<char>, pos: int, source_id: usize) -> Result<
    (Kind, int),
    LexError,
> {
    let c = chars[pos];
    if c == '{' {
        Ok((Kind::Open, pos + 1))
    } else if c == '}' {
        Ok((Kind::Close, pos + 1))
    } else if c == '(' {
        Ok((Kind::OpenParen, pos + 1))
    } else if c == ')' {
        Ok((Kind::CloseParen, pos + 1))
    } else if c == '[' {
        Ok((Kind::OpenBracket, pos + 1))
    } else if c == ']' {
        Ok((Kind::CloseBracket, pos + 1))
    } else if c == ';' {
        Ok((Kind::SemiColon, pos + 1))
    } else if c == ',' {
        Ok((Kind::Comma, pos + 1))
    } else if c == '.' {
        Ok((Kind::Dot, pos + 1))
    } else if c == '-' {
        Ok((Kind::Dash, pos + 1))
    } else if c == '#' {
        if pos + 1 < chars.len() && chars[pos + 1] == '[' {
            match bracket_end(chars, pos + 2) {
                Some(end) => Ok((Kind::Attribute, end)),
                None => Err(LexError::Unterminated { at: pos as usize }),
            }
        } else {
            Err(LexError::UnexpectedChar { at: pos as usize })
        }
    } else if c == '"' {
        quoted(chars, pos, pos + 1, '"', Kind::LitStr)
    } else if c == 'b' && pos + 1 < chars.len() && chars[pos + 1] == '"' {
        quoted(chars, pos, pos + 2, '"', Kind::LitByteStr)
    } else if c == 'b' && pos + 1 < chars.len() && chars[pos + 1] == '\'' {
        quoted(chars, pos, pos + 2, '\'', Kind::LitByte)
    } else if c == '\'' {
        if pos + 1 < chars.len() && chars[pos + 1] == '\\' {
            quoted(chars, pos, pos + 1, '\'', Kind::LitChar)
        } else if pos + 2 < chars.len() && chars[pos + 1] != '\'' && chars[pos + 2] == '\'' {
            Ok((Kind::LitChar, pos + 3))
        } else if pos + 1 < chars.len() && is_ident_start(chars[pos + 1]) {
            Ok((Kind::Label(LitSource::Text(source_id)), ident_end(chars, pos + 1)))
        } else {
            Err(LexError::UnexpectedChar { at: pos as usize })
        }
    } else if is_digit(c) {
        Ok((Kind::Number, ident_end(chars, pos)))
    } else if is_ident_start(c) {
        Ok((word_kind(chars, pos, ident_end(chars, pos)), ident_end(chars, pos)))
    } else {
        Err(LexError::UnexpectedChar { at: pos as usize })
    }
}

/// The tokens of the source from `pos` on, added to `tokens`.
pub open spec fn lexed(chars: Seq<char>, pos: int, source_id: usize, tokens: Seq<Token>) -> Result<
    Seq<Token>,
    LexError,
>
    decreases chars.len() - pos,
{
    if pos < 0 || pos >= chars.len() {
        Ok(tokens)
    } else if is_space(chars[pos]) {
        lexed(chars, pos + 1, source_id, tokens)
    } else {
        match token_at(chars, pos, source_id) {
            Err(error) => Err(error),
            Ok((kind, end)) => if end <= pos || end > chars.len() {
                Err(LexError::UnexpectedChar { at: pos as usize })
            } else {
                lexed(
                    chars,
                    end,
                    source_id,
                    tokens.push(
                        Token { span: Span { start: pos as u32, end: end as u32 }, kind },
                    ),
                )
            },
        }
    }
}

/// The characters of `text`.
pub fn chars_of(text: &str) -> (chars: Vec<char>)
    ensures
        chars@ == text@,
{
    let n = text.unicode_len();
    let mut chars: Vec<char> = Vec::new();
    let mut i: usize = 0;
    while i < n
        invariant
            n == text@.len(),
            i <= n,
            chars@ == text@.subrange(0, i as int),
        decreases n - i,
    {
        chars.push(text.get_char(i));
        i += 1;
        assert(chars@ =~= text@.subrange(0, i as int));
    }
    assert(chars@ =~= text@);
    chars
}

fn space(c: char) -> (b: bool)
    ensures
        b == is_space(c),
{
    c == ' ' || c == '\n' || c == '\t' || c == '\r'
}

fn digit(c: char) -> (b: bool)
    ensures
        b == is_digit(c),
{
    '0' <= c && c <= '9'
}

fn ident_start(c: char) -> (b: bool)
    ensures
        b == is_ident_start(c),
{
    ('a' <= c && c <= 'z') || ('A' <= c && c <= 'Z') || c == '_'
}

fn scan_ident(chars: &Vec<char>, pos: usize) -> (end: usize)
    requires
        pos <= chars@.len(),
    ensures
        end == ident_end(chars@, pos as int),
        pos <= end <= chars@.len(),
        pos < chars@.len() && is_ident_continue(chars@[pos as int]) ==> pos < end,
{
    let mut at = pos;
    while at < chars.len() && (ident_start(chars[at]) || digit(chars[at]))
        invariant
            pos <= at <= chars@.len(),
            ident_end(chars@, pos as int) == ident_end(chars@, at as int),
        decreases chars@.len() - at,
    {
        at += 1;
    }
    proof {
        if pos < chars@.len() && is_ident_continue(chars@[pos as int]) {
            assert(ident_end(chars@, pos as int) == ident_end(chars@, pos + 1));
            lemma_ident_end(chars@, pos + 1);
        }
    }
    at
}

/// A run of identifier characters ends at or after its start.
proof fn lemma_ident_end(chars: Seq<char>, pos: int)
    requires
        0 <= pos <= chars.len(),
    ensures
        pos <= ident_end(chars, pos) <= chars.len(),
    decreases chars.len() - pos,
{
    if pos < chars.len() && is_ident_continue(chars[pos]) {
        lemma_ident_end(chars, pos + 1);
    }
}

fn scan_quoted(chars: &Vec<char>, pos: usize, quote: char) -> (r: Option<usize>)
    requires
        pos <= chars@.len(),
    ensures
        match quoted_end(chars@, pos as int, quote) {
            Some(end) => r == Some(end as usize) && pos < end <= chars@.len(),
            None => r is None,
        },
{
    let n = chars.len();
    let mut at = pos;
    while at < n
        invariant
            n == chars@.len(),
            pos <= at,
            quoted_end(chars@, pos as int, quote) == quoted_end(chars@, at as int, quote),
        decreases n - at,
    {
        let c = chars[at];
        if c == quote {
            return Some(at + 1);
        }
        if c == '\\' {
            if at + 1 < n {
                at += 2;
            } else {
                return None;
            }
        } else {
            at += 1;
        }
    }
    None
}

fn scan_bracket(chars: &Vec<char>, pos: usize) -> (r: Option<usize>)
    requires
        pos <= chars@.len(),
    ensures
        match bracket_end(chars@, pos as int) {
            Some(end) => r == Some(end as usize) && pos < end <= chars@.len(),
            None => r is None,
        },
{
    let n = chars.len();
    let mut at = pos;
    while at < n
        invariant
            n == chars@.len(),
            pos <= at <= n,
            bracket_end(chars@, pos as int) == bracket_end(chars@, at as int),
        decreases n - at,
    {
        if chars[at] == ']' {
            return Some(at + 1);
        }
        at += 1;
    }
    None
}

fn scan_literal(chars: &Vec<char>, open: usize, pos: usize, quote: char, kind: Kind) -> (r: Result<
    (Kind, usize),
    LexError,
>)
    requires
        open < pos <= chars@.len(),
    ensures
        match quoted(chars@, open as int, pos as int, quote, kind) {
            Ok((kind, end)) => r == Ok::<(Kind, usize), LexError>((kind, end as usize)) && open
                < end <= chars@.len(),
            Err(error) => r == Err::<(Kind, usize), _>(error),
        },
{
    match scan_quoted(chars, pos, quote) {
        Some(end) => Ok((kind, end)),
        None => Err(LexError::Unterminated { at: open }),
    }
}

fn keyword(chars: &Vec<char>, pos: usize, end: usize) -> (kind: Kind)
    requires
        pos <= end <= chars@.len(),
    ensures
        kind == word_kind(chars@, pos as int, end as int),
{
    let ghost word = chars@.subrange(pos as int, end as int);
    if end - pos == 2 && chars[pos] == 'f' && chars[pos + 1] == 'n' {
        assert(word =~= seq!['f', 'n']);
        Kind::Fn
    } else if end - pos == 5 && chars[pos] == 'b' && chars[pos + 1] == 'r' && chars[pos + 2] == 'e'
        && chars[pos + 3] == 'a' && chars[pos + 4] == 'k' {
        assert(word =~= seq!['b', 'r', 'e', 'a', 'k']);
        Kind::Break
    } else if end - pos == 5 && chars[pos] == 'a' && chars[pos + 1] == 'w' && chars[pos + 2] == 'a'
        && chars[pos + 3] == 'i' && chars[pos + 4] == 't' {
        assert(word =~= seq!['a', 'w', 'a', 'i', 't']);
        assert(word[0] != 'b');
        Kind::Await
    } else if end - pos == 5 && chars[pos] == 'y' && chars[pos + 1] == 'i' && chars[pos + 2] == 'e'
        && chars[pos + 3] == 'l' && chars[pos + 4] == 'd' {
        assert(word =~= seq!['y', 'i', 'e', 'l', 'd']);
        assert(word[0] != 'b' && word[0] != 'a');
        Kind::Yield
    } else if end - pos == 6 && chars[pos] == 'r' && chars[pos + 1] == 'e' && chars[pos + 2] == 't'
        && chars[pos + 3] == 'u' && chars[pos + 4] == 'r' && chars[pos + 5] == 'n' {
        assert(word =~= seq!['r', 'e', 't', 'u', 'r', 'n']);
        assert(word.len() == 6);
        Kind::Return
    } else {
        proof {
            if word == seq!['f', 'n'] {
                assert(word.len() == 2 && word[0] == 'f' && word[1] == 'n');
            }
            if word == seq!['b', 'r', 'e', 'a', 'k'] {
                assert(word.len() == 5 && word[0] == 'b' && word[1] == 'r' && word[2] == 'e'
                    && word[3] == 'a' && word[4] == 'k');
            }
            if word == seq!['a', 'w', 'a', 'i', 't'] {
                assert(word.len() == 5 && word[0] == 'a' && word[1] == 'w' && word[2] == 'a'
                    && word[3] == 'i' && word[4] == 't');
            }
            if word == seq!['y', 'i', 'e', 'l', 'd'] {
                assert(word.len() == 5 && word[0] == 'y' && word[1] == 'i' && word[2] == 'e'
                    && word[3] == 'l' && word[4] == 'd');
            }
            if word == seq!['r', 'e', 't', 'u', 'r', 'n'] {
                assert(word.len() == 6 && word[0] == 'r' && word[1] == 'e' && word[2] == 't'
                    && word[3] == 'u' && word[4] == 'r' && word[5] == 'n');
            }
        }
        Kind::Ident
    }
}

fn lex_token(
    chars: &Vec<char>,
    pos: usize,
    source_id: usize,
) -> (r: Result<(Kind, usize), LexError>)
    requires
        pos < chars@.len(),
    ensures
        match token_at(chars@, pos as int, source_id) {
            Ok((kind, end)) => r == Ok::<(Kind, usize), LexError>((kind, end as usize)) && pos
                < end <= chars@.len(),
            Err(error) => r == Err::<(Kind, usize), _>(error),
        },
{
    let n = chars.len();
    let c = chars[pos];
    if c == '{' {
        Ok((Kind::Open, pos + 1))
    } else if c == '}' {
        Ok((Kind::Close, pos + 1))
    } else if c == '(' {
        Ok((Kind::OpenParen, pos + 1))
    } else if c == ')' {
        Ok((Kind::CloseParen, pos + 1))
    } else if c == '[' {
        Ok((Kind::OpenBracket, pos + 1))
    } else if c == ']' {
        Ok((Kind::CloseBracket, pos + 1))
    } else if c == ';' {
        Ok((Kind::SemiColon, pos + 1))
    } else if c == ',' {
        Ok((Kind::Comma, pos + 1))
    } else if c == '.' {
        Ok((Kind::Dot, pos + 1))
    } else if c == '-' {
        Ok((Kind::Dash, pos + 1))
    } else if c == '#' {
        if pos + 1 < n && chars[pos + 1] == '[' {
            match scan_bracket(chars, pos + 2) {
                Some(end) => Ok((Kind::Attribute, end)),
                None => Err(LexError::Unterminated { at: pos }),
            }
        } else {
            Err(LexError::UnexpectedChar { at: pos })
        }
    } else if c == '"' {
        scan_literal(chars, pos, pos + 1, '"', Kind::LitStr)
    } else if c == 'b' && pos + 1 < n && chars[pos + 1] == '"' {
        scan_literal(chars, pos, pos + 2, '"', Kind::LitByteStr)
    } else if c == 'b' && pos + 1 < n && chars[pos + 1] == '\'' {
        scan_literal(chars, pos, pos + 2, '\'', Kind::LitByte)
    } else if c == '\'' {
        if pos + 1 < n && chars[pos + 1] == '\\' {
            scan_literal(chars, pos, pos + 1, '\'', Kind::LitChar)
        } else if pos + 1 < n && pos + 2 < n && chars[pos + 1] != '\'' && chars[pos + 2] == '\'' {
            Ok((Kind::LitChar, pos + 3))
        } else if pos + 1 < n && ident_start(chars[pos + 1]) {
            Ok((Kind::Label(LitSource::Text(source_id)), scan_ident(chars, pos + 1)))
        } else {
            Err(LexError::UnexpectedChar { at: pos })
        }
    } else if digit(c) {
        Ok((Kind::Number, scan_ident(chars, pos)))
    } else if ident_start(c) {
        let end = scan_ident(chars, pos);
        Ok((keyword(chars, pos, end), end))
    } else {
        Err(LexError::UnexpectedChar { at: pos })
    }
}

/// Splits the source into tokens. Labels are marked as coming from the
/// source `source_id`.
pub fn lex(chars: &Vec<char>, source_id: usize) -> (r: Result<Vec<Token>, LexError>)
    ensures
        chars@.len() > u32::MAX ==> r == Err::<Vec<Token>, _>(LexError::TooLong),
        chars@.len() <= u32::MAX ==> match lexed(chars@, 0, source_id, Seq::empty()) {
            Ok(tokens) => r is Ok && r->Ok_0@ == tokens,
            Err(error) => r == Err::<Vec<Token>, _>(error),
        },
{
    let n = chars.len();
    if n > 0xffff_ffff {
        return Err(LexError::TooLong);
    }
    let mut tokens: Vec<Token> = Vec::new();
    let mut pos: usize = 0;
    while pos < n
        invariant
            n == chars@.len(),
            n <= u32::MAX,
            pos <= n,
            lexed(chars@, 0, source_id, Seq::empty())
                == lexed(chars@, pos as int, source_id, tokens@),
        decreases n - pos,
    {
        if space(chars[pos]) {
            pos += 1;
        } else {
            match lex_token(chars, pos, source_id) {
                Err(error) => {
                    return Err(error);
                },
                Ok((kind, end)) => {
                    tokens.push(Token { span: Span { start: pos as u32, end: end as u32 }, kind });
                    pos = end;
                },
            }
        }
    }
    Ok(tokens)
}

} // verus!
