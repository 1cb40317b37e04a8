//! The tokenizer: from source text to tokens.

use vstd::prelude::*;
use crate::text::{all_digits, chars_of, digits_value, is_digit, lemma_digits_value_prefix, string_of};
use crate::token::{LexError, Token, TokenView};

verus! {

/// A space, a newline or a tab: these separate tokens.
pub open spec fn is_space(c: char) -> bool {
    c == ' ' || c == '\n' || c == '\t'
}

/// What a scan over the source looks for.
#[derive(Debug, Clone, Copy, PartialEq, Eq, Structural)]
pub enum Stop {
    /// The end of a word: white space, a double quote or a parenthesis.
    Delimiter,
    /// The end of a number: anything but a decimal digit.
    NonDigit,
    /// The end of a line.
    Newline,
    /// A double quote.
    Quote,
}

/// Whether a scan for `kind` stops at the character `c`.
pub open spec fn stops_at(kind: Stop, c: char) -> bool {
    match kind {
        Stop::Delimiter => is_space(c) || c == '"' || c == '(' || c == ')',
        Stop::NonDigit => !is_digit(c),
        Stop::Newline => c == '\n',
        Stop::Quote => c == '"',
    }
}

/// The first position at or after `from` where a scan for `kind` stops: that
/// of the first character it stops at, or the end of the source if there is
/// none.
pub open spec fn scan(src: Seq<char>, from: int, kind: Stop) -> int
    decreases src.len() - from,
{
    if from < 0 || from >= src.len() {
        src.len() as int
    } else if stops_at(kind, src[from]) {
        from
    } else {
        scan(src, from + 1, kind)
    }
}

/// A scan ends at or after its start, within the source, at a character it
/// stops at if it ends before the end; it passes over none.
pub proof fn lemma_scan(src: Seq<char>, from: int, kind: Stop)
    requires
        0 <= from <= src.len(),
    ensures
        from <= scan(src, from, kind) <= src.len(),
        scan(src, from, kind) < src.len() ==> stops_at(kind, src[scan(src, from, kind)]),
        forall|i: int| from <= i < scan(src, from, kind) ==> !stops_at(kind, #[trigger] src[i]),
    decreases src.len() - from,
{
    if from < src.len() && !stops_at(kind, src[from]) {
        lemma_scan(src, from + 1, kind);
    }
}

/// A string literal's text with its escapes resolved: a backslash and `n`
/// become a newline, a backslash and `t` a tab, from left to right; every
/// other character stands for itself.
pub open spec fn unescape(s: Seq<char>) -> Seq<char>
    decreases s.len(),
{
    if s.len() == 0 {
        s
    } else if s.len() >= 2 && s[0] == '\\' && s[1] == 'n' {
        seq!['\n'] + unescape(s.skip(2))
    } else if s.len() >= 2 && s[0] == '\\' && s[1] == 't' {
        seq!['\t'] + unescape(s.skip(2))
    } else {
        seq![s[0]] + unescape(s.skip(1))
    }
}

/// A token in front of what the rest of the source gives.
pub open spec fn token_then(
    first: TokenView,
    rest: Result<Seq<TokenView>, LexError>,
) -> Result<Seq<TokenView>, LexError> {
    match rest {
        Ok(tokens) => Ok(seq![first] + tokens),
        Err(e) => Err(e),
    }
}

/// The tokens of the source from position `pos` on, or the first error met.
pub open spec fn lex_from(src: Seq<char>, pos: int) -> Result<Seq<TokenView>, LexError>
    decreases src.len() - pos,
{
    if pos < 0 || pos >= src.len() {
        Ok(Seq::empty())
    } else {
        let c = src[pos];
        let followed_by = |d: char| pos + 1 < src.len() && src[pos + 1] == d;
        if c == '!' && !followed_by('=') {
            token_then(TokenView::Bang, lex_from(src, pos + 1))
        } else if c == '(' {
            token_then(TokenView::LParen, lex_from(src, pos + 1))
        } else if c == ')' {
            token_then(TokenView::RParen, lex_from(src, pos + 1))
        } else if c == '/' && followed_by('/') {
            let end = scan(src, pos + 2, Stop::Newline);
            proof {
                lemma_scan(src, pos + 2, Stop::Newline);
            }
            if end < src.len() {
                lex_from(src, end + 1)
            } else {
                Ok(Seq::empty())
            }
        } else if c == '"' {
            let close = scan(src, pos + 1, Stop::Quote);
            proof {
                lemma_scan(src, pos + 1, Stop::Quote);
            }
            if close >= src.len() {
                Err(LexError::UnfinishedString)
            } else {
                token_then(
                    TokenView::Str(unescape(src.subrange(pos + 1, close))),
                    lex_from(src, close + 1),
                )
            }
        } else if is_digit(c) {
            let end = scan(src, pos + 1, Stop::NonDigit);
            proof {
                lemma_scan(src, pos + 1, Stop::NonDigit);
            }
            let value = digits_value(src.subrange(pos, end));
            if value > i64::MAX {
                Err(LexError::IntOutOfRange)
            } else {
                token_then(TokenView::Int(value as int), lex_from(src, end))
            }
        } else if is_space(c) {
            lex_from(src, pos + 1)
        } else {
            let end = scan(src, pos + 1, Stop::Delimiter);
            proof {
                lemma_scan(src, pos + 1, Stop::Delimiter);
            }
            token_then(TokenView::Ident(src.subrange(pos, end)), lex_from(src, end))
        }
    }
}

/// The tokens of a source text.
pub open spec fn tokens_of(src: Seq<char>) -> Result<Seq<TokenView>, LexError> {
    lex_from(src, 0)
}

fn stops(kind: Stop, c: char) -> (stop: bool)
    ensures
        stop == stops_at(kind, c),
{
    match kind {
        Stop::Delimiter => c == ' ' || c == '\n' || c == '\t' || c == '"' || c == '(' || c == ')',
        Stop::NonDigit => !('0' <= c && c <= '9'),
        Stop::Newline => c == '\n',
        Stop::Quote => c == '"',
    }
}

pub(crate) fn scan_to(chars: &Vec<char>, from: usize, kind: Stop) -> (end: usize)
    requires
        from <= chars.len(),
    ensures
        end == scan(chars@, from as int, kind),
        from <= end <= chars.len(),
{
    let mut end = from;
    while end < chars.len() && !stops(kind, chars[end])
        invariant
            from <= end <= chars.len(),
            scan(chars@, from as int, kind) == scan(chars@, end as int, kind),
        decreases chars.len() - end,
    {
        end = end + 1;
    }
    end
}

fn unescape_range(chars: &Vec<char>, from: usize, to: usize) -> (text: String)
    requires
        from <= to <= chars.len(),
    ensures
        text@ == unescape(chars@.subrange(from as int, to as int)),
{
    let ghost body = chars@.subrange(from as int, to as int);
    let mut text = String::new();
    let mut i = from;
    proof {
        assert(body.skip(0) =~= body);
    }
    while i < to
        invariant
            from <= i <= to <= chars.len(),
            body == chars@.subrange(from as int, to as int),
            unescape(body) == text@ + unescape(body.skip(i - from)),
        decreases to - i,
    {
        let ghost rest = body.skip(i - from);
        let ghost before = text@;
        let escaped = chars[i] == '\\' && i + 1 < to && (chars[i + 1] == 'n' || chars[i + 1] == 't');
        let c = if !escaped { chars[i] } else if chars[i + 1] == 'n' { '\n' } else { '\t' };
        let step: usize = if escaped { 2 } else { 1 };
        text.push(c);
        proof {
            assert(rest.skip(step as int) =~= body.skip(i + step - from));
            assert(before + (seq![c] + unescape(rest.skip(step as int))) =~= before.push(c)
                + unescape(rest.skip(step as int)));
        }
        i = i + step;
    }
    text
}

fn digits_to_int(chars: &Vec<char>, from: usize, to: usize) -> (value: Option<i64>)
    requires
        from <= to <= chars.len(),
        all_digits(chars@.subrange(from as int, to as int)),
    ensures
        value == (if digits_value(chars@.subrange(from as int, to as int)) <= i64::MAX {
            Some(digits_value(chars@.subrange(from as int, to as int)) as i64)
        } else {
            None
        }),
{
    let ghost digits = chars@.subrange(from as int, to as int);
    let mut acc: i64 = 0;
    let mut i = from;
    while i < to
        invariant
            from <= i <= to <= chars.len(),
            digits == chars@.subrange(from as int, to as int),
            all_digits(digits),
            acc == digits_value(digits.take(i - from)),
        decreases to - i,
    {
        let c = chars[i];
        proof {
            let k = i - from;
            assert(digits.take(k + 1).drop_last() =~= digits.take(k));
            lemma_digits_value_prefix(digits, k + 1);
        }
        let d: i64 = (c as u32 - '0' as u32) as i64;
        let next = match acc.checked_mul(10) {
            None => None,
            Some(tens) => tens.checked_add(d),
        };
        match next {
            None => {
                return None;
            },
            Some(v) => {
                acc = v;
            },
        }
        i = i + 1;
    }
    proof {
        assert(digits.take(to - from) =~= digits);
    }
    Some(acc)
}

/// What the source gives once `done` has been read and `rest` is what
/// follows.
pub open spec fn tokens_after(
    done: Seq<TokenView>,
    rest: Result<Seq<TokenView>, LexError>,
) -> Result<Seq<TokenView>, LexError> {
    match rest {
        Ok(tokens) => Ok(done + tokens),
        Err(e) => Err(e),
    }
}

proof fn lemma_tokens_after_push(
    done: Seq<TokenView>,
    first: TokenView,
    rest: Result<Seq<TokenView>, LexError>,
)
    ensures
        tokens_after(done, token_then(first, rest)) == tokens_after(done.push(first), rest),
{
    if let Ok(tokens) = rest {
        assert(done + (seq![first] + tokens) =~= done.push(first) + tokens);
    }
}

fn emit(tokens: &mut Vec<Token>, token: Token)
    ensures
        final(tokens).deep_view() == old(tokens).deep_view().push(token@),
{
    tokens.push(token);
}

/// Turns a source text into its tokens.
///
/// White space separates tokens. `//` opens a comment that runs to the end of
/// the line. `!` is a token of its own unless `=` follows it; `(` and `)`
/// always are. A double quote opens a string literal that runs to the next
/// double quote. A digit opens an integer literal, which takes the digits
/// that follow. Any other character opens a word, which runs up to the next
/// white space, double quote or parenthesis.
///
/// The first string literal left open, or integer literal too large for 64
/// signed bits, is reported in place of the tokens.
pub fn lex(src: String) -> (r: Result<Vec<Token>, LexError>)
    ensures
        match tokens_of(src@) {
            Ok(tokens) => r is Ok && r->Ok_0.deep_view() == tokens,
            Err(e) => r == Err::<Vec<Token>, LexError>(e),
        },
{
    let chars = chars_of(src.as_str());
    let mut tokens: Vec<Token> = Vec::new();
    let mut pos: usize = 0;
    while pos < chars.len()
        invariant
            pos <= chars.len(),
            chars@ == src@,
            tokens_of(src@) == tokens_after(tokens.deep_view(), lex_from(chars@, pos as int)),
        decreases chars.len() - pos,
    {
        let ghost done = tokens.deep_view();
        let c = chars[pos];
        let more = pos + 1 < chars.len();
        if c == '!' && !(more && chars[pos + 1] == '=') {
            emit(&mut tokens, Token::Bang);
            proof {
                lemma_tokens_after_push(done, TokenView::Bang, lex_from(chars@, pos + 1));
            }
            pos = pos + 1;
        } else if c == '(' {
            emit(&mut tokens, Token::LParen);
            proof {
                lemma_tokens_after_push(done, TokenView::LParen, lex_from(chars@, pos + 1));
            }
            pos = pos + 1;
        } else if c == ')' {
            emit(&mut tokens, Token::RParen);
            proof {
                lemma_tokens_after_push(done, TokenView::RParen, lex_from(chars@, pos + 1));
            }
            pos = pos + 1;
        } else if c == '/' && more && chars[pos + 1] == '/' {
            let end = scan_to(&chars, pos + 2, Stop::Newline);
            pos = if end < chars.len() { end + 1 } else { end };
        } else if c == '"' {
            let close = scan_to(&chars, pos + 1, Stop::Quote);
            if close >= chars.len() {
                return Err(LexError::UnfinishedString);
            }
            let text = unescape_range(&chars, pos + 1, close);
            proof {
                lemma_tokens_after_push(done, TokenView::Str(text@), lex_from(chars@, close + 1));
            }
            emit(&mut tokens, Token::Str(text));
            pos = close + 1;
        } else if '0' <= c && c <= '9' {
            let end = scan_to(&chars, pos + 1, Stop::NonDigit);
            proof {
                lemma_scan(chars@, pos + 1, Stop::NonDigit);
                let digits = chars@.subrange(pos as int, end as int);
                assert forall|i: int| 0 <= i < digits.len() implies is_digit(#[trigger] digits[i]) by {
                    assert(digits[i] == chars@[pos + i]);
                }
            }
            match digits_to_int(&chars, pos, end) {
                None => {
                    return Err(LexError::IntOutOfRange);
                },
                Some(value) => {
                    proof {
                        lemma_tokens_after_push(done, TokenView::Int(value as int), lex_from(chars@, end as int));
                    }
                    emit(&mut tokens, Token::Int(value));
                },
            }
            pos = end;
        } else if c == ' ' || c == '\n' || c == '\t' {
            pos = pos + 1;
        } else {
            let end = scan_to(&chars, pos + 1, Stop::Delimiter);
            let name = string_of(&chars, pos, end);
            proof {
                lemma_tokens_after_push(done, TokenView::Ident(name@), lex_from(chars@, end as int));
            }
            emit(&mut tokens, Token::Ident(name));
            pos = end;
        }
    }
    Ok(tokens)
}

/// Resolves the escapes of a string literal's text: a backslash and `n`
/// become a newline, a backslash and `t` a tab.
pub fn unquote(text: String) -> (plain: String)
    ensures
        plain@ == unescape(text@),
{
    let chars = chars_of(text.as_str());
    proof {
        assert(chars@.subrange(0, chars@.len() as int) =~= chars@);
    }
    unescape_range(&chars, 0, chars.len())
}

} // verus!
