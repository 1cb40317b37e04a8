//! Text as the machine sees it: every value on a stack is a string, and an
//! integer is the string of its decimal digits.

use vstd::prelude::*;
use vstd::std_specs::iter::IteratorSpec;

verus! {

/// `String::push` appends one character to the end of the string.
pub assume_specification[ String::push ](s: &mut String, c: char)
    ensures
        final(s)@ == old(s)@.push(c),
;

/// One of the ten decimal digits.
pub open spec fn is_digit(c: char) -> bool {
    '0' <= c && c <= '9'
}

/// The number a decimal digit stands for.
pub open spec fn digit_value(c: char) -> nat {
    (c as int - '0' as int) as nat
}

/// The decimal digit that stands for `d`, for `d` below ten.
pub open spec fn digit_char(d: nat) -> char {
    ('0' as int + d) as char
}

/// Every character of `s` is a decimal digit.
pub open spec fn all_digits(s: Seq<char>) -> bool {
    forall|i: int| 0 <= i < s.len() ==> is_digit(#[trigger] s[i])
}

/// The number that a run of decimal digits denotes, the leftmost digit
/// weighing most. The empty run denotes zero.
pub open spec fn digits_value(s: Seq<char>) -> nat
    decreases s.len(),
{
    if s.len() == 0 {
        0
    } else {
        digits_value(s.drop_last()) * 10 + digit_value(s.last())
    }
}

/// The decimal digits of a natural number, without leading zeros.
pub open spec fn nat_text(n: nat) -> Seq<char>
    decreases n,
{
    if n < 10 {
        seq![digit_char(n)]
    } else {
        nat_text(n / 10).push(digit_char(n % 10))
    }
}

/// The canonical text of an integer: its decimal digits, after a minus sign
/// when it is negative.
pub open spec fn int_text(v: int) -> Seq<char> {
    if v < 0 {
        seq!['-'] + nat_text((-v) as nat)
    } else {
        nat_text(v as nat)
    }
}

/// The integer that a text denotes, if it denotes one that fits in 64 signed
/// bits: an optional `+` or `-`, then at least one decimal digit and nothing
/// else. Leading zeros are accepted.
pub open spec fn text_int(s: Seq<char>) -> Option<i64> {
    let signed = s.len() > 0 && (s[0] == '-' || s[0] == '+');
    let body = if signed { s.skip(1) } else { s };
    let magnitude = digits_value(body) as int;
    let value = if s.len() > 0 && s[0] == '-' { -magnitude } else { magnitude };
    if body.len() > 0 && all_digits(body) && i64::MIN <= value <= i64::MAX {
        Some(value as i64)
    } else {
        None
    }
}

/// A run of digits denotes at least what any of its prefixes denotes.
pub proof fn lemma_digits_value_prefix(s: Seq<char>, k: int)
    requires
        0 <= k <= s.len(),
    ensures
        digits_value(s.take(k)) <= digits_value(s),
    decreases s.len(),
{
    if k == s.len() {
        assert(s.take(k) =~= s);
    } else {
        lemma_digits_value_prefix(s.drop_last(), k);
        assert(s.drop_last().take(k) =~= s.take(k));
    }
}

/// The digits written for a natural number are digits, at least one of them,
/// and denote that number.
pub proof fn lemma_nat_text_denotes(n: nat)
    ensures
        nat_text(n).len() > 0,
        all_digits(nat_text(n)),
        digits_value(nat_text(n)) == n,
    decreases n,
{
    if n < 10 {
        let s = nat_text(n);
        assert(digits_value(s.drop_last()) == 0);
    } else {
        lemma_nat_text_denotes(n / 10);
        let s = nat_text(n);
        assert(s.drop_last() =~= nat_text(n / 10));
    }
}

/// Writing an integer and reading the text back gives the integer again.
pub proof fn lemma_write_then_read(value: i64)
    ensures
        text_int(int_text(value as int)) == Some(value),
{
    let s = int_text(value as int);
    if value < 0 {
        let digits = nat_text((-value) as nat);
        lemma_nat_text_denotes((-value) as nat);
        assert(s.skip(1) =~= digits);
    } else {
        lemma_nat_text_denotes(value as nat);
    }
}

/// Reads a text as a signed 64-bit integer, as the machine does whenever an
/// instruction takes an integer from a stack.
pub fn parse_int(text: &str) -> (r: Option<i64>)
    ensures
        r == text_int(text@),
{
    let mut it = text.chars();
    let mut negative = false;
    let mut any = false;
    let mut acc: i64 = 0;
    let ghost mut body = text@;
    let ghost mut k: int = 0;
    match it.next() {
        None => {
            return None;
        },
        Some(c) => {
            if c == '-' || c == '+' {
                negative = c == '-';
                proof {
                    body = text@.skip(1);
                }
            } else if '0' <= c && c <= '9' {
                acc = (c as u32 - '0' as u32) as i64;
                any = true;
                proof {
                    k = 1;
                    assert(digits_value(body.take(1).drop_last()) == 0);
                }
            } else {
                return None;
            }
        },
    }
    loop
        invariant
            text@.len() > 0,
            negative ==> text@[0] == '-',
            !negative ==> text@[0] != '-',
            body == (if text@[0] == '-' || text@[0] == '+' { text@.skip(1) } else { text@ }),
            0 <= k <= body.len(),
            body.skip(k) == it.remaining(),
            all_digits(body.take(k)),
            any == (k > 0),
            acc == (if negative { -(digits_value(body.take(k)) as int) } else { digits_value(body.take(k)) as int }),
            it.decrease() is Some,
        ensures
            k == body.len(),
        decreases it.decrease()->0,
    {
        match it.next() {
            None => {
                break;
            },
            Some(c) => {
                proof {
                    assert(body.take(k + 1).drop_last() =~= body.take(k));
                    lemma_digits_value_prefix(body, k + 1);
                }
                if !('0' <= c && c <= '9') {
                    return None;
                }
                let d: i64 = (c as u32 - '0' as u32) as i64;
                let next = match acc.checked_mul(10) {
                    None => None,
                    Some(tens) => if negative { tens.checked_sub(d) } else { tens.checked_add(d) },
                };
                match next {
                    None => {
                        return None;
                    },
                    Some(v) => {
                        acc = v;
                        any = true;
                        proof {
                            k = k + 1;
                        }
                    },
                }
            },
        }
    }
    proof {
        assert(body.take(k) =~= body);
    }
    if any { Some(acc) } else { None }
}

/// Appends the decimal digits of `n` to `text`.
pub fn push_nat(text: &mut String, n: u64)
    ensures
        final(text)@ == old(text)@ + nat_text(n as nat),
{
    let mut rest: u64 = n / 10;
    let mut digits: Vec<char> = Vec::new();
    digits.push((('0' as u8) + (n % 10) as u8) as char);
    let ghost mut tail: Seq<char> = seq![digit_char((n % 10) as nat)];
    while rest > 0
        invariant
            nat_text(n as nat) == (if rest > 0 { nat_text(rest as nat) } else { Seq::<char>::empty() }) + tail,
            tail.len() == digits.len(),
            forall|i: int| 0 <= i < tail.len() ==> #[trigger] tail[i] == digits[digits.len() - 1 - i],
        decreases rest,
    {
        let c = (('0' as u8) + (rest % 10) as u8) as char;
        proof {
            tail = seq![c] + tail;
        }
        digits.push(c);
        rest = rest / 10;
    }
    let mut left: usize = digits.len();
    while left > 0
        invariant
            left <= digits.len(),
            tail.len() == digits.len(),
            forall|i: int| 0 <= i < tail.len() ==> #[trigger] tail[i] == digits[digits.len() - 1 - i],
            text@ == old(text)@ + tail.take(digits.len() - left),
        decreases left,
    {
        left = left - 1;
        text.push(digits[left]);
    }
}

/// Writes a signed 64-bit integer as its canonical text, as the machine does
/// whenever an instruction puts an integer on a stack.
pub fn format_int(value: i64) -> (text: String)
    ensures
        text@ == int_text(value as int),
{
    let mut text = String::new();
    if value < 0 {
        text.push('-');
        push_nat(&mut text, (-(value + 1)) as u64 + 1);
    } else {
        push_nat(&mut text, value as u64);
    }
    text
}

/// Whether two texts hold the same characters.
pub fn same_text(a: &str, b: &str) -> (same: bool)
    ensures
        same == (a@ == b@),
{
    let mut left = a.chars();
    let mut right = b.chars();
    let ghost mut k: int = 0;
    loop
        invariant
            0 <= k <= a@.len(),
            k <= b@.len(),
            a@.take(k) == b@.take(k),
            a@.skip(k) == left.remaining(),
            b@.skip(k) == right.remaining(),
            left.decrease() is Some,
        decreases left.decrease()->0,
    {
        let x = left.next();
        let y = right.next();
        match (x, y) {
            (None, None) => {
                proof {
                    assert(a@.take(k) =~= a@);
                    assert(b@.take(k) =~= b@);
                }
                return true;
            },
            (Some(c), Some(d)) => {
                if c != d {
                    return false;
                }
                proof {
                    k = k + 1;
                }
            },
            _ => {
                return false;
            },
        }
    }
}

/// The characters of a text, one element each.
pub fn chars_of(text: &str) -> (chars: Vec<char>)
    ensures
        chars@ == text@,
{
    let mut it = text.chars();
    let mut chars: Vec<char> = Vec::new();
    loop
        invariant
            chars@ + it.remaining() == text@,
            it.decrease() is Some,
        ensures
            it.remaining().len() == 0,
        decreases it.decrease()->0,
    {
        match it.next() {
            Some(c) => {
                chars.push(c);
            },
            None => {
                break;
            },
        }
    }
    chars
}

/// The text made of the characters from `from` up to `to`.
pub(crate) fn string_of(chars: &Vec<char>, from: usize, to: usize) -> (text: String)
    requires
        from <= to <= chars.len(),
    ensures
        text@ == chars@.subrange(from as int, to as int),
{
    let mut text = String::new();
    let mut i = from;
    while i < to
        invariant
            from <= i <= to <= chars.len(),
            text@ == chars@.subrange(from as int, i as int),
        decreases to - i,
    {
        text.push(chars[i]);
        i = i + 1;
    }
    text
}

} // verus!
