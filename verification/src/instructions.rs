//! The operations of the machine. Each one works on the active stack unless
//! it says otherwise, and either runs to its end or reports a fault and
//! leaves the machine as it was.

use vstd::prelude::*;
use vstd::string::StrSliceExecFns;
use vstd::utf8::encode_utf8;
use crate::fault::{Arith, Fault, FaultView, Wanted};
use crate::machine::{Machine, State};
use crate::text::{chars_of, string_of};

verus! {

/// `char::from_u32` gives the character with the given code, and nothing for
/// a number that is the code of no character: one from 0xD800 to 0xDFFF, or
/// one above 0x10FFFF.
pub assume_specification[ char::from_u32 ](code: u32) -> (c: Option<char>)
    ensures
        c == (if code <= 0xD7FF || (0xE000 <= code && code <= 0x10FFFF) {
            Some(code as char)
        } else {
            None::<char>
        }),
;

/// Whether a number is the code of a character.
pub open spec fn is_char_code(code: int) -> bool {
    0 <= code <= 0xD7FF || 0xE000 <= code <= 0x10FFFF
}

/// Whether an operation ran as `outcome` says: to the machine it gives, or,
/// on a fault, with that fault reported and the machine as it was.
pub open spec fn ran(before: Machine, outcome: Result<Machine, FaultView>, after: Machine, r: Result<(), Fault>) -> bool {
    match outcome {
        Ok(next) => r is Ok && after == next,
        Err(fault) => r is Err && r->Err_0@ == fault && after == before,
    }
}

/// The quotient of `x` by `y`, rounded toward zero.
pub open spec fn quotient(x: int, y: int) -> int {
    let q = (if x < 0 { -x } else { x }) / (if y < 0 { -y } else { y });
    if (x < 0) != (y < 0) { -q } else { q }
}

/// The remainder of `x` by `y` that goes with `quotient`: it has the sign of
/// `x`.
pub open spec fn remainder(x: int, y: int) -> int {
    let r = (if x < 0 { -x } else { x }) % (if y < 0 { -y } else { y });
    if x < 0 { -r } else { r }
}

/// The number itself if it fits in 64 signed bits, else an overflow of the
/// operation that made it.
pub open spec fn fitting(op: Arith, v: int) -> Result<int, FaultView> {
    if i64::MIN <= v <= i64::MAX {
        Ok(v)
    } else {
        Err(FaultView::Overflow(op))
    }
}

/// What an arithmetic operation makes of the operands `x` and `y`.
pub open spec fn arith_result(op: Arith, x: int, y: int) -> Result<int, FaultView> {
    match op {
        Arith::Add => fitting(op, x + y),
        Arith::Sub => fitting(op, x - y),
        Arith::Mul => fitting(op, x * y),
        Arith::Div => if y == 0 { Err(FaultView::DivisionByZero(op)) } else { fitting(op, quotient(x, y)) },
        Arith::Mod => if y == 0 {
            Err(FaultView::DivisionByZero(op))
        } else if x == i64::MIN && y == -1 {
            Err(FaultView::Overflow(op))
        } else {
            Ok(remainder(x, y))
        },
    }
}

/// An arithmetic operation: the top value is the right operand, the one
/// below it the left; the result takes their place.
pub open spec fn arith_outcome(m: Machine, op: Arith) -> Result<Machine, FaultView> {
    match m.int_at(0) {
        Err(fault) => Err(fault),
        Ok(y) => match m.int_at(1) {
            Err(fault) => Err(fault),
            Ok(x) => match arith_result(op, x as int, y as int) {
                Err(fault) => Err(fault),
                Ok(v) => Ok(m.discard(2).push_int(v)),
            },
        },
    }
}

fn arith(op: Arith, x: i64, y: i64) -> (r: Result<i64, Fault>)
    ensures
        match arith_result(op, x as int, y as int) {
            Ok(v) => r == Ok::<i64, Fault>(v as i64),
            Err(fault) => r is Err && r->Err_0@ == fault,
        },
{
    let value = match op {
        Arith::Add => x.checked_add(y),
        Arith::Sub => x.checked_sub(y),
        Arith::Mul => x.checked_mul(y),
        Arith::Div => {
            if y == 0 {
                return Err(Fault::DivisionByZero(op));
            }
            x.checked_div(y)
        },
        Arith::Mod => {
            if y == 0 {
                return Err(Fault::DivisionByZero(op));
            }
            x.checked_rem(y)
        },
    };
    match value {
        Some(v) => Ok(v),
        None => Err(Fault::Overflow(op)),
    }
}

fn binary(state: &mut State, op: Arith) -> (r: Result<(), Fault>)
    ensures
        ran(old(state)@, arith_outcome(old(state)@, op), final(state)@, r),
{
    let y = match state.peek_int(0) {
        Ok(y) => y,
        Err(fault) => {
            return Err(fault);
        },
    };
    let x = match state.peek_int(1) {
        Ok(x) => x,
        Err(fault) => {
            return Err(fault);
        },
    };
    match arith(op, x, y) {
        Ok(v) => {
            state.discard(2);
            state.push_int(v);
            Ok(())
        },
        Err(fault) => Err(fault),
    }
}

/// `+`: takes two integers and puts their sum.
pub fn i_add(state: &mut State) -> (r: Result<(), Fault>)
    ensures
        ran(old(state)@, arith_outcome(old(state)@, Arith::Add), final(state)@, r),
{
    binary(state, Arith::Add)
}

/// `-`: takes two integers and puts the lower one less the top one.
pub fn i_sub(state: &mut State) -> (r: Result<(), Fault>)
    ensures
        ran(old(state)@, arith_outcome(old(state)@, Arith::Sub), final(state)@, r),
{
    binary(state, Arith::Sub)
}

/// `*`: takes two integers and puts their product.
pub fn i_mul(state: &mut State) -> (r: Result<(), Fault>)
    ensures
        ran(old(state)@, arith_outcome(old(state)@, Arith::Mul), final(state)@, r),
{
    binary(state, Arith::Mul)
}

/// `/`: takes the divisor, then the dividend, and puts the dividend divided
/// by the divisor, rounded toward zero. A divisor of zero is a fault.
pub fn i_div(state: &mut State) -> (r: Result<(), Fault>)
    ensures
        ran(old(state)@, arith_outcome(old(state)@, Arith::Div), final(state)@, r),
{
    binary(state, Arith::Div)
}

/// `%`: takes the modulus, then the value, and puts the remainder of the
/// value by the modulus, with the sign of the value. A modulus of zero is a
/// fault.
pub fn i_mod(state: &mut State) -> (r: Result<(), Fault>)
    ensures
        ran(old(state)@, arith_outcome(old(state)@, Arith::Mod), final(state)@, r),
{
    binary(state, Arith::Mod)
}

/// The text of a truth value: `1` for true, `0` for false.
pub open spec fn truth(b: bool) -> int {
    if b { 1 } else { 0 }
}

/// `==` and `!=`: two strings give way to the truth of their being equal
/// (`equal`) or different (`!equal`), character by character.
pub open spec fn compare_outcome(m: Machine, equal: bool) -> Result<Machine, FaultView> {
    if m.current().len() < 2 {
        Err(FaultView::EmptyStack(Wanted::Str))
    } else {
        Ok(m.discard(2).push_int(truth((m.at(1) == m.at(0)) == equal)))
    }
}

fn compare(state: &mut State, equal: bool) -> (r: Result<(), Fault>)
    ensures
        ran(old(state)@, compare_outcome(old(state)@, equal), final(state)@, r),
{
    let same = match (state.peek_string(1), state.peek_string(0)) {
        (Ok(x), Ok(y)) => *x == *y,
        _ => {
            return Err(Fault::EmptyStack(Wanted::Str));
        },
    };
    state.discard(2);
    state.push_int(if same == equal { 1 } else { 0 });
    Ok(())
}

/// `==`: takes two strings and puts `1` if they are equal, `0` if not.
pub fn i_eq(state: &mut State) -> (r: Result<(), Fault>)
    ensures
        ran(old(state)@, compare_outcome(old(state)@, true), final(state)@, r),
{
    compare(state, true)
}

/// `!=`: takes two strings and puts `1` if they differ, `0` if not.
pub fn i_neq(state: &mut State) -> (r: Result<(), Fault>)
    ensures
        ran(old(state)@, compare_outcome(old(state)@, false), final(state)@, r),
{
    compare(state, false)
}

/// `concat`: two strings give way to the lower one followed by the top one.
pub open spec fn concat_outcome(m: Machine) -> Result<Machine, FaultView> {
    if m.current().len() < 2 {
        Err(FaultView::EmptyStack(Wanted::Str))
    } else {
        Ok(m.discard(2).push(m.at(1) + m.at(0)))
    }
}

/// `concat`: takes the end, then the start, and puts the start followed by
/// the end.
pub fn i_concat(state: &mut State) -> (r: Result<(), Fault>)
    ensures
        ran(old(state)@, concat_outcome(old(state)@), final(state)@, r),
{
    let joined = match (state.peek_string(1), state.peek_string(0)) {
        (Ok(start), Ok(end)) => start.clone().concat(end.as_str()),
        _ => {
            return Err(Fault::EmptyStack(Wanted::Str));
        },
    };
    state.discard(2);
    state.push_string(joined);
    Ok(())
}

/// `dup`: the top value lies on the stack twice.
pub open spec fn dup_outcome(m: Machine) -> Result<Machine, FaultView> {
    match m.text_at(0) {
        Err(fault) => Err(fault),
        Ok(value) => Ok(m.push(value)),
    }
}

/// `dup`: puts a second copy of the top value.
pub fn i_dup(state: &mut State) -> (r: Result<(), Fault>)
    ensures
        ran(old(state)@, dup_outcome(old(state)@), final(state)@, r),
{
    let copy = match state.peek_string(0) {
        Ok(value) => value.clone(),
        Err(fault) => {
            return Err(fault);
        },
    };
    state.push_string(copy);
    Ok(())
}

/// `empty`: puts `1` if the active stack is empty, `0` if not.
pub fn i_empty(state: &mut State)
    ensures
        final(state)@ == old(state)@.push_int(truth(old(state)@.current().len() == 0)),
{
    let empty = state.depth() == 0;
    state.push_int(if empty { 1 } else { 0 });
}

/// `pop`: the top value is gone.
pub open spec fn pop_outcome(m: Machine) -> Result<Machine, FaultView> {
    match m.text_at(0) {
        Err(fault) => Err(fault),
        Ok(_) => Ok(m.discard(1)),
    }
}

/// `pop`: takes the top value and drops it.
pub fn i_pop(state: &mut State) -> (r: Result<(), Fault>)
    ensures
        ran(old(state)@, pop_outcome(old(state)@), final(state)@, r),
{
    match state.pop_string() {
        Ok(_) => Ok(()),
        Err(fault) => Err(fault),
    }
}

/// `print`: takes the top value and hands it out, to be written to the
/// standard output as it is.
pub fn i_print(state: &mut State) -> (r: Result<String, Fault>)
    ensures
        match old(state)@.text_at(0) {
            Ok(text) => r is Ok && r->Ok_0@ == text && final(state)@ == old(state)@.discard(1),
            Err(fault) => r is Err && r->Err_0@ == fault && final(state)@ == old(state)@,
        },
{
    state.pop_string()
}

/// A line as it was read, without the newline that ends it.
pub open spec fn without_newline(line: Seq<char>) -> Seq<char> {
    if line.len() > 0 && line.last() == '\n' {
        line.drop_last()
    } else {
        line
    }
}

/// `input`: puts the line that was read from the standard input, without
/// the newline that ends it.
pub fn i_input(state: &mut State, line: String)
    ensures
        final(state)@ == old(state)@.push(without_newline(line@)),
{
    let chars = chars_of(line.as_str());
    let n = chars.len();
    if n > 0 && chars[n - 1] == '\n' {
        let text = string_of(&chars, 0, n - 1);
        state.push_string(text);
    } else {
        state.push_string(line);
    }
}

/// The number of bytes that a text takes in UTF-8, as the machine counts it.
pub open spec fn byte_len(text: Seq<char>) -> i64 {
    encode_utf8(text).len() as usize as i64
}

/// `len`: a string gives way to its length in bytes.
pub open spec fn len_outcome(m: Machine) -> Result<Machine, FaultView> {
    match m.text_at(0) {
        Err(fault) => Err(fault),
        Ok(text) => Ok(m.discard(1).push_int(byte_len(text) as int)),
    }
}

/// `len`: takes a string and puts its length in bytes.
pub fn i_len(state: &mut State) -> (r: Result<(), Fault>)
    ensures
        ran(old(state)@, len_outcome(old(state)@), final(state)@, r),
{
    let len = match state.peek_string(0) {
        Ok(text) => text.as_str().len(),
        Err(fault) => {
            return Err(fault);
        },
    };
    state.discard(1);
    state.push_int(#[verifier::truncate] (len as i64));
    Ok(())
}

/// `chr`: an integer gives way to the string of the one character with that
/// code.
pub open spec fn chr_outcome(m: Machine) -> Result<Machine, FaultView> {
    match m.int_at(0) {
        Err(fault) => Err(fault),
        Ok(code) => if is_char_code(code as int) {
            Ok(m.discard(1).push(seq![code as char]))
        } else {
            Err(FaultView::InvalidChar(code))
        },
    }
}

/// `chr`: takes an integer and puts the string of the character with that
/// code. An integer that is the code of no character is a fault.
pub fn i_chr(state: &mut State) -> (r: Result<(), Fault>)
    ensures
        ran(old(state)@, chr_outcome(old(state)@), final(state)@, r),
{
    let code = match state.peek_int(0) {
        Ok(code) => code,
        Err(fault) => {
            return Err(fault);
        },
    };
    if code < 0 || code > 0x10FFFF {
        return Err(Fault::InvalidChar(code));
    }
    match char::from_u32(code as u32) {
        Some(c) => {
            let mut out = String::new();
            out.push(c);
            state.discard(1);
            state.push_string(out);
            Ok(())
        },
        None => Err(Fault::InvalidChar(code)),
    }
}

/// `.`: an index and a string give way to the string of the one character
/// of the string at that index, counted in characters from zero.
pub open spec fn get_outcome(m: Machine) -> Result<Machine, FaultView> {
    match m.int_at(0) {
        Err(fault) => Err(fault),
        Ok(index) => match m.text_at(1) {
            Err(fault) => Err(fault),
            Ok(text) => if 0 <= index < text.len() {
                Ok(m.discard(2).push(seq![text[index as int]]))
            } else {
                Err(FaultView::IndexOutOfRange { text, index })
            },
        },
    }
}

/// `.`: takes an index, then a string, and puts the string of the character
/// at that index. An index at which the string has no character is a fault.
pub fn i_get(state: &mut State) -> (r: Result<(), Fault>)
    ensures
        ran(old(state)@, get_outcome(old(state)@), final(state)@, r),
{
    let index = match state.peek_int(0) {
        Ok(index) => index,
        Err(fault) => {
            return Err(fault);
        },
    };
    let found = match state.peek_string(1) {
        Ok(text) => {
            let count = text.as_str().unicode_len();
            if 0 <= index && (index as u64) < (count as u64) {
                Ok(text.as_str().get_char(index as usize))
            } else {
                Err(Fault::IndexOutOfRange { text: text.clone(), index })
            }
        },
        Err(fault) => Err(fault),
    };
    match found {
        Ok(c) => {
            let mut out = String::new();
            out.push(c);
            state.discard(2);
            state.push_string(out);
            Ok(())
        },
        Err(fault) => Err(fault),
    }
}

/// `=>`: the top value leaves the active stack for the top of the stack to
/// its right; the cursor stays.
pub open spec fn copy_right_outcome(m: Machine) -> Result<Machine, FaultView> {
    match m.text_at(0) {
        Err(fault) => Err(fault),
        Ok(value) => Ok(m.discard(1).right().push(value).left()),
    }
}

/// `=>`: takes the top value, puts it on the stack to the right, and comes
/// back.
pub fn i_copy_right(state: &mut State) -> (r: Result<(), Fault>)
    ensures
        ran(old(state)@, copy_right_outcome(old(state)@), final(state)@, r),
{
    let value = match state.pop_string() {
        Ok(value) => value,
        Err(fault) => {
            return Err(fault);
        },
    };
    state.switch_to_right_stack();
    state.push_string(value);
    proof {
        old(state).lemma_wf();
    }
    state.switch_to_left_stack()
}

/// `<=`: the top value leaves the active stack for the top of the stack to
/// its left; the cursor stays.
pub open spec fn copy_left_outcome(m: Machine) -> Result<Machine, FaultView> {
    match m.text_at(0) {
        Err(fault) => Err(fault),
        Ok(value) => if m.cursor > 0 {
            Ok(m.discard(1).left().push(value).right())
        } else {
            Err(FaultView::LeftmostStack)
        },
    }
}

/// `<=`: takes the top value, puts it on the stack to the left, and comes
/// back. On the leftmost stack this is a fault.
pub fn i_copy_left(state: &mut State) -> (r: Result<(), Fault>)
    ensures
        ran(old(state)@, copy_left_outcome(old(state)@), final(state)@, r),
{
    if state.depth() == 0 {
        return Err(Fault::EmptyStack(Wanted::Str));
    }
    if state.current_stack() == 0 {
        return Err(Fault::LeftmostStack);
    }
    let value = match state.pop_string() {
        Ok(value) => value,
        Err(fault) => {
            return Err(fault);
        },
    };
    let moved = state.switch_to_left_stack();
    state.push_string(value);
    state.switch_to_right_stack();
    moved
}

/// `!`: puts the program counter, as the machine counts it in 64 signed
/// bits.
pub fn i_save_pc(state: &mut State)
    ensures
        final(state)@ == old(state)@.push_int(old(state)@.pc as i64 as int),
{
    let pc = state.pc();
    state.push_int(#[verifier::truncate] (pc as i64));
}

/// The token index that a jump to the integer `target` leads to: the integer
/// itself where it is an index, else what its low bits make as one.
pub open spec fn jump_target(target: i64) -> usize {
    target as usize
}

/// `jump`: an integer gives way, and the program counter stands at it.
pub open spec fn jump_outcome(m: Machine) -> Result<Machine, FaultView> {
    match m.int_at(0) {
        Err(fault) => Err(fault),
        Ok(target) => Ok(m.discard(1).goto(jump_target(target))),
    }
}

/// `jump`: takes an integer and sets the program counter to it. The token
/// at that index does not run: the program goes on behind it.
pub fn i_jump(state: &mut State) -> (r: Result<(), Fault>)
    ensures
        ran(old(state)@, jump_outcome(old(state)@), final(state)@, r),
{
    match state.pop_int() {
        Ok(target) => {
            state.goto(#[verifier::truncate] (target as usize));
            Ok(())
        },
        Err(fault) => Err(fault),
    }
}

/// `jump_if`: a target and a condition give way, and the program counter
/// stands at the target if the condition is not zero.
pub open spec fn jump_if_outcome(m: Machine) -> Result<Machine, FaultView> {
    match m.int_at(0) {
        Err(fault) => Err(fault),
        Ok(target) => match m.int_at(1) {
            Err(fault) => Err(fault),
            Ok(condition) => if condition != 0 {
                Ok(m.discard(2).goto(jump_target(target)))
            } else {
                Ok(m.discard(2))
            },
        },
    }
}

/// `jump_if`: takes a target, then a condition, and sets the program
/// counter to the target if the condition is not zero.
pub fn i_jump_if(state: &mut State) -> (r: Result<(), Fault>)
    ensures
        ran(old(state)@, jump_if_outcome(old(state)@), final(state)@, r),
{
    let target = match state.peek_int(0) {
        Ok(target) => target,
        Err(fault) => {
            return Err(fault);
        },
    };
    let condition = match state.peek_int(1) {
        Ok(condition) => condition,
        Err(fault) => {
            return Err(fault);
        },
    };
    state.discard(2);
    if condition != 0 {
        state.goto(#[verifier::truncate] (target as usize));
    }
    Ok(())
}

/// `goto_if`: a label name and a condition give way, and the program counter
/// stands at the label if the condition is not zero.
pub open spec fn goto_if_outcome(m: Machine) -> Result<Machine, FaultView> {
    match m.text_at(0) {
        Err(fault) => Err(fault),
        Ok(label) => match m.int_at(1) {
            Err(fault) => Err(fault),
            Ok(condition) => if condition == 0 {
                Ok(m.discard(2))
            } else if m.labels.contains_key(label) {
                Ok(m.discard(2).goto(m.labels[label]))
            } else {
                Err(FaultView::UnknownLabel(label))
            },
        },
    }
}

/// `goto_if`: takes a label name, then a condition, and sets the program
/// counter to the label's position if the condition is not zero. A name
/// that the program does not define is then a fault.
pub fn i_goto_if(state: &mut State) -> (r: Result<(), Fault>)
    ensures
        ran(old(state)@, goto_if_outcome(old(state)@), final(state)@, r),
{
    let target = match state.peek_string(0) {
        Ok(label) => match state.label(label.as_str()) {
            Some(pc) => Ok(pc),
            None => Err(Fault::UnknownLabel(label.clone())),
        },
        Err(fault) => {
            return Err(fault);
        },
    };
    let condition = match state.peek_int(1) {
        Ok(condition) => condition,
        Err(fault) => {
            return Err(fault);
        },
    };
    if condition == 0 {
        state.discard(2);
        return Ok(());
    }
    match target {
        Ok(pc) => {
            state.discard(2);
            state.goto(pc);
            Ok(())
        },
        Err(fault) => Err(fault),
    }
}

} // verus!
