//! The instruction engine: what one token of the program does to the
//! machine, and what it asks of the host that runs the program.

use vstd::prelude::*;
use crate::instructions::{
    arith_outcome, chr_outcome, compare_outcome, concat_outcome, copy_left_outcome,
    copy_right_outcome, dup_outcome, get_outcome, goto_if_outcome, i_add, i_chr, i_concat,
    i_copy_left, i_copy_right, i_div, i_dup, i_empty, i_eq, i_get, i_goto_if, i_input, i_jump,
    i_jump_if, i_len, i_mod, i_mul, i_neq, i_pop, i_print, i_save_pc, i_sub, jump_if_outcome,
    jump_outcome, len_outcome, pop_outcome, truth, without_newline,
};
use crate::labels::{is_label_word, starts_label};
use crate::fault::{Arith, Fault, FaultView};
use crate::machine::{Machine, State};
use crate::text::{nat_text, push_nat, same_text};
use crate::token::{Token, TokenView};

verus! {

/// What a word of the program stands for.
#[derive(Debug, Clone, Copy, PartialEq, Eq, Structural)]
pub enum Op {
    Add,
    Sub,
    Mul,
    Div,
    Mod,
    Eq,
    Neq,
    CopyRight,
    CopyLeft,
    Get,
    Right,
    Left,
    Chr,
    Concat,
    Debug,
    Dup,
    Empty,
    Input,
    GotoIf,
    Jump,
    JumpIf,
    Len,
    Pop,
    Print,
    /// A word that begins with `:` defines a label and does nothing when it
    /// runs.
    Label,
    /// Any other word is a jump to the label of that name.
    Call,
}

/// The operation that a word stands for.
pub open spec fn op_of(word: Seq<char>) -> Op {
    if word == "+"@ {
        Op::Add
    } else if word == "-"@ {
        Op::Sub
    } else if word == "*"@ {
        Op::Mul
    } else if word == "/"@ {
        Op::Div
    } else if word == "%"@ {
        Op::Mod
    } else if word == "=="@ {
        Op::Eq
    } else if word == "!="@ {
        Op::Neq
    } else if word == "=>"@ {
        Op::CopyRight
    } else if word == "<="@ {
        Op::CopyLeft
    } else if word == "."@ {
        Op::Get
    } else if word == "->"@ {
        Op::Right
    } else if word == "<-"@ {
        Op::Left
    } else if word == "chr"@ {
        Op::Chr
    } else if word == "concat"@ {
        Op::Concat
    } else if word == "debug"@ {
        Op::Debug
    } else if word == "dup"@ {
        Op::Dup
    } else if word == "empty"@ {
        Op::Empty
    } else if word == "input"@ {
        Op::Input
    } else if word == "goto_if"@ {
        Op::GotoIf
    } else if word == "jump"@ {
        Op::Jump
    } else if word == "jump_if"@ {
        Op::JumpIf
    } else if word == "len"@ {
        Op::Len
    } else if word == "pop"@ {
        Op::Pop
    } else if word == "print"@ {
        Op::Print
    } else if is_label_word(word) {
        Op::Label
    } else {
        Op::Call
    }
}

/// Finds the operation that a word stands for.
pub fn decode(word: &str) -> (op: Op)
    ensures
        op == op_of(word@),
{
    if same_text(word, "+") {
        Op::Add
    } else if same_text(word, "-") {
        Op::Sub
    } else if same_text(word, "*") {
        Op::Mul
    } else if same_text(word, "/") {
        Op::Div
    } else if same_text(word, "%") {
        Op::Mod
    } else if same_text(word, "==") {
        Op::Eq
    } else if same_text(word, "!=") {
        Op::Neq
    } else if same_text(word, "=>") {
        Op::CopyRight
    } else if same_text(word, "<=") {
        Op::CopyLeft
    } else if same_text(word, ".") {
        Op::Get
    } else if same_text(word, "->") {
        Op::Right
    } else if same_text(word, "<-") {
        Op::Left
    } else if same_text(word, "chr") {
        Op::Chr
    } else if same_text(word, "concat") {
        Op::Concat
    } else if same_text(word, "debug") {
        Op::Debug
    } else if same_text(word, "dup") {
        Op::Dup
    } else if same_text(word, "empty") {
        Op::Empty
    } else if same_text(word, "input") {
        Op::Input
    } else if same_text(word, "goto_if") {
        Op::GotoIf
    } else if same_text(word, "jump") {
        Op::Jump
    } else if same_text(word, "jump_if") {
        Op::JumpIf
    } else if same_text(word, "len") {
        Op::Len
    } else if same_text(word, "pop") {
        Op::Pop
    } else if same_text(word, "print") {
        Op::Print
    } else if starts_label(word) {
        Op::Label
    } else {
        Op::Call
    }
}

/// What the host that runs the program has to do after a step.
#[derive(Debug, Clone, PartialEq, Eq)]
pub enum Effect {
    /// Nothing but to go on.
    Continue,
    /// Write the text to the standard output, as it is, and flush.
    Print(String),
    /// Write the snapshot of the machine to the diagnostic channel.
    Debug(String),
    /// Read a line from the standard input and run the step again with it:
    /// the machine has not moved.
    NeedInput,
    /// Stop: the program counter is past the last token.
    Halted,
}

/// An effect, with its text as a sequence of characters.
pub enum EffectView {
    Continue,
    Print(Seq<char>),
    Debug(Seq<char>),
    NeedInput,
    Halted,
}

impl View for Effect {
    type V = EffectView;

    open spec fn view(&self) -> EffectView {
        match *self {
            Effect::Continue => EffectView::Continue,
            Effect::Print(text) => EffectView::Print(text@),
            Effect::Debug(text) => EffectView::Debug(text@),
            Effect::NeedInput => EffectView::NeedInput,
            Effect::Halted => EffectView::Halted,
        }
    }
}

/// The text that the standard library's `Debug` formatting writes for a row
/// of stacks.
pub uninterp spec fn debug_text(row: Seq<Seq<Seq<char>>>) -> Seq<char>;

/// `format!` with `{:?}` on a row of stacks: the result is the `Debug` text
/// of the row, which the strings in the row determine.
#[verifier::external_body]
fn debug_row(row: &Vec<Vec<String>>) -> (text: String)
    ensures
        text@ == debug_text(row.deep_view()),
{
    format!("{:?}", row)
}

/// A snapshot: the program counter, the index of the active stack and the
/// text of the row, each under its name.
pub open spec fn snapshot_layout(pc: nat, cursor: nat, row: Seq<char>) -> Seq<char> {
    "{ pc: "@ + nat_text(pc) + ", current_stack: "@ + nat_text(cursor) + ", stacks: "@ + row + " }"@
}

/// The snapshot of a machine that `debug` writes.
pub open spec fn snapshot_text(m: Machine) -> Seq<char> {
    snapshot_layout(m.pc as nat, m.cursor as nat, debug_text(m.stacks))
}

/// Lays out a snapshot around the text of the row.
pub fn lay_out_snapshot(pc: usize, cursor: usize, row: &str) -> (text: String)
    ensures
        text@ == snapshot_layout(pc as nat, cursor as nat, row@),
{
    let mut text = String::from_str("{ pc: ");
    push_nat(&mut text, pc as u64);
    text.append(", current_stack: ");
    push_nat(&mut text, cursor as u64);
    text.append(", stacks: ");
    text.append(row);
    text.append(" }");
    text
}

/// Writes the snapshot of the machine.
pub fn snapshot(state: &State) -> (text: String)
    ensures
        text@ == snapshot_text(state@),
{
    proof {
        state.lemma_wf();
    }
    let row = debug_row(state.stacks());
    lay_out_snapshot(state.pc(), state.current_stack(), row.as_str())
}

/// An outcome of an operation with nothing for the host to do.
pub open spec fn quiet(outcome: Result<Machine, FaultView>) -> Result<(Machine, EffectView), FaultView> {
    match outcome {
        Ok(next) => Ok((next, EffectView::Continue)),
        Err(fault) => Err(fault),
    }
}

/// What a word does to the machine `m`, before the program counter moves
/// on, and what it asks of the host. `line` is the line of input that the
/// host has at hand, if any.
pub open spec fn word_outcome(m: Machine, word: Seq<char>, line: Option<Seq<char>>) -> Result<
    (Machine, EffectView),
    FaultView,
> {
    match op_of(word) {
        Op::Add => quiet(arith_outcome(m, Arith::Add)),
        Op::Sub => quiet(arith_outcome(m, Arith::Sub)),
        Op::Mul => quiet(arith_outcome(m, Arith::Mul)),
        Op::Div => quiet(arith_outcome(m, Arith::Div)),
        Op::Mod => quiet(arith_outcome(m, Arith::Mod)),
        Op::Eq => quiet(compare_outcome(m, true)),
        Op::Neq => quiet(compare_outcome(m, false)),
        Op::CopyRight => quiet(copy_right_outcome(m)),
        Op::CopyLeft => quiet(copy_left_outcome(m)),
        Op::Get => quiet(get_outcome(m)),
        Op::Right => Ok((m.right(), EffectView::Continue)),
        Op::Left => if m.cursor > 0 {
            Ok((m.left(), EffectView::Continue))
        } else {
            Err(FaultView::LeftmostStack)
        },
        Op::Chr => quiet(chr_outcome(m)),
        Op::Concat => quiet(concat_outcome(m)),
        Op::Debug => Ok((m, EffectView::Debug(snapshot_text(m)))),
        Op::Dup => quiet(dup_outcome(m)),
        Op::Empty => Ok((m.push_int(truth(m.current().len() == 0)), EffectView::Continue)),
        Op::Input => match line {
            Some(text) => Ok((m.push(without_newline(text)), EffectView::Continue)),
            None => Ok((m, EffectView::NeedInput)),
        },
        Op::GotoIf => quiet(goto_if_outcome(m)),
        Op::Jump => quiet(jump_outcome(m)),
        Op::JumpIf => quiet(jump_if_outcome(m)),
        Op::Len => quiet(len_outcome(m)),
        Op::Pop => quiet(pop_outcome(m)),
        Op::Print => match m.text_at(0) {
            Ok(text) => Ok((m.discard(1), EffectView::Print(text))),
            Err(fault) => Err(fault),
        },
        Op::Label => Ok((m, EffectView::Continue)),
        Op::Call => if m.labels.contains_key(word) {
            Ok((m.goto(m.labels[word]), EffectView::Continue))
        } else {
            Err(FaultView::UnknownInstruction(word))
        },
    }
}

/// What a token does to the machine `m`, before the program counter moves
/// on, and what it asks of the host.
pub open spec fn token_outcome(m: Machine, token: TokenView, line: Option<Seq<char>>) -> Result<
    (Machine, EffectView),
    FaultView,
> {
    match token {
        TokenView::LParen | TokenView::RParen => Ok((m, EffectView::Continue)),
        TokenView::Bang => Ok((m.push_int(m.pc as i64 as int), EffectView::Continue)),
        TokenView::Int(value) => Ok((m.push_int(value), EffectView::Continue)),
        TokenView::Str(text) => Ok((m.push(text), EffectView::Continue)),
        TokenView::Ident(word) => word_outcome(m, word, line),
    }
}

/// One step of a program: the machine after it, and what the step hands to
/// the host.
///
/// With the program counter past the last token the program has ended. Else
/// the token at the program counter runs. If it faults, the machine stays as
/// it was. If it needs a line of input and there is none, the machine stays
/// as it was and the host is asked for one. Else the program counter moves
/// on by one from where the token left it; where it cannot, the step faults
/// with the machine as the token left it.
pub open spec fn step_outcome(m: Machine, tokens: Seq<TokenView>, line: Option<Seq<char>>) -> (
    Machine,
    Result<EffectView, FaultView>,
) {
    if m.pc >= tokens.len() {
        (m, Ok(EffectView::Halted))
    } else {
        match token_outcome(m, tokens[m.pc as int], line) {
            Err(fault) => (m, Err(fault)),
            Ok((next, effect)) => if effect == EffectView::NeedInput {
                (m, Ok(effect))
            } else if next.pc < usize::MAX {
                (next.goto((next.pc + 1) as usize), Ok(effect))
            } else {
                (next, Err(FaultView::CounterOverflow))
            },
        }
    }
}

/// The line of input that the host has at hand, as a sequence of characters.
pub open spec fn line_view(line: Option<String>) -> Option<Seq<char>> {
    match line {
        Some(text) => Some(text@),
        None => None,
    }
}

/// Runs a word of the program, without moving the program counter on.
pub fn run_word(state: &mut State, word: &String, line: Option<String>) -> (r: Result<Effect, Fault>)
    ensures
        match word_outcome(old(state)@, word@, line_view(line)) {
            Ok((next, effect)) => r is Ok && r->Ok_0@ == effect && final(state)@ == next,
            Err(fault) => r is Err && r->Err_0@ == fault && final(state)@ == old(state)@,
        },
{
    let done = match decode(word.as_str()) {
        Op::Add => i_add(state),
        Op::Sub => i_sub(state),
        Op::Mul => i_mul(state),
        Op::Div => i_div(state),
        Op::Mod => i_mod(state),
        Op::Eq => i_eq(state),
        Op::Neq => i_neq(state),
        Op::CopyRight => i_copy_right(state),
        Op::CopyLeft => i_copy_left(state),
        Op::Get => i_get(state),
        Op::Right => {
            state.switch_to_right_stack();
            Ok(())
        },
        Op::Left => state.switch_to_left_stack(),
        Op::Chr => i_chr(state),
        Op::Concat => i_concat(state),
        Op::Debug => {
            return Ok(Effect::Debug(snapshot(state)));
        },
        Op::Dup => i_dup(state),
        Op::Empty => {
            i_empty(state);
            Ok(())
        },
        Op::Input => match line {
            Some(text) => {
                i_input(state, text);
                Ok(())
            },
            None => {
                return Ok(Effect::NeedInput);
            },
        },
        Op::GotoIf => i_goto_if(state),
        Op::Jump => i_jump(state),
        Op::JumpIf => i_jump_if(state),
        Op::Len => i_len(state),
        Op::Pop => i_pop(state),
        Op::Print => {
            return match i_print(state) {
                Ok(text) => Ok(Effect::Print(text)),
                Err(fault) => Err(fault),
            };
        },
        Op::Label => Ok(()),
        Op::Call => match state.label(word.as_str()) {
            Some(pc) => {
                state.goto(pc);
                Ok(())
            },
            None => Err(Fault::UnknownInstruction(word.clone())),
        },
    };
    proof {
        old(state).lemma_wf();
    }
    match done {
        Ok(()) => Ok(Effect::Continue),
        Err(fault) => Err(fault),
    }
}

/// Runs one step of the program `tokens`. `line` is the line of input that
/// the host has read for this step, if it has read one.
pub fn step(state: &mut State, tokens: &Vec<Token>, line: Option<String>) -> (r: Result<Effect, Fault>)
    ensures
        final(state)@ == step_outcome(old(state)@, tokens.deep_view(), line_view(line)).0,
        match step_outcome(old(state)@, tokens.deep_view(), line_view(line)).1 {
            Ok(effect) => r is Ok && r->Ok_0@ == effect,
            Err(fault) => r is Err && r->Err_0@ == fault,
        },
{
    let pc = state.pc();
    if pc >= tokens.len() {
        return Ok(Effect::Halted);
    }
    let effect = match &tokens[pc] {
        Token::LParen | Token::RParen => Effect::Continue,
        Token::Bang => {
            i_save_pc(state);
            Effect::Continue
        },
        Token::Int(value) => {
            state.push_int(*value);
            Effect::Continue
        },
        Token::Str(text) => {
            state.push_string(text.clone());
            Effect::Continue
        },
        Token::Ident(word) => match run_word(state, word, line) {
            Ok(effect) => effect,
            Err(fault) => {
                return Err(fault);
            },
        },
    };
    if let Effect::NeedInput = effect {
        return Ok(effect);
    }
    match state.pc().checked_add(1) {
        Some(next) => {
            state.goto(next);
            Ok(effect)
        },
        None => Err(Fault::CounterOverflow),
    }
}

} // verus!
