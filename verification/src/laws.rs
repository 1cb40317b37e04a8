//! Laws of the machine: what holds of every state, proved from the
//! definitions that the contracts of the library use.

use vstd::prelude::*;
use crate::engine::{op_of, token_outcome, word_outcome, EffectView, Op};
use crate::instructions::{
    compare_outcome, copy_left_outcome, copy_right_outcome, dup_outcome, goto_if_outcome,
};
use crate::labels::{defines, label_map, lemma_last_definition_wins};
use crate::lexer::{lemma_scan, lex_from, scan, tokens_of, Stop};
use crate::fault::FaultView;
use crate::machine::Machine;
use crate::text::{all_digits, digits_value, int_text, lemma_write_then_read};
use crate::token::{LexError, TokenView};

verus! {

/// An integer that was put on a stack is the integer that is taken from it,
/// and taking it leaves the machine as it was before.
pub proof fn lemma_push_int_then_pop_int(m: Machine, value: i64)
    requires
        m.wf(),
    ensures
        m.push_int(value as int).int_at(0) == Ok::<i64, FaultView>(value),
        m.push_int(value as int).discard(1) == m,
{
    lemma_write_then_read(value);
    let pushed = m.push_int(value as int);
    assert(pushed.current().take(pushed.current().len() - 1) =~= m.current());
    assert(pushed.discard(1).stacks =~= m.stacks);
}

/// An integer literal in range is read as one token, the integer it
/// denotes; put on a stack and taken again, that integer comes back.
pub proof fn lemma_int_literal_round_trip(m: Machine, literal: Seq<char>)
    requires
        m.wf(),
        literal.len() > 0,
        all_digits(literal),
        digits_value(literal) <= i64::MAX,
    ensures
        tokens_of(literal) == Ok::<Seq<TokenView>, LexError>(
            seq![TokenView::Int(digits_value(literal) as int)],
        ),
        token_outcome(m, TokenView::Int(digits_value(literal) as int), None) == Ok::<
            (Machine, EffectView),
            FaultView,
        >((m.push_int(digits_value(literal) as int), EffectView::Continue)),
        m.push_int(digits_value(literal) as int).int_at(0) == Ok::<i64, FaultView>(
            digits_value(literal) as i64,
        ),
        m.push_int(digits_value(literal) as int).discard(1) == m,
{
    let end = scan(literal, 1, Stop::NonDigit);
    lemma_scan(literal, 1, Stop::NonDigit);
    assert(literal.subrange(0, end) =~= literal);
    assert(lex_from(literal, end) == Ok::<Seq<TokenView>, LexError>(Seq::empty()));
    assert(seq![TokenView::Int(digits_value(literal) as int)] + Seq::<TokenView>::empty() =~= seq![
        TokenView::Int(digits_value(literal) as int),
    ]);
    lemma_push_int_then_pop_int(m, digits_value(literal) as i64);
}

/// A value that is put on a stack and duplicated is equal to its copy: `==`
/// then leaves `1` where the value was put.
pub proof fn lemma_dup_then_eq(m: Machine, value: Seq<char>)
    requires
        m.wf(),
    ensures
        dup_outcome(m.push(value)) == Ok::<Machine, FaultView>(m.push(value).push(value)),
        compare_outcome(m.push(value).push(value), true) == Ok::<Machine, FaultView>(m.push_int(1)),
        m.push_int(1).at(0) == seq!['1'],
{
    let twice = m.push(value).push(value);
    assert(twice.current().take(twice.current().len() - 2) =~= m.current());
    assert(twice.discard(2).stacks =~= m.stacks);
    assert(int_text(1) =~= seq!['1']);
}

/// A move to the right and back: the cursor stands where it stood, and the
/// stacks that the row held are as they were. The row is the same unless the
/// cursor stood on its rightmost stack: then one empty stack ends it.
pub proof fn lemma_right_then_left(m: Machine)
    requires
        m.wf(),
    ensures
        m.right().wf(),
        m.right().cursor > 0,
        m.right().left().wf(),
        m.right().left().cursor == m.cursor,
        m.right().left().pc == m.pc,
        m.right().left().labels == m.labels,
        forall|i: int| 0 <= i < m.stacks.len() ==> m.right().left().stacks[i] == m.stacks[i],
        m.cursor + 1 < m.stacks.len() ==> m.right().left() == m,
        m.cursor + 1 == m.stacks.len() ==> m.right().left().stacks == m.stacks.push(Seq::empty()),
{
}

/// A move to the left, from any stack but the leftmost, and back: the
/// machine is as it was.
pub proof fn lemma_left_then_right(m: Machine)
    requires
        m.wf(),
        m.cursor > 0,
    ensures
        m.left().wf(),
        m.left().right() == m,
{
}

/// A value moved to the stack on the right and, from there, back to the
/// left: the stack it came from is as it was, with the value on top, and the
/// stack on the right holds what it held before. The row is the same unless
/// the stack on the right was new: then it stays, empty.
pub proof fn lemma_copy_right_then_copy_left(m: Machine)
    requires
        m.wf(),
        m.current().len() > 0,
    ensures
        ({
            let there = m.discard(1).right().push(m.at(0)).left();
            let back = there.right().discard(1).left().push(m.at(0)).right();
            &&& copy_right_outcome(m) == Ok::<Machine, FaultView>(there)
            &&& there.cursor == m.cursor
            &&& there.stacks[m.cursor + 1].last() == m.at(0)
            &&& copy_left_outcome(there.right()) == Ok::<Machine, FaultView>(back)
            &&& back.cursor == m.cursor + 1
            &&& back.stacks[m.cursor] == m.current()
            &&& back.stacks[m.cursor + 1] == m.right().current()
            &&& back.left().stacks == m.right().stacks
            &&& m.cursor + 1 < m.stacks.len() ==> back.left() == m
        }),
{
    let value = m.at(0);
    let there = m.discard(1).right().push(value).left();
    let over = there.right();
    assert(over.current().take(over.current().len() - 1) =~= m.right().current());
    assert(m.current().take(m.current().len() - 1).push(value) =~= m.current());
}

/// A jump to a label lands on its last definition. Where two tokens of a
/// program define `name`, `later` after `earlier`, and no token after
/// `later` does, the label table of the program gives `later` for the name.
/// So a machine with that table goes to `later`, and nowhere else, both when
/// it runs the name as a word and when it runs `goto_if` on the name with a
/// condition that is not zero.
pub proof fn lemma_jump_lands_on_last_definition(
    m: Machine,
    tokens: Seq<TokenView>,
    name: Seq<char>,
    earlier: int,
    later: int,
)
    requires
        tokens.len() <= usize::MAX,
        m.labels == label_map(tokens),
        0 <= earlier < later < tokens.len(),
        defines(tokens[earlier], name),
        defines(tokens[later], name),
        forall|after: int| later < after < tokens.len() ==> !defines(tokens[after], name),
    ensures
        label_map(tokens).contains_key(name),
        label_map(tokens)[name] == later,
        op_of(name) == Op::Call ==> word_outcome(m, name, None) == Ok::<(Machine, EffectView), FaultView>(
            (m.goto(later as usize), EffectView::Continue),
        ),
        m.text_at(0) == Ok::<Seq<char>, FaultView>(name) && m.int_at(1) is Ok && m.int_at(1)->Ok_0 != 0
            ==> goto_if_outcome(m) == Ok::<Machine, FaultView>(m.discard(2).goto(later as usize)),
{
    lemma_last_definition_wins(tokens, name, later);
}

/// A word that is no operation and defines no label is a jump to the label
/// of its name: the program counter stands at what the table gives, and
/// nothing else changes. Without such a label the word is a fault.
pub proof fn lemma_call_goes_to_label(m: Machine, word: Seq<char>, line: Option<Seq<char>>)
    requires
        op_of(word) == Op::Call,
    ensures
        m.labels.contains_key(word) ==> word_outcome(m, word, line) == Ok::<(Machine, EffectView), FaultView>(
            (m.goto(m.labels[word]), EffectView::Continue),
        ),
        !m.labels.contains_key(word) ==> word_outcome(m, word, line) == Err::<
            (Machine, EffectView),
            FaultView,
        >(FaultView::UnknownInstruction(word)),
{
}

} // verus!
