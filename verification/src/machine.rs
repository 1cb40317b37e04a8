//! The machine: a program counter, a row of value stacks with a cursor, and
//! the label table of the program.

use vstd::prelude::*;
use crate::fault::{Fault, FaultView, Wanted};
use crate::labels::LabelTable;
use crate::text::{format_int, int_text, parse_int, text_int};

verus! {

/// The machine as a mathematical value: the contracts of the library speak
/// of this.
pub struct Machine {
    /// The index of the token that runs next.
    pub pc: usize,
    /// The index of the active stack in the row.
    pub cursor: int,
    /// The row of stacks, the leftmost first; in each stack the top is last.
    pub stacks: Seq<Seq<Seq<char>>>,
    /// The label table of the program.
    pub labels: Map<Seq<char>, usize>,
}

impl Machine {
    /// The cursor points at a stack of the row.
    pub open spec fn wf(self) -> bool {
        0 <= self.cursor < self.stacks.len()
    }

    /// The active stack.
    pub open spec fn current(self) -> Seq<Seq<char>> {
        self.stacks[self.cursor]
    }

    /// The value that lies `depth` values below the top of the active stack.
    pub open spec fn at(self, depth: int) -> Seq<char> {
        self.current()[self.current().len() - 1 - depth]
    }

    /// The machine with `stack` in place of the active stack.
    pub open spec fn with_current(self, stack: Seq<Seq<char>>) -> Machine {
        Machine { stacks: self.stacks.update(self.cursor, stack), ..self }
    }

    /// The machine with `value` on top of the active stack.
    pub open spec fn push(self, value: Seq<char>) -> Machine {
        self.with_current(self.current().push(value))
    }

    /// The machine with the text of `value` on top of the active stack.
    pub open spec fn push_int(self, value: int) -> Machine {
        self.push(int_text(value))
    }

    /// The machine without the top `n` values of the active stack.
    pub open spec fn discard(self, n: int) -> Machine {
        self.with_current(self.current().take(self.current().len() - n))
    }

    /// The machine with the cursor one stack to the right; a new empty stack
    /// ends the row if the cursor stood on the rightmost one.
    pub open spec fn right(self) -> Machine {
        Machine {
            cursor: self.cursor + 1,
            stacks: if self.cursor + 1 == self.stacks.len() {
                self.stacks.push(Seq::empty())
            } else {
                self.stacks
            },
            ..self
        }
    }

    /// The machine with the cursor one stack to the left.
    pub open spec fn left(self) -> Machine {
        Machine { cursor: self.cursor - 1, ..self }
    }

    /// The machine with the program counter at `pc`.
    pub open spec fn goto(self, pc: usize) -> Machine {
        Machine { pc, ..self }
    }

    /// The string that lies `depth` values below the top of the active stack,
    /// or the fault of asking for it.
    pub open spec fn text_at(self, depth: int) -> Result<Seq<char>, FaultView> {
        if depth < self.current().len() {
            Ok(self.at(depth))
        } else {
            Err(FaultView::EmptyStack(Wanted::Str))
        }
    }

    /// The integer that lies `depth` values below the top of the active
    /// stack, or the fault of asking for it.
    pub open spec fn int_at(self, depth: int) -> Result<i64, FaultView> {
        if depth < self.current().len() {
            match text_int(self.at(depth)) {
                Some(value) => Ok(value),
                None => Err(FaultView::NotAnInteger(self.at(depth))),
            }
        } else {
            Err(FaultView::EmptyStack(Wanted::Int))
        }
    }
}

/// The machine state of one run.
#[derive(Debug)]
pub struct State {
    pc: usize,
    current_stack: usize,
    stacks: Vec<Vec<String>>,
    labels: LabelTable,
}

impl View for State {
    type V = Machine;

    /// The machine that the state holds. (A state whose cursor pointed
    /// outside its row would be seen as a fresh machine; none is ever built.)
    closed spec fn view(&self) -> Machine {
        Machine {
            pc: self.pc,
            cursor: if self.cursor_in_row() { self.current_stack as int } else { 0 },
            stacks: if self.cursor_in_row() { self.stacks.deep_view() } else { seq![Seq::empty()] },
            labels: self.labels@,
        }
    }
}

impl State {
    #[verifier::type_invariant]
    spec fn cursor_in_row(&self) -> bool {
        self.current_stack < self.stacks.len()
    }

    /// In every state the cursor points at a stack of the row.
    pub proof fn lemma_wf(&self)
        ensures
            self@.wf(),
    {
    }

    /// The machine before the first instruction: the program counter at the
    /// first token, one empty stack, and the labels of the program.
    pub fn new(labels: LabelTable) -> (state: State)
        ensures
            state@ == (Machine { pc: 0, cursor: 0, stacks: seq![Seq::empty()], labels: labels@ }),
    {
        let mut stacks: Vec<Vec<String>> = Vec::new();
        stacks.push(Vec::new());
        let state = State { pc: 0, current_stack: 0, stacks, labels };
        assert(state@.stacks =~~= seq![Seq::<Seq<char>>::empty()]);
        state
    }

    /// The index of the token that runs next.
    pub fn pc(&self) -> (pc: usize)
        ensures
            pc == self@.pc,
    {
        self.pc
    }

    /// Moves the program counter to `pc`.
    pub fn goto(&mut self, pc: usize)
        ensures
            final(self)@ == old(self)@.goto(pc),
    {
        proof {
            use_type_invariant(&*self);
        }
        self.pc = pc;
    }

    /// The index of the active stack.
    pub fn current_stack(&self) -> (cursor: usize)
        ensures
            cursor == self@.cursor,
    {
        proof {
            use_type_invariant(self);
        }
        self.current_stack
    }

    /// The row of stacks.
    pub fn stacks(&self) -> (row: &Vec<Vec<String>>)
        ensures
            row.deep_view() == self@.stacks,
    {
        proof {
            use_type_invariant(self);
        }
        &self.stacks
    }

    /// How many values the active stack holds.
    pub fn depth(&self) -> (depth: usize)
        ensures
            depth == self@.current().len(),
    {
        proof {
            use_type_invariant(self);
        }
        self.stacks[self.current_stack].len()
    }

    /// The position that the program's label table gives for `name`.
    pub fn label(&self, name: &str) -> (target: Option<usize>)
        ensures
            target == (if self@.labels.contains_key(name@) { Some(self@.labels[name@]) } else { None }),
    {
        self.labels.get(name)
    }

    /// The string that lies `depth` values below the top of the active stack.
    pub fn peek_string(&self, depth: usize) -> (r: Result<&String, Fault>)
        ensures
            match self@.text_at(depth as int) {
                Ok(text) => r is Ok && r->Ok_0@ == text,
                Err(fault) => r is Err && r->Err_0@ == fault,
            },
    {
        proof {
            use_type_invariant(self);
        }
        let stack = &self.stacks[self.current_stack];
        if depth < stack.len() {
            Ok(&stack[stack.len() - 1 - depth])
        } else {
            Err(Fault::EmptyStack(Wanted::Str))
        }
    }

    /// The integer that lies `depth` values below the top of the active
    /// stack.
    pub fn peek_int(&self, depth: usize) -> (r: Result<i64, Fault>)
        ensures
            match self@.int_at(depth as int) {
                Ok(value) => r == Ok::<i64, Fault>(value),
                Err(fault) => r is Err && r->Err_0@ == fault,
            },
    {
        proof {
            use_type_invariant(self);
        }
        let stack = &self.stacks[self.current_stack];
        if depth < stack.len() {
            let text = &stack[stack.len() - 1 - depth];
            match parse_int(text.as_str()) {
                Some(value) => Ok(value),
                None => Err(Fault::NotAnInteger(text.clone())),
            }
        } else {
            Err(Fault::EmptyStack(Wanted::Int))
        }
    }

    /// Puts a string on top of the active stack.
    pub fn push_string(&mut self, value: String)
        ensures
            final(self)@ == old(self)@.push(value@),
    {
        proof {
            use_type_invariant(&*self);
        }
        self.stacks[self.current_stack].push(value);
        assert(self@.stacks =~~= old(self)@.push(value@).stacks);
    }

    /// Puts an integer, as its text, on top of the active stack.
    pub fn push_int(&mut self, value: i64)
        ensures
            final(self)@ == old(self)@.push_int(value as int),
    {
        self.push_string(format_int(value));
    }

    /// Removes the top `n` values of the active stack.
    pub(crate) fn discard(&mut self, n: usize)
        requires
            n <= old(self)@.current().len(),
        ensures
            final(self)@ == old(self)@.discard(n as int),
    {
        proof {
            use_type_invariant(&*self);
        }
        let keep = self.stacks[self.current_stack].len() - n;
        self.stacks[self.current_stack].truncate(keep);
        assert(self@.stacks =~~= old(self)@.discard(n as int).stacks);
    }

    /// Takes the string on top of the active stack. An empty stack is a
    /// fault, and the machine stays as it is.
    pub fn pop_string(&mut self) -> (r: Result<String, Fault>)
        ensures
            match old(self)@.text_at(0) {
                Ok(text) => r is Ok && r->Ok_0@ == text && final(self)@ == old(self)@.discard(1),
                Err(fault) => r is Err && r->Err_0@ == fault && final(self)@ == old(self)@,
            },
    {
        proof {
            use_type_invariant(&*self);
        }
        match self.stacks[self.current_stack].pop() {
            Some(value) => {
                assert(self@.stacks =~~= old(self)@.discard(1).stacks);
                Ok(value)
            },
            None => {
                assert(self@.stacks =~~= old(self)@.stacks);
                Err(Fault::EmptyStack(Wanted::Str))
            },
        }
    }

    /// Takes the integer on top of the active stack. An empty stack is a
    /// fault, and so is a top value that is not the text of an integer; on a
    /// fault the machine stays as it is.
    pub fn pop_int(&mut self) -> (r: Result<i64, Fault>)
        ensures
            match old(self)@.int_at(0) {
                Ok(value) => r == Ok::<i64, Fault>(value) && final(self)@ == old(self)@.discard(1),
                Err(fault) => r is Err && r->Err_0@ == fault && final(self)@ == old(self)@,
            },
    {
        match self.peek_int(0) {
            Ok(value) => {
                self.discard(1);
                Ok(value)
            },
            Err(fault) => Err(fault),
        }
    }

    /// Moves the cursor one stack to the left. From the leftmost stack this
    /// is a fault, and the machine stays as it is.
    pub fn switch_to_left_stack(&mut self) -> (r: Result<(), Fault>)
        ensures
            old(self)@.cursor > 0 ==> r is Ok && final(self)@ == old(self)@.left(),
            old(self)@.cursor <= 0 ==> r == Err::<(), Fault>(Fault::LeftmostStack) && final(self)@ == old(self)@,
    {
        proof {
            use_type_invariant(&*self);
        }
        if self.current_stack == 0 {
            return Err(Fault::LeftmostStack);
        }
        self.current_stack = self.current_stack - 1;
        Ok(())
    }

    /// Moves the cursor one stack to the right. From the rightmost stack this
    /// adds a new empty stack to the row.
    pub fn switch_to_right_stack(&mut self)
        ensures
            final(self)@ == old(self)@.right(),
    {
        proof {
            use_type_invariant(&*self);
        }
        if self.current_stack + 1 == self.stacks.len() {
            let mut held = State::new(LabelTable::new());
            std::mem::swap(self, &mut held);
            let State { pc, current_stack, stacks, labels } = held;
            let mut stacks = stacks;
            stacks.push(Vec::new());
            *self = State { pc, current_stack: current_stack + 1, stacks, labels };
            assert(self@.stacks =~~= old(self)@.right().stacks);
        } else {
            self.current_stack = self.current_stack + 1;
        }
    }
}

} // verus!
