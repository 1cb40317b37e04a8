//! Labels: the words of a program that begin with `:`, and the table that
//! says where each one stands.

use vstd::prelude::*;
use vstd::std_specs::iter::IteratorSpec;
use crate::text::same_text;
use crate::token::{Token, TokenView};

verus! {

/// The character that marks a word as the definition of a label.
pub open spec fn is_label_word(word: Seq<char>) -> bool {
    word.len() > 0 && word[0] == ':'
}

/// Whether `token` defines the label `name`: it is the word made of `:` and
/// the name.
pub open spec fn defines(token: TokenView, name: Seq<char>) -> bool {
    token == TokenView::Ident(seq![':'] + name)
}

/// The label table of a program: each label's name with the position of the
/// token that defines it. Of several definitions of one name the last
/// counts.
pub open spec fn label_map(tokens: Seq<TokenView>) -> Map<Seq<char>, usize>
    decreases tokens.len(),
{
    if tokens.len() == 0 {
        Map::empty()
    } else {
        let before = label_map(tokens.drop_last());
        match tokens.last() {
            TokenView::Ident(word) if is_label_word(word) => before.insert(
                word.skip(1),
                (tokens.len() - 1) as usize,
            ),
            _ => before,
        }
    }
}

/// One entry of a label table.
#[derive(Debug)]
struct Label {
    name: String,
    target: usize,
}

/// A table from label names to token positions. A name stands in it once.
#[derive(Debug)]
pub struct LabelTable {
    entries: Vec<Label>,
}

impl LabelTable {
    #[verifier::type_invariant]
    spec fn names_differ(&self) -> bool {
        forall|i: int, j: int|
            0 <= i < j < self.entries.len() ==> self.entries[i].name@ != self.entries[j].name@
    }

    spec fn holds_at(&self, name: Seq<char>, i: int) -> bool {
        0 <= i < self.entries.len() && self.entries[i].name@ == name
    }

    spec fn slot(&self, name: Seq<char>) -> int {
        choose|i: int| self.holds_at(name, i)
    }

    /// With names that differ, the table maps a name to the target of the one
    /// entry that holds it.
    proof fn lemma_entry(&self, name: Seq<char>, i: int)
        requires
            self.names_differ(),
            self.holds_at(name, i),
        ensures
            self@.contains_key(name),
            self@[name] == self.entries[i].target,
    {
        assert(self.holds_at(name, self.slot(name)));
    }

    /// A table without labels.
    pub fn new() -> (table: LabelTable)
        ensures
            table@ == Map::<Seq<char>, usize>::empty(),
    {
        LabelTable { entries: Vec::new() }
    }

    /// Records that `name` stands at `target`, in place of what the table
    /// held for that name.
    pub fn insert(&mut self, name: String, target: usize)
        ensures
            final(self)@ == old(self)@.insert(name@, target),
    {
        proof {
            use_type_invariant(&*self);
        }
        let mut entries: Vec<Label> = Vec::new();
        std::mem::swap(&mut entries, &mut self.entries);
        let mut i: usize = 0;
        while i < entries.len() && !same_text(entries[i].name.as_str(), name.as_str())
            invariant
                entries == old(self).entries,
                i <= entries.len(),
                forall|j: int| 0 <= j < i ==> entries[j].name@ != name@,
            decreases entries.len() - i,
        {
            i = i + 1;
        }
        let ghost key = name@;
        if i < entries.len() {
            entries[i].target = target;
        } else {
            entries.push(Label { name, target });
        }
        self.entries = entries;
        proof {
            assert forall|j: int| 0 <= j < self.entries.len() implies #[trigger] self.entries[j].name@ == (
            if j < old(self).entries.len() {
                old(self).entries[j].name@
            } else {
                key
            }) && self.entries[j].target == (if j == i {
                target
            } else {
                old(self).entries[j].target
            }) by {}
            self.lemma_entry(key, i as int);
            let goal = old(self)@.insert(key, target);
            assert forall|n: Seq<char>| #[trigger] self@.dom().contains(n) == goal.dom().contains(n)
                && (self@.dom().contains(n) ==> self@[n] == goal[n]) by {
                if n != key {
                    if self@.contains_key(n) {
                        let j = self.slot(n);
                        self.lemma_entry(n, j);
                        old(self).lemma_entry(n, j);
                    }
                    if old(self)@.contains_key(n) {
                        let j = old(self).slot(n);
                        self.lemma_entry(n, j);
                        old(self).lemma_entry(n, j);
                    }
                }
            }
        }
    }

    /// The position recorded for `name`, if the table holds the name.
    pub fn get(&self, name: &str) -> (target: Option<usize>)
        ensures
            target == (if self@.contains_key(name@) { Some(self@[name@]) } else { None }),
    {
        proof {
            use_type_invariant(self);
        }
        let mut i: usize = 0;
        while i < self.entries.len()
            invariant
                self.names_differ(),
                i <= self.entries.len(),
                forall|j: int| 0 <= j < i ==> self.entries[j].name@ != name@,
            decreases self.entries.len() - i,
        {
            if same_text(self.entries[i].name.as_str(), name) {
                proof {
                    self.lemma_entry(name@, i as int);
                }
                return Some(self.entries[i].target);
            }
            i = i + 1;
        }
        proof {
            assert forall|j: int| !self.holds_at(name@, j) by {}
        }
        None
    }
}

impl View for LabelTable {
    type V = Map<Seq<char>, usize>;

    closed spec fn view(&self) -> Map<Seq<char>, usize> {
        Map::new(
            |name: Seq<char>| exists|i: int| self.holds_at(name, i),
            |name: Seq<char>| self.entries[self.slot(name)].target,
        )
    }
}

/// Whether a word begins with `:` and so defines a label.
pub fn starts_label(word: &str) -> (marked: bool)
    ensures
        marked == is_label_word(word@),
{
    let mut it = word.chars();
    match it.next() {
        Some(c) => c == ':',
        None => false,
    }
}

/// The name that a word defines as a label, if the word begins with `:`.
pub fn label_name(word: &str) -> (name: Option<String>)
    ensures
        name is Some == is_label_word(word@),
        name is Some ==> name->0@ == word@.skip(1),
{
    let mut it = word.chars();
    match it.next() {
        Some(':') => {},
        _ => {
            return None;
        },
    }
    let mut name = String::new();
    loop
        invariant
            name@ + it.remaining() == word@.skip(1),
            it.decrease() is Some,
        ensures
            it.remaining().len() == 0,
        decreases it.decrease()->0,
    {
        match it.next() {
            Some(c) => {
                name.push(c);
            },
            None => {
                break;
            },
        }
    }
    Some(name)
}

/// Builds the label table of a program in one pass from the first token to
/// the last: each word that begins with `:` records its own position under
/// the rest of the word, in place of an earlier record of that name.
pub fn index_labels(tokens: &Vec<Token>) -> (table: LabelTable)
    ensures
        table@ == label_map(tokens.deep_view()),
{
    let mut table = LabelTable::new();
    let mut pc: usize = 0;
    let ghost program = tokens.deep_view();
    while pc < tokens.len()
        invariant
            pc <= tokens.len(),
            program == tokens.deep_view(),
            table@ == label_map(program.take(pc as int)),
        decreases tokens.len() - pc,
    {
        proof {
            assert(program.take(pc + 1).drop_last() =~= program.take(pc as int));
        }
        if let Token::Ident(word) = &tokens[pc] {
            if let Some(name) = label_name(word.as_str()) {
                table.insert(name, pc);
            }
        }
        pc = pc + 1;
    }
    proof {
        assert(program.take(tokens.len() as int) =~= program);
    }
    table
}

/// The last definition wins: a label stands in the table of a program when
/// some token defines it, and the table gives the position of the last token
/// that does.
pub proof fn lemma_last_definition_wins(tokens: Seq<TokenView>, name: Seq<char>, at: int)
    requires
        0 <= at < tokens.len(),
        tokens.len() <= usize::MAX,
        defines(tokens[at], name),
        forall|later: int| at < later < tokens.len() ==> !defines(tokens[later], name),
    ensures
        label_map(tokens).contains_key(name),
        label_map(tokens)[name] == at,
    decreases tokens.len(),
{
    let word = seq![':'] + name;
    assert(word.skip(1) =~= name);
    if at < tokens.len() - 1 {
        lemma_last_definition_wins(tokens.drop_last(), name, at);
        match tokens.last() {
            TokenView::Ident(other) if is_label_word(other) => {
                if other.skip(1) == name {
                    assert(other =~= seq![':'] + name);
                }
            },
            _ => {},
        }
    }
}

/// A label stands in the table of a program only if some token defines it.
pub proof fn lemma_label_is_defined(tokens: Seq<TokenView>, name: Seq<char>)
    requires
        label_map(tokens).contains_key(name),
    ensures
        exists|at: int| 0 <= at < tokens.len() && defines(#[trigger] tokens[at], name),
    decreases tokens.len(),
{
    if tokens.len() > 0 {
        match tokens.last() {
            TokenView::Ident(word) if is_label_word(word) && word.skip(1) == name => {
                assert(word =~= seq![':'] + name);
            },
            _ => {
                lemma_label_is_defined(tokens.drop_last(), name);
                let at = choose|at: int|
                    0 <= at < tokens.len() - 1 && defines(#[trigger] tokens.drop_last()[at], name);
                assert(defines(tokens[at], name));
            },
        }
    }
}

} // verus!
