//! A small stack machine: a tokenizer, a label index and an instruction
//! engine that works on a row of value stacks.
//!
//! A program is a text. [`lex`] turns it into tokens, [`index_labels`] finds
//! the labels among them, and [`step`] runs one token at a time on a
//! [`State`], telling its caller what to read or write in between.

pub mod engine;
pub mod fault;
pub mod instructions;
pub mod labels;
pub mod laws;
pub mod lexer;
pub mod machine;
pub mod preprocess;
pub mod text;
pub mod token;

pub use engine::{decode, lay_out_snapshot, run_word, snapshot, step, Effect, Op};
pub use instructions::{
    i_add, i_chr, i_concat, i_copy_left, i_copy_right, i_div, i_dup, i_empty, i_eq, i_get,
    i_goto_if, i_input, i_jump, i_jump_if, i_len, i_mod, i_mul, i_neq, i_pop, i_print, i_save_pc,
    i_sub,
};
pub use labels::{index_labels, LabelTable};
pub use lexer::{lex, unquote};
pub use fault::{Arith, Fault, Wanted};
pub use machine::State;
pub use text::{format_int, parse_int};
pub use token::{LexError, Token};
