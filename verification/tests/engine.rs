use stackrow::engine::{decode, lay_out_snapshot, run_word, snapshot, step, Effect, Op};
use stackrow::labels::{index_labels, LabelTable};
use stackrow::lexer::lex;
use stackrow::fault::{Arith, Fault, Wanted};
use stackrow::machine::State;
use stackrow::token::Token;

struct Run {
    state: State,
    output: String,
    diagnostics: Vec<String>,
    fault: Option<Fault>,
    steps: usize,
}

fn run_with(source: &str, input: &[&str], limit: usize) -> Run {
    let tokens = lex(String::from(source)).unwrap();
    let mut run = Run {
        state: State::new(index_labels(&tokens)),
        output: String::new(),
        diagnostics: Vec::new(),
        fault: None,
        steps: 0,
    };
    let mut lines = input.iter();
    let mut line: Option<String> = None;
    while run.steps < limit {
        run.steps += 1;
        match step(&mut run.state, &tokens, line.take()) {
            Ok(Effect::Continue) => {}
            Ok(Effect::Print(text)) => run.output.push_str(&text),
            Ok(Effect::Debug(text)) => run.diagnostics.push(text),
            Ok(Effect::NeedInput) => line = Some(String::from(*lines.next().unwrap_or(&""))),
            Ok(Effect::Halted) => return run,
            Err(fault) => {
                run.fault = Some(fault);
                return run;
            }
        }
    }
    panic!("the program did not end within {} steps", limit);
}

fn run(source: &str) -> Run {
    run_with(source, &[], 10_000)
}

fn stack(state: &State) -> Vec<String> {
    state.stacks()[state.current_stack()].clone()
}

fn strings(values: &[&str]) -> Vec<String> {
    values.iter().map(|v| String::from(*v)).collect()
}

#[test]
fn program_one_two_plus_leaves_three() {
    let mut done = run("1 2 +");
    assert_eq!(done.fault, None);
    assert_eq!(done.state.pop_int(), Ok(3));
    assert_eq!(done.state.depth(), 0);
}

#[test]
fn program_integer_literal_comes_back_as_its_value() {
    for (literal, value) in [("0", 0), ("7", 7), ("007", 7), ("1234567890", 1234567890), ("9223372036854775807", i64::MAX)] {
        let mut done = run(literal);
        assert_eq!(done.fault, None);
        assert_eq!(done.state.peek_string(0), Ok(&format!("{}", value)));
        assert_eq!(done.state.pop_int(), Ok(value));
        assert_eq!(done.state.depth(), 0);
    }
}

#[test]
fn program_dup_then_equal_leaves_one() {
    for literal in ["5", "\"a b\"", "\"\"", "!"] {
        let done = run(&format!("{} dup ==", literal));
        assert_eq!(done.fault, None);
        assert_eq!(stack(&done.state), strings(&["1"]));
    }
}

#[test]
fn program_equal_strings_leave_one() {
    let mut done = run("\"ab\" \"ab\" ==");
    assert_eq!(done.fault, None);
    assert_eq!(done.state.pop_string(), Ok(String::from("1")));
}

#[test]
fn program_concat_joins() {
    let mut done = run("\"a\" \"b\" concat");
    assert_eq!(done.fault, None);
    assert_eq!(done.state.pop_string(), Ok(String::from("ab")));
}

#[test]
fn program_counts_down_with_jump_if() {
    let done = run("3 :loop 1 - dup 1 jump_if");
    assert_eq!(done.fault, None);
    assert_eq!(stack(&done.state), strings(&["0"]));
    assert_eq!(done.state.pc(), 7);
    assert_eq!(done.steps, 2 + 3 * 5 + 1);
}

#[test]
fn program_counts_down_with_goto_if() {
    let done = run("5 :loop 1 - dup \"loop\" goto_if \"done\"");
    assert_eq!(done.fault, None);
    assert_eq!(stack(&done.state), strings(&["0", "done"]));
}

#[test]
fn program_counts_down_and_prints() {
    let done = run("3 :loop dup print 1 - dup \"loop\" goto_if");
    assert_eq!(done.fault, None);
    assert_eq!(done.output, "321");
    assert_eq!(stack(&done.state), strings(&["0"]));
}

#[test]
fn program_left_of_the_leftmost_stack_faults() {
    let done = run("<-");
    assert_eq!(done.fault, Some(Fault::LeftmostStack));
    assert_eq!(done.state.pc(), 0);
    assert_eq!(done.state.current_stack(), 0);
}

#[test]
fn program_get_gives_the_character() {
    let mut done = run("\"hello\" 1 .");
    assert_eq!(done.fault, None);
    assert_eq!(done.state.pop_string(), Ok(String::from("e")));
}

#[test]
fn program_get_out_of_range_faults() {
    let done = run("\"hello\" 10 .");
    assert_eq!(done.fault, Some(Fault::IndexOutOfRange { text: String::from("hello"), index: 10 }));
    assert_eq!(stack(&done.state), strings(&["hello", "10"]));
    assert_eq!(done.state.pc(), 2);
}

#[test]
fn program_divides_the_dividend_by_the_divisor() {
    let done = run("84 2 / 7 2 / 0 5 /");
    assert_eq!(done.fault, None);
    assert_eq!(stack(&done.state), strings(&["42", "3", "0"]));
    let done = run("5 0 /");
    assert_eq!(done.fault, Some(Fault::DivisionByZero(Arith::Div)));
    let done = run("0 5 /");
    assert_eq!(done.fault, None);
}

#[test]
fn program_runs_every_arithmetic_word() {
    let done = run("7 3 + 7 3 - 7 3 * 7 3 / 7 3 %");
    assert_eq!(done.fault, None);
    assert_eq!(stack(&done.state), strings(&["10", "4", "21", "2", "1"]));
}

#[test]
fn program_parentheses_do_nothing() {
    let done = run("( 1 ( 2 ) + )");
    assert_eq!(done.fault, None);
    assert_eq!(stack(&done.state), strings(&["3"]));
    assert_eq!(done.state.pc(), 7);
}

#[test]
fn program_bang_pushes_the_program_counter() {
    let done = run("\"a\" ! pop !");
    assert_eq!(done.fault, None);
    assert_eq!(stack(&done.state), strings(&["a", "3"]));
}

#[test]
fn program_returns_through_a_saved_counter() {
    let done = run("! 5 + sub \"skipped\" pop \"after\" end :sub => \"body\" -> jump :end");
    assert_eq!(done.fault, None);
    assert_eq!(done.state.stacks().clone(), vec![strings(&["body"]), strings(&["after"])]);
    assert_eq!(done.state.current_stack(), 1);
    assert_eq!(done.state.pc(), 14);
}

#[test]
fn program_calls_a_label_and_skips_its_token() {
    let done = run("end 1 2 3 :end 4");
    assert_eq!(done.fault, None);
    assert_eq!(stack(&done.state), strings(&["4"]));
}

#[test]
fn program_label_definitions_do_nothing() {
    let done = run(":a 1 :b :c 2 :a");
    assert_eq!(done.fault, None);
    assert_eq!(stack(&done.state), strings(&["1", "2"]));
    assert_eq!(done.steps, 7);
}

#[test]
fn program_jumps_to_the_last_definition_of_a_label() {
    let done = run("again 1 :again 2 :again 3");
    assert_eq!(done.fault, None);
    assert_eq!(stack(&done.state), strings(&["3"]));
    let done = run("1 \"again\" goto_if 1 :again 2 :again 3");
    assert_eq!(done.fault, None);
    assert_eq!(stack(&done.state), strings(&["3"]));
}

#[test]
fn program_unknown_word_faults() {
    let done = run("1 nope 2");
    assert_eq!(done.fault, Some(Fault::UnknownInstruction(String::from("nope"))));
    assert_eq!(done.state.pc(), 1);
    assert_eq!(stack(&done.state), strings(&["1"]));
    let done = run("DUP");
    assert_eq!(done.fault, Some(Fault::UnknownInstruction(String::from("DUP"))));
}

#[test]
fn program_jump_resumes_behind_the_target() {
    let done = run("3 jump 1 2 3 4");
    assert_eq!(done.fault, None);
    assert_eq!(stack(&done.state), strings(&["3", "4"]));
}

#[test]
fn program_jump_past_the_end_halts() {
    let done = run("100 jump 1 2");
    assert_eq!(done.fault, None);
    assert_eq!(stack(&done.state), strings(&[]));
    assert_eq!(done.state.pc(), 101);
    let done = run("0 2 - jump 1 2");
    assert_eq!(done.fault, None);
    assert_eq!(stack(&done.state), strings(&[]));
    assert_eq!(done.state.pc(), usize::MAX);
}

#[test]
fn program_jump_to_the_largest_index_faults() {
    let done = run("0 1 - jump 1 2");
    assert_eq!(done.fault, Some(Fault::CounterOverflow));
    assert_eq!(done.state.pc(), usize::MAX);
    assert_eq!(stack(&done.state), strings(&[]));
}

#[test]
fn program_navigates_the_row() {
    let done = run("1 -> 2 -> 3 <- <- 4");
    assert_eq!(done.fault, None);
    assert_eq!(done.state.current_stack(), 0);
    assert_eq!(done.state.stacks().clone(), vec![strings(&["1", "4"]), strings(&["2"]), strings(&["3"])]);
}

#[test]
fn program_right_then_left_keeps_the_stacks() {
    let done = run("1 2 -> <-");
    assert_eq!(done.fault, None);
    assert_eq!(done.state.current_stack(), 0);
    assert_eq!(done.state.stacks().clone(), vec![strings(&["1", "2"]), strings(&[])]);
}

#[test]
fn program_moves_values_between_stacks() {
    let done = run("1 2 => => -> <= <=");
    assert_eq!(done.fault, None);
    assert_eq!(done.state.current_stack(), 1);
    assert_eq!(done.state.stacks().clone(), vec![strings(&["1", "2"]), strings(&[])]);
    let done = run("1 <=");
    assert_eq!(done.fault, Some(Fault::LeftmostStack));
}

#[test]
fn program_prints_in_order() {
    let done = run("\"a\" print \"b\\n\" print 12 print");
    assert_eq!(done.fault, None);
    assert_eq!(done.output, "ab\n12");
    assert_eq!(stack(&done.state), strings(&[]));
}

#[test]
fn program_output_before_a_fault_stays() {
    let done = run("\"a\" print print \"b\" print");
    assert_eq!(done.fault, Some(Fault::EmptyStack(Wanted::Str)));
    assert_eq!(done.output, "a");
}

#[test]
fn program_reads_input_lines() {
    let done = run_with("input input concat print", &["ab\n", "cd\n"], 100);
    assert_eq!(done.fault, None);
    assert_eq!(done.output, "abcd");
    let done = run_with("input len", &["héllo\n"], 100);
    assert_eq!(stack(&done.state), strings(&["6"]));
}

#[test]
fn program_chr_len_empty_dup_pop() {
    let done = run("empty 65 chr dup len \"x\" pop empty");
    assert_eq!(done.fault, None);
    assert_eq!(stack(&done.state), strings(&["1", "A", "1", "0"]));
}

#[test]
fn program_not_equal() {
    let done = run("1 2 != 3 3 !=");
    assert_eq!(done.fault, None);
    assert_eq!(stack(&done.state), strings(&["1", "0"]));
}

#[test]
fn program_debug_reports_the_machine() {
    let done = run("1 -> \"a b\" \"q\\n\" debug <-");
    assert_eq!(done.fault, None);
    assert_eq!(
        done.diagnostics,
        vec![String::from("{ pc: 4, current_stack: 1, stacks: [[\"1\"], [\"a b\", \"q\\n\"]] }")]
    );
    assert_eq!(done.state.pc(), 6);
}

#[test]
fn snapshot_of_a_fresh_machine() {
    let state = State::new(LabelTable::new());
    assert_eq!(snapshot(&state), "{ pc: 0, current_stack: 0, stacks: [[]] }");
}

#[test]
fn snapshot_escapes_strings_as_debug_does() {
    let mut state = State::new(LabelTable::new());
    state.push_string(String::from("tab\there"));
    state.push_string(String::from("quote\"d"));
    state.switch_to_right_stack();
    state.push_int(-5);
    state.goto(12345678901);
    assert_eq!(
        snapshot(&state),
        "{ pc: 12345678901, current_stack: 1, stacks: [[\"tab\\there\", \"quote\\\"d\"], [\"-5\"]] }"
    );
    assert_eq!(
        snapshot(&state),
        format!("{{ pc: {}, current_stack: {}, stacks: {:?} }}", state.pc(), state.current_stack(), state.stacks())
    );
}

#[test]
fn lay_out_snapshot_names_its_parts() {
    assert_eq!(lay_out_snapshot(0, 0, "[[]]"), "{ pc: 0, current_stack: 0, stacks: [[]] }");
    assert_eq!(lay_out_snapshot(17, 3, "row"), "{ pc: 17, current_stack: 3, stacks: row }");
    assert_eq!(
        lay_out_snapshot(usize::MAX, usize::MAX, ""),
        format!("{{ pc: {}, current_stack: {}, stacks:  }}", usize::MAX, usize::MAX)
    );
}

#[test]
fn step_past_the_end_halts_and_changes_nothing() {
    let tokens = lex(String::from("1")).unwrap();
    let mut state = State::new(LabelTable::new());
    assert_eq!(step(&mut state, &tokens, None), Ok(Effect::Continue));
    assert_eq!(state.pc(), 1);
    assert_eq!(step(&mut state, &tokens, None), Ok(Effect::Halted));
    assert_eq!(step(&mut state, &tokens, None), Ok(Effect::Halted));
    assert_eq!(state.pc(), 1);
    assert_eq!(stack(&state), strings(&["1"]));
    let mut state = State::new(LabelTable::new());
    assert_eq!(step(&mut state, &Vec::new(), None), Ok(Effect::Halted));
}

#[test]
fn step_asks_for_input_and_waits() {
    let tokens = lex(String::from("input 1")).unwrap();
    let mut state = State::new(LabelTable::new());
    assert_eq!(step(&mut state, &tokens, None), Ok(Effect::NeedInput));
    assert_eq!(state.pc(), 0);
    assert_eq!(state.depth(), 0);
    assert_eq!(step(&mut state, &tokens, None), Ok(Effect::NeedInput));
    assert_eq!(step(&mut state, &tokens, Some(String::from("line\n"))), Ok(Effect::Continue));
    assert_eq!(state.pc(), 1);
    assert_eq!(stack(&state), strings(&["line"]));
}

#[test]
fn step_drops_a_line_that_nothing_asked_for() {
    let tokens = lex(String::from("1 2")).unwrap();
    let mut state = State::new(LabelTable::new());
    assert_eq!(step(&mut state, &tokens, Some(String::from("stray"))), Ok(Effect::Continue));
    assert_eq!(stack(&state), strings(&["1"]));
}

#[test]
fn step_on_a_fault_leaves_the_machine() {
    let tokens = lex(String::from("\"a\" 1 +")).unwrap();
    let mut state = State::new(LabelTable::new());
    assert_eq!(step(&mut state, &tokens, None), Ok(Effect::Continue));
    assert_eq!(step(&mut state, &tokens, None), Ok(Effect::Continue));
    assert_eq!(step(&mut state, &tokens, None), Err(Fault::NotAnInteger(String::from("a"))));
    assert_eq!(state.pc(), 2);
    assert_eq!(stack(&state), strings(&["a", "1"]));
}

#[test]
fn step_runs_tokens_built_by_hand() {
    let tokens = vec![Token::Int(-4), Token::Str(String::from("s")), Token::Bang, Token::LParen, Token::RParen];
    let mut state = State::new(LabelTable::new());
    for _ in 0..5 {
        assert_eq!(step(&mut state, &tokens, None), Ok(Effect::Continue));
    }
    assert_eq!(stack(&state), strings(&["-4", "s", "2"]));
    assert_eq!(step(&mut state, &tokens, None), Ok(Effect::Halted));
}

#[test]
fn run_word_does_not_move_the_program_counter() {
    let mut state = State::new(LabelTable::new());
    state.push_int(1);
    state.push_int(2);
    assert_eq!(run_word(&mut state, &String::from("+"), None), Ok(Effect::Continue));
    assert_eq!(state.pc(), 0);
    assert_eq!(stack(&state), strings(&["3"]));
    assert_eq!(run_word(&mut state, &String::from("print"), None), Ok(Effect::Print(String::from("3"))));
    assert_eq!(run_word(&mut state, &String::from(":label"), None), Ok(Effect::Continue));
    assert_eq!(
        run_word(&mut state, &String::from("label"), None),
        Err(Fault::UnknownInstruction(String::from("label")))
    );
}

#[test]
fn decode_knows_every_word() {
    let words = [
        ("+", Op::Add),
        ("-", Op::Sub),
        ("*", Op::Mul),
        ("/", Op::Div),
        ("%", Op::Mod),
        ("==", Op::Eq),
        ("!=", Op::Neq),
        ("=>", Op::CopyRight),
        ("<=", Op::CopyLeft),
        (".", Op::Get),
        ("->", Op::Right),
        ("<-", Op::Left),
        ("chr", Op::Chr),
        ("concat", Op::Concat),
        ("debug", Op::Debug),
        ("dup", Op::Dup),
        ("empty", Op::Empty),
        ("input", Op::Input),
        ("goto_if", Op::GotoIf),
        ("jump", Op::Jump),
        ("jump_if", Op::JumpIf),
        ("len", Op::Len),
        ("pop", Op::Pop),
        ("print", Op::Print),
        (":loop", Op::Label),
        (":", Op::Label),
        (":+", Op::Label),
        ("loop", Op::Call),
        ("", Op::Call),
        ("Dup", Op::Call),
        ("++", Op::Call),
        ("jump_", Op::Call),
    ];
    for (word, op) in words {
        assert_eq!(decode(word), op, "for {:?}", word);
    }
}
