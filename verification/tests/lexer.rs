use stackrow::lexer::{lex, unquote};
use stackrow::token::{LexError, Token};

fn ident(text: &str) -> Token {
    Token::Ident(String::from(text))
}

fn string(text: &str) -> Token {
    Token::Str(String::from(text))
}

fn tokens(source: &str) -> Vec<Token> {
    lex(String::from(source)).unwrap()
}

#[test]
fn lex_of_nothing_is_nothing() {
    assert_eq!(tokens(""), vec![]);
    assert_eq!(tokens(" \n\t  \n"), vec![]);
}

#[test]
fn lex_splits_words_numbers_and_strings() {
    assert_eq!(
        tokens("1 2 + \"a b\" ( x ) !"),
        vec![
            Token::Int(1),
            Token::Int(2),
            ident("+"),
            string("a b"),
            Token::LParen,
            ident("x"),
            Token::RParen,
            Token::Bang,
        ]
    );
}

#[test]
fn lex_separates_on_space_tab_and_newline() {
    assert_eq!(tokens("a\tb\nc d"), vec![ident("a"), ident("b"), ident("c"), ident("d")]);
}

#[test]
fn lex_does_not_separate_on_carriage_return() {
    assert_eq!(tokens("a\rb"), vec![ident("a\rb")]);
}

#[test]
fn lex_drops_line_comments() {
    assert_eq!(tokens("1 // two three\n4"), vec![Token::Int(1), Token::Int(4)]);
    assert_eq!(tokens("// only a comment"), vec![]);
    assert_eq!(tokens("//\n//\n7"), vec![Token::Int(7)]);
    assert_eq!(tokens("1 //"), vec![Token::Int(1)]);
    assert_eq!(tokens("// \"open string\n2"), vec![Token::Int(2)]);
}

#[test]
fn lex_takes_a_single_slash_as_a_word() {
    assert_eq!(tokens("6 3 /"), vec![Token::Int(6), Token::Int(3), ident("/")]);
    assert_eq!(tokens("/ /"), vec![ident("/"), ident("/")]);
    assert_eq!(tokens("/x"), vec![ident("/x")]);
}

#[test]
fn lex_keeps_slashes_inside_a_word() {
    assert_eq!(tokens("a//b c"), vec![ident("a//b"), ident("c")]);
}

#[test]
fn lex_tells_bang_from_not_equal() {
    assert_eq!(tokens("!"), vec![Token::Bang]);
    assert_eq!(tokens("! ="), vec![Token::Bang, ident("=")]);
    assert_eq!(tokens("!="), vec![ident("!=")]);
    assert_eq!(tokens("!=x"), vec![ident("!=x")]);
    assert_eq!(tokens("!!"), vec![Token::Bang, Token::Bang]);
    assert_eq!(tokens("!a"), vec![Token::Bang, ident("a")]);
    assert_eq!(tokens("!!="), vec![Token::Bang, ident("!=")]);
}

#[test]
fn lex_emits_parentheses_on_their_own() {
    assert_eq!(tokens("()"), vec![Token::LParen, Token::RParen]);
    assert_eq!(tokens("(1)"), vec![Token::LParen, Token::Int(1), Token::RParen]);
    assert_eq!(tokens("foo(bar)"), vec![ident("foo"), Token::LParen, ident("bar"), Token::RParen]);
}

#[test]
fn lex_reads_operators_and_labels_as_words() {
    assert_eq!(
        tokens("+ - * / % == != => <= . -> <- :loop loop goto_if"),
        vec![
            ident("+"),
            ident("-"),
            ident("*"),
            ident("/"),
            ident("%"),
            ident("=="),
            ident("!="),
            ident("=>"),
            ident("<="),
            ident("."),
            ident("->"),
            ident("<-"),
            ident(":loop"),
            ident("loop"),
            ident("goto_if"),
        ]
    );
}

#[test]
fn lex_keeps_the_case_of_words() {
    assert_eq!(tokens("Dup dup DUP"), vec![ident("Dup"), ident("dup"), ident("DUP")]);
}

#[test]
fn lex_ends_a_word_at_a_quote() {
    assert_eq!(tokens("ab\"cd\""), vec![ident("ab"), string("cd")]);
}

#[test]
fn lex_reads_integer_literals() {
    assert_eq!(tokens("0"), vec![Token::Int(0)]);
    assert_eq!(tokens("007"), vec![Token::Int(7)]);
    assert_eq!(tokens("9223372036854775807"), vec![Token::Int(i64::MAX)]);
}

#[test]
fn lex_ends_an_integer_where_the_digits_end() {
    assert_eq!(tokens("12ab"), vec![Token::Int(12), ident("ab")]);
    assert_eq!(tokens("1+2"), vec![Token::Int(1), ident("+2")]);
    assert_eq!(tokens("3)"), vec![Token::Int(3), Token::RParen]);
    assert_eq!(tokens("4\"x\""), vec![Token::Int(4), string("x")]);
}

#[test]
fn lex_reads_a_minus_sign_as_the_start_of_a_word() {
    assert_eq!(tokens("-5"), vec![ident("-5")]);
    assert_eq!(tokens("- 5"), vec![ident("-"), Token::Int(5)]);
}

#[test]
fn lex_reports_an_integer_out_of_range() {
    assert_eq!(lex(String::from("9223372036854775808")), Err(LexError::IntOutOfRange));
    assert_eq!(lex(String::from("1 99999999999999999999 2")), Err(LexError::IntOutOfRange));
}

#[test]
fn lex_reads_string_literals_verbatim() {
    assert_eq!(tokens("\"\""), vec![string("")]);
    assert_eq!(tokens("\"a b\tc\nd\""), vec![string("a b\tc\nd")]);
    assert_eq!(tokens("\"// no comment\""), vec![string("// no comment")]);
    assert_eq!(tokens("\"(!)\""), vec![string("(!)")]);
    assert_eq!(tokens("\"a\"\"b\""), vec![string("a"), string("b")]);
}

#[test]
fn lex_resolves_escapes_in_string_literals() {
    assert_eq!(tokens("\"a\\nb\""), vec![string("a\nb")]);
    assert_eq!(tokens("\"a\\tb\""), vec![string("a\tb")]);
    assert_eq!(tokens("\"a\\rb\""), vec![string("a\\rb")]);
}

#[test]
fn lex_has_no_escape_for_a_quote() {
    assert_eq!(tokens("\"a\\\" b"), vec![string("a\\"), ident("b")]);
}

#[test]
fn lex_reports_an_open_string() {
    assert_eq!(lex(String::from("1 \"abc")), Err(LexError::UnfinishedString));
    assert_eq!(lex(String::from("\"")), Err(LexError::UnfinishedString));
    assert_eq!(lex(String::from("\"a\" \"b")), Err(LexError::UnfinishedString));
}

#[test]
fn lex_reports_the_first_error() {
    assert_eq!(lex(String::from("\"open 99999999999999999999")), Err(LexError::UnfinishedString));
    assert_eq!(lex(String::from("99999999999999999999 \"open")), Err(LexError::IntOutOfRange));
}

#[test]
fn lex_reads_text_outside_ascii() {
    assert_eq!(tokens("héllo \"wörld→\""), vec![ident("héllo"), string("wörld→")]);
}

#[test]
fn unquote_resolves_newline_and_tab() {
    assert_eq!(unquote(String::from("")), "");
    assert_eq!(unquote(String::from("plain")), "plain");
    assert_eq!(unquote(String::from("a\\nb\\tc")), "a\nb\tc");
    assert_eq!(unquote(String::from("\\n\\n")), "\n\n");
}

#[test]
fn unquote_leaves_other_backslashes() {
    assert_eq!(unquote(String::from("\\")), "\\");
    assert_eq!(unquote(String::from("a\\")), "a\\");
    assert_eq!(unquote(String::from("\\x")), "\\x");
    assert_eq!(unquote(String::from("\\\\")), "\\\\");
    assert_eq!(unquote(String::from("\\\\n")), "\\\n");
    assert_eq!(unquote(String::from("\\\\t")), "\\\t");
}

#[test]
fn unquote_agrees_with_two_replacements() {
    let samples = ["", "\\", "\\n", "\\t", "\\\\n", "\\\\t", "n\\", "\\nt", "\\tn", "a\\n\\tb\\", "\\\\\\n", "\\n\\\\t"];
    for text in samples {
        assert_eq!(
            unquote(String::from(text)),
            text.replace("\\n", "\n").replace("\\t", "\t"),
            "for {:?}",
            text
        );
    }
}
