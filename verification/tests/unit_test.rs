use lox_lib::error::ErrKind;
use lox_lib::number::Number;
use lox_lib::scanner::{find_to_close, scan_from_line};
use lox_lib::token::Token;
use lox_lib::LoxParser;

fn run(code: &str) -> (Result<(), ErrKind>, String) {
    let mut lox = LoxParser::new_test();
    let r = lox.exec_line(&code.to_string()).map_err(|e| e.kind);
    (r, lox.console_take())
}

fn scan(code: &str) -> Result<Vec<Token>, ErrKind> {
    let mut toks: Vec<Token> = Vec::new();
    match scan_from_line(&code.to_string(), &mut toks) {
        Ok(()) => Ok(toks),
        Err(e) => Err(e.kind),
    }
}

// ---------------------------------------------------------------------------
// failure scenarios: each error kind has an input that produces it
// ---------------------------------------------------------------------------
#[test]
fn undeclared_read_is_a_name_error() {
    let (r, out) = run("print x;");
    assert_eq!(r, Err(ErrKind::Name));
    assert_eq!(out, "");
}

#[test]
fn assignment_without_declaration_is_a_name_error() {
    let (r, _) = run("x = 1;");
    assert_eq!(r, Err(ErrKind::Name));
}

#[test]
fn division_by_zero_is_an_arithmetic_error() {
    let (r, _) = run("1 / 0;");
    assert_eq!(r, Err(ErrKind::Arithmetic));
}

#[test]
fn subtracting_from_a_string_is_a_type_error() {
    let (r, _) = run("\"a\" - 1;");
    assert_eq!(r, Err(ErrKind::Type));
}

#[test]
fn wrong_argument_count_is_an_arity_error() {
    let (r, out) = run("fun f(a){} f(1, 2);");
    assert_eq!(r, Err(ErrKind::Arity));
    assert_eq!(out, "");
}

#[test]
fn arity_error_runs_no_argument() {
    // the check comes before the arguments: the assignment never runs
    let (r, out) = run("var t = 0; fun f(a){} f(t = 1, 2); print t;");
    assert_eq!(r, Err(ErrKind::Arity));
    assert_eq!(out, "");
    let (r2, out2) = run("var t = 0; fun g(a, b){} g(t = 1, 2); print t;");
    assert!(r2.is_ok());
    assert_eq!(out2, "1\n");
}

#[test]
fn overflow_is_an_arithmetic_error() {
    let (r, _) = run("var big = 9223372036854775807; big + 1;");
    assert_eq!(r, Err(ErrKind::Arithmetic));
}

#[test]
fn missing_semicolon_is_a_parse_error() {
    let (r, _) = run("print 1");
    assert_eq!(r, Err(ErrKind::Parse));
}

#[test]
fn declaration_needs_an_identifier() {
    let (r, _) = run("var 5;");
    assert_eq!(r, Err(ErrKind::Parse));
}

#[test]
fn non_truth_condition_is_a_type_error() {
    let (r, _) = run("if (1) print 1;");
    assert_eq!(r, Err(ErrKind::Type));
}

#[test]
fn calling_a_number_is_a_type_error() {
    let (r, _) = run("var f = 3; f(1);");
    assert_eq!(r, Err(ErrKind::Type));
}

#[test]
fn runaway_loop_runs_out_of_fuel() {
    let (r, _) = run("while (true) {}");
    assert_eq!(r, Err(ErrKind::OutOfFuel));
}

// ---------------------------------------------------------------------------
// the scanner
// ---------------------------------------------------------------------------
#[test]
fn scans_a_bare_identifier() {
    let toks = scan("foo").unwrap();
    assert_eq!(toks.len(), 1);
    assert!(matches!(&toks[0], Token::Identifier(s) if s == "foo"));
}

#[test]
fn scans_keywords_and_identifiers_apart() {
    let toks = scan("while whilee _x x1").unwrap();
    assert!(matches!(&toks[0], Token::While));
    assert!(matches!(&toks[1], Token::Identifier(s) if s == "whilee"));
    assert!(matches!(&toks[2], Token::Identifier(s) if s == "_x"));
    assert!(matches!(&toks[3], Token::Identifier(s) if s == "x1"));
}

#[test]
fn scans_numbers() {
    let toks = scan("0 42 9223372036854775807").unwrap();
    assert!(matches!(&toks[0], Token::Number(Number::Integer(0))));
    assert!(matches!(&toks[1], Token::Number(Number::Integer(42))));
    assert!(matches!(&toks[2], Token::Number(Number::Integer(9223372036854775807))));
}

#[test]
fn scans_operators_single_and_double() {
    let toks = scan("! != = == < <= > >= + - * / ( ) { } , . ;").unwrap();
    assert!(matches!(&toks[0], Token::Bang));
    assert!(matches!(&toks[1], Token::BangEqual));
    assert!(matches!(&toks[2], Token::Equal));
    assert!(matches!(&toks[3], Token::EqualEqual));
    assert!(matches!(&toks[4], Token::Less));
    assert!(matches!(&toks[5], Token::LessEqual));
    assert!(matches!(&toks[6], Token::Greater));
    assert!(matches!(&toks[7], Token::GreaterEqual));
    assert!(matches!(&toks[8], Token::Plus));
    assert!(matches!(&toks[9], Token::Minus));
    assert!(matches!(&toks[10], Token::Star));
    assert!(matches!(&toks[11], Token::Slash));
    assert!(matches!(&toks[12], Token::LeftParen));
    assert!(matches!(&toks[13], Token::RightParen));
    assert!(matches!(&toks[14], Token::LeftBrace));
    assert!(matches!(&toks[15], Token::RightBrace));
    assert!(matches!(&toks[16], Token::Comma));
    assert!(matches!(&toks[17], Token::Dot));
    assert!(matches!(&toks[18], Token::Semicolon));
    assert_eq!(toks.len(), 19);
}

#[test]
fn scans_string_literals() {
    let toks = scan("\"hello world\" \"\"").unwrap();
    assert!(matches!(&toks[0], Token::StringLit(s) if s == "hello world"));
    assert!(matches!(&toks[1], Token::StringLit(s) if s.is_empty()));
}

#[test]
fn unterminated_string_is_a_lex_error() {
    assert!(matches!(scan("\"abc"), Err(ErrKind::Lex)));
    let (r, _) = run("print \"abc;");
    assert_eq!(r, Err(ErrKind::Lex));
}

#[test]
fn letter_in_a_number_is_a_lex_error() {
    assert!(matches!(scan("3a"), Err(ErrKind::Lex)));
}

#[test]
fn decimal_literal_is_a_lex_error() {
    // numbers are integers only
    assert!(matches!(scan("3.5"), Err(ErrKind::Lex)));
    assert!(matches!(scan("5."), Err(ErrKind::Lex)));
}

#[test]
fn leading_dot_is_its_own_token() {
    let toks = scan(".5").unwrap();
    assert!(matches!(&toks[0], Token::Dot));
    assert!(matches!(&toks[1], Token::Number(Number::Integer(5))));
}

#[test]
fn number_out_of_range_is_a_lex_error() {
    assert!(matches!(scan("9223372036854775808"), Err(ErrKind::Lex)));
}

#[test]
fn character_outside_the_language_is_a_lex_error() {
    assert!(matches!(scan("@"), Err(ErrKind::Lex)));
}

#[test]
fn tokens_before_a_fault_are_kept() {
    let mut toks: Vec<Token> = Vec::new();
    let r = scan_from_line(&"ab + @".to_string(), &mut toks);
    assert!(r.is_err());
    assert_eq!(toks.len(), 2);
    assert!(matches!(&toks[0], Token::Identifier(s) if s == "ab"));
    assert!(matches!(&toks[1], Token::Plus));
}

#[test]
fn finds_the_closing_quote() {
    assert_eq!(find_to_close("a\"bc", 0, '"'), Some(1));
    assert_eq!(find_to_close("abc", 1, '"'), None);
}

// ---------------------------------------------------------------------------
// numbers
// ---------------------------------------------------------------------------
#[test]
fn checked_arithmetic_on_numbers() {
    let a = Number::Integer(7);
    let b = Number::Integer(2);
    assert!(matches!(a.add_ref(&b), Some(Number::Integer(9))));
    assert!(matches!(a.sub_ref(&b), Some(Number::Integer(5))));
    assert!(matches!(a.mul_ref(&b), Some(Number::Integer(14))));
    assert!(matches!(a.div_ref(&b), Some(Number::Integer(3))));
    let m = Number::Integer(-7);
    assert!(matches!(m.div_ref(&b), Some(Number::Integer(-3))));
    assert!(matches!(a.div_ref(&Number::Integer(0)), None));
    let max = Number::Integer(i64::MAX);
    assert!(matches!(max.add_ref(&Number::Integer(1)), None));
    let min = Number::Integer(i64::MIN);
    assert!(matches!(min.neg_ref(), None));
    assert!(min.is_zero() == false);
    assert!(Number::Integer(0).is_zero());
}

// ---------------------------------------------------------------------------
// the printer and the shell helpers
// ---------------------------------------------------------------------------
#[test]
fn printer_buffers_and_hands_over() {
    let mut p = lox_lib::console::LoxPrinter::new();
    assert!(p.console_enabled());
    p.auto_to_console(false);
    assert!(!p.console_enabled());
    p.print("a");
    p.println("b");
    assert_eq!(p.take(), "ab\n");
    assert_eq!(p.take(), "");
    p.println("c");
    p.clear();
    assert_eq!(p.take(), "");
}

#[test]
fn break_command_recognition() {
    assert!(LoxParser::is_break_cmd(&".q".to_string()));
    assert!(LoxParser::is_break_cmd(&"  .q  \n".to_string()));
    assert!(!LoxParser::is_break_cmd(&".qq".to_string()));
    assert!(!LoxParser::is_break_cmd(&"".to_string()));
    assert!(!LoxParser::is_break_cmd(&"   ".to_string()));
    assert!(!LoxParser::is_break_cmd(&"q".to_string()));
}

#[test]
fn prompt_is_configurable() {
    let mut lox = LoxParser::new_test();
    assert_eq!(lox.prompt_get(), ">> ");
    lox.prompt_set("lox> ".to_string());
    assert_eq!(lox.prompt_get(), "lox> ");
}

#[test]
fn token_buffer_can_be_appended() {
    let mut lox = LoxParser::new_test();
    assert!(lox.parse_token_clear(&"print ".to_string()).is_ok());
    assert!(lox.parse_token_append(&"1;".to_string()).is_ok());
    assert!(lox.exec_stmt_all_available().is_ok());
    assert_eq!(lox.console_take(), "1\n");
}

#[test]
fn statements_can_be_run_one_by_one() {
    let mut lox = LoxParser::new_test();
    assert!(lox.parse_token_clear(&"var n = 2; print n + n;".to_string()).is_ok());
    let s1 = lox.parse_stmt().unwrap();
    assert!(lox.exec_stmt(s1).is_ok());
    let s2 = lox.parse_stmt().unwrap();
    assert!(lox.exec_stmt(s2).is_ok());
    assert_eq!(lox.console_take(), "4\n");
}
