use lox_lib::error::ErrKind;
use lox_lib::LoxParser;

fn run(code: &str) -> (Result<(), ErrKind>, String) {
    let mut lox = LoxParser::new_test();
    let r = lox.exec_line(&code.to_string()).map_err(|e| e.kind);
    (r, lox.console_take())
}

#[test]
fn calc_precedence_chain() {
    let (r, out) = run("var n = 3 * (4 + 5 * 9) - 10; print n;");
    assert!(r.is_ok());
    assert_eq!(out, "137\n");
}

#[test]
fn shadowing_in_nested_blocks() {
    let (r, out) = run("{ var n=\"n1\"; print n; { var n=\"n2\"; print n; } print n; }");
    assert!(r.is_ok());
    assert_eq!(out, "n1\nn2\nn1\n");
}

#[test]
fn dangling_else_chain() {
    let (r, out) = run("var n = 5; if (n==3) print 1; else if (n==4) print 2; else if (n==5) print 3;");
    assert!(r.is_ok());
    assert_eq!(out, "3\n");
}

#[test]
fn while_counts_to_five() {
    let (r, out) = run("var n=0; while (n<5) { print n; n = n+1; }");
    assert!(r.is_ok());
    assert_eq!(out, "0\n1\n2\n3\n4\n");
}

#[test]
fn for_without_init_or_step() {
    let (r, out) = run("var a=0; var b=1; var t; for (; a<20;) { print a; t=a; a=b; b=t+b; }");
    assert!(r.is_ok());
    assert_eq!(out, "0\n1\n1\n2\n3\n5\n8\n13\n");
}

#[test]
fn two_parameter_function() {
    let (r, out) = run("fun f(x,y) { print x; print y; } f(1,2);");
    assert!(r.is_ok());
    assert_eq!(out, "1\n2\n");
}

#[test]
fn loop_variable_shadows_function_name() {
    // Inside `o`, the loop declares `var i` in its own scope, and lookup runs
    // from the innermost scope outward: at the call `i(i)` the loop variable
    // shadows the function `i`, so the call fails with a type error before
    // anything prints.
    let (r, out) = run(
        "fun o(n){ fun i(k){ for (var i=0;i<k;i=i+1) print i; } for (var i=0;i<n;i=i+1) i(i); } o(3);",
    );
    assert_eq!(r, Err(ErrKind::Type));
    assert_eq!(out, "");
}

#[test]
fn nested_functions_under_distinct_names() {
    let (r, out) = run(
        "fun inner(k){ for (var i=0;i<k;i=i+1) print i; } fun outer(n){ for (var i=0;i<n;i=i+1) inner(i); } outer(3);",
    );
    assert!(r.is_ok());
    assert_eq!(out, "0\n0\n1\n");
}

#[test]
fn assignment_after_declaration() {
    let (r, out) = run("var x; x = 1; print x;");
    assert!(r.is_ok());
    assert_eq!(out, "1\n");
}

#[test]
fn assignment_yields_its_value() {
    let (r, out) = run("var x; print x = 5;");
    assert!(r.is_ok());
    assert_eq!(out, "5\n");
}

#[test]
fn assignment_in_block_persists() {
    let (r, out) = run("var x = 1; { x = 2; } print x;");
    assert!(r.is_ok());
    assert_eq!(out, "2\n");
}

#[test]
fn parameters_are_copies() {
    let (r, out) = run("var a = 1; fun f(a) { a = 99; } f(a); print a;");
    assert!(r.is_ok());
    assert_eq!(out, "1\n");
}

#[test]
fn declaration_defaults_to_nil() {
    let (r, out) = run("var x; print x;");
    assert!(r.is_ok());
    assert_eq!(out, "(Nil)\n");
}

#[test]
fn print_value_forms() {
    let (r, out) = run("print true; print false; print nil; print -5; print 0; print \"hi\";");
    assert!(r.is_ok());
    assert_eq!(out, "true\nfalse\n(Nil)\n-5\n0\nhi\n");
}

#[test]
fn string_number_concatenation() {
    let (r, out) = run("print \"a\" + 1; print 2 + \"b\"; print \"a\" + \"b\";");
    assert!(r.is_ok());
    assert_eq!(out, "a1\n2b\nab\n");
}

#[test]
fn equality_across_shapes() {
    let (r, out) = run(
        "print 1 == 1; print \"a\" == \"a\"; print 1 == \"1\"; print nil == nil; print 1 != 2;",
    );
    assert!(r.is_ok());
    assert_eq!(out, "true\ntrue\nfalse\ntrue\ntrue\n");
}

#[test]
fn functions_compare_unequal() {
    let (r, out) = run("fun f(){} fun g(){} print f == g; print f == f;");
    assert!(r.is_ok());
    assert_eq!(out, "false\nfalse\n");
}

#[test]
fn truthiness_of_not() {
    let (r, out) = run("print !true; print !false; print !nil;");
    assert!(r.is_ok());
    assert_eq!(out, "false\ntrue\nfalse\n");
}

#[test]
fn comparisons_on_numbers() {
    let (r, out) = run("print 1 < 2; print 2 <= 1; print 3 > 2; print 2 >= 3;");
    assert!(r.is_ok());
    assert_eq!(out, "true\nfalse\ntrue\nfalse\n");
}

#[test]
fn logic_operators_need_truth_values() {
    let (r, out) = run("print true and false; print false or true;");
    assert!(r.is_ok());
    assert_eq!(out, "false\ntrue\n");
    let (r2, out2) = run("print 1 and true;");
    assert_eq!(r2, Err(ErrKind::Type));
    assert_eq!(out2, "");
}

#[test]
fn truncating_division() {
    let (r, out) = run("print 7 / 2; print 0 - 7 / 2; print 137 / 137;");
    assert!(r.is_ok());
    assert_eq!(out, "3\n-3\n1\n");
}

#[test]
fn call_yields_nil() {
    let (r, out) = run("fun f(){} print f();");
    assert!(r.is_ok());
    assert_eq!(out, "(Nil)\n");
}

#[test]
fn errors_keep_earlier_output() {
    // effects before the failure point persist; the rest of the input is
    // discarded
    let (r, out) = run("print 1; print x; print 2;");
    assert_eq!(r, Err(ErrKind::Name));
    assert_eq!(out, "1\n");
}

#[test]
fn session_state_persists_across_lines() {
    let mut lox = LoxParser::new_test();
    assert!(lox.exec_line(&"var n = 3;".to_string()).is_ok());
    assert!(lox.exec_line(&"n = n + 4;".to_string()).is_ok());
    assert!(lox.exec_line(&"print n;".to_string()).is_ok());
    assert_eq!(lox.console_take(), "7\n");
    lox.clear();
    let r = lox.exec_line(&"print n;".to_string());
    assert!(r.is_err());
}
