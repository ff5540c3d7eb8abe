use rlox::front::{compile, start, REJECTED};
use rlox::interpreter::Interpreter;
use rlox::runtime::{Action, Event, Value};
use rlox::lexer::{LexError, LexErrorKind};
use rlox::parser::SyntaxErrorKind;
use rlox::resolver::ResolveErrorKind;
use rlox::token::TokenKind;

#[test]
fn a_good_text_compiles() {
    let (program, table) = compile("var a = 1; { var b = a; print b; }").unwrap();
    assert_eq!(program.roots.len(), 2);
    assert_eq!(table.depths.len(), program.nodes.len());
}

#[test]
fn lexical_and_syntax_errors_come_back_together() {
    let found = compile("var a = @; print ;").unwrap_err();
    assert_eq!(found.lexical, vec![LexError { kind: LexErrorKind::UnexpectedCharacter, line: 1 }]);
    assert_eq!(found.syntax.len(), 2);
    assert_eq!(found.syntax[0].kind, SyntaxErrorKind::ExpectedExpression);
    assert!(found.resolution.is_empty());
}

#[test]
fn resolution_errors_come_back_when_the_text_parses() {
    let found = compile("return 1;").unwrap_err();
    assert!(found.lexical.is_empty());
    assert!(found.syntax.is_empty());
    assert_eq!(found.resolution.len(), 1);
    assert_eq!(found.resolution[0].kind, ResolveErrorKind::ReturnOutsideFunction);
}

#[test]
fn the_status_of_a_rejected_text_is_64() {
    assert_eq!(REJECTED, 64);
}

#[test]
fn diagnostics_have_a_message() {
    let found = compile("print 1").unwrap_err();
    assert_eq!(found.syntax[0].kind, SyntaxErrorKind::Expected(TokenKind::Semicolon));
    assert_eq!(found.syntax[0].message(), "Expect ';'.");
    let found = compile("\"abc").unwrap_err();
    assert_eq!(found.lexical[0].message(), "Unterminated string.");
    let found = compile("class A < A {}").unwrap_err();
    assert_eq!(found.resolution[0].message(), "A class can't inherit from itself.");
}

#[test]
fn a_good_text_starts_to_run() {
    let mut interpreter = Interpreter::new();
    assert_eq!(start(&mut interpreter, "var a = \"x\"; { var b = a; print b; }", 100).unwrap(),
        Action::Print(Value::Text(0)));
    assert_eq!(interpreter.render(Value::Text(0)).unwrap(), "x");
    assert_eq!(interpreter.resume(Event::Done, 100), Action::Finished);
    assert_eq!(start(&mut interpreter, "print a == \"x\";", 100).unwrap(),
        Action::Print(Value::Boolean(true)));
}

#[test]
fn a_text_that_is_turned_down_does_not_run() {
    let mut interpreter = Interpreter::new();
    assert_eq!(start(&mut interpreter, "var a;", 100).unwrap(), Action::Finished);
    let found = start(&mut interpreter, "var a = ; print this;", 100).unwrap_err();
    assert_eq!(found.syntax.len(), 1);
    assert!(found.resolution.is_empty());
    let found = start(&mut interpreter, "a = nil; print this;", 100).unwrap_err();
    assert_eq!(found.resolution.len(), 1);
    assert_eq!(start(&mut interpreter, "print a == nil;", 100).unwrap(),
        Action::Print(Value::Boolean(true)));
}
