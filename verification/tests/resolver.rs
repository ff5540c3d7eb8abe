use rlox::ast::{Node, Program};
use rlox::lexer::lex;
use rlox::parser::parse;
use rlox::resolver::{resolve, ResolveError, ResolveErrorKind, ScopeTable};

fn program_of(source: &str) -> Program {
    let (tokens, lexical) = lex(source);
    assert!(lexical.is_empty());
    let (program, syntax) = parse(&tokens);
    assert!(syntax.is_empty());
    program
}

fn resolve_source(source: &str) -> (Program, Result<ScopeTable, Vec<ResolveError>>) {
    let program = program_of(source);
    let result = resolve(&program);
    (program, result)
}

fn kinds(source: &str) -> Vec<ResolveErrorKind> {
    match resolve_source(source).1 {
        Ok(_) => vec![],
        Err(errors) => errors.iter().map(|e| e.kind).collect(),
    }
}

/// The depths recorded for the reads of `name`, in node order.
fn depths_of(program: &Program, table: &ScopeTable, name: &str) -> Vec<Option<usize>> {
    let mut found = vec![];
    for (id, node) in program.nodes.iter().enumerate() {
        match *node {
            Node::Variable { name: symbol, .. } if program.symbols[symbol] == name => {
                found.push(table.depths[id])
            }
            _ => {}
        }
    }
    found
}

/// The depths recorded for the assignments to `name`, in node order.
fn assigned_depths_of(program: &Program, table: &ScopeTable, name: &str) -> Vec<Option<usize>> {
    let mut found = vec![];
    for (id, node) in program.nodes.iter().enumerate() {
        match *node {
            Node::Assign { name: symbol, .. } if program.symbols[symbol] == name => {
                found.push(table.depths[id])
            }
            _ => {}
        }
    }
    found
}

#[test]
fn globals_get_no_entry() {
    let (program, result) = resolve_source("var a = 1; print a; a = 2;");
    let table = result.unwrap();
    assert_eq!(table.depths.len(), program.nodes.len());
    assert!(table.depths.iter().all(|d| d.is_none()));
}

#[test]
fn locals_are_counted_from_the_use_to_the_declaration() {
    let (program, result) =
        resolve_source("{ var a = 1; { var b = 2; { print a; print b; print a + b; } } }");
    let table = result.unwrap();
    assert_eq!(depths_of(&program, &table, "a"), vec![Some(2), Some(2)]);
    assert_eq!(depths_of(&program, &table, "b"), vec![Some(1), Some(1)]);
}

#[test]
fn assignments_are_resolved_like_reads() {
    let (program, result) = resolve_source("var g; { var a = 1; { a = 2; g = 3; } }");
    let table = result.unwrap();
    assert_eq!(assigned_depths_of(&program, &table, "a"), vec![Some(1)]);
    assert_eq!(assigned_depths_of(&program, &table, "g"), vec![None]);
}

#[test]
fn the_closest_declaration_wins() {
    let (program, result) = resolve_source("{ var a = 1; { var a = 2; print a; } print a; }");
    let table = result.unwrap();
    assert_eq!(depths_of(&program, &table, "a"), vec![Some(0), Some(0)]);
}

#[test]
fn a_closure_keeps_the_binding_it_was_declared_under() {
    let (program, result) =
        resolve_source("{ var a = 1; { fun show() { print a; } var a = 2; show(); } }");
    let table = result.unwrap();
    assert_eq!(depths_of(&program, &table, "a"), vec![Some(2)]);
}

#[test]
fn parameters_live_in_the_scope_of_the_body() {
    let (program, result) = resolve_source("fun f(x) { print x; { print x; } }");
    let table = result.unwrap();
    assert_eq!(depths_of(&program, &table, "x"), vec![Some(0), Some(1)]);
}

#[test]
fn this_and_super_are_resolved_like_variables() {
    let (program, result) = resolve_source(
        "class A { m() { return this; } } class B < A { m() { return super.m(); } }",
    );
    let table = result.unwrap();
    for (id, node) in program.nodes.iter().enumerate() {
        match *node {
            Node::This { .. } => assert_eq!(table.depths[id], Some(1)),
            Node::Super { .. } => assert_eq!(table.depths[id], Some(2)),
            _ => {}
        }
    }
}

#[test]
fn self_inheritance_is_rejected() {
    let (_, result) = resolve_source("class A < A {}");
    let errors = result.unwrap_err();
    assert_eq!(errors.len(), 1);
    assert_eq!(errors[0].kind, ResolveErrorKind::InheritsFromItself);
    assert_eq!(errors[0].line, 1);
}

#[test]
fn return_outside_a_function_is_rejected() {
    assert_eq!(kinds("return 1;"), vec![ResolveErrorKind::ReturnOutsideFunction]);
    assert_eq!(kinds("fun f() { return 1; }"), vec![]);
}

#[test]
fn return_with_a_value_from_an_initializer_is_rejected() {
    assert_eq!(
        kinds("class A { init() { return 1; } }"),
        vec![ResolveErrorKind::ReturnFromInitializer]
    );
    assert_eq!(kinds("class A { init() { return; } }"), vec![]);
}

#[test]
fn this_outside_a_class_is_rejected() {
    assert_eq!(kinds("print this;"), vec![ResolveErrorKind::ThisOutsideClass]);
    assert_eq!(kinds("fun f() { return this; }"), vec![ResolveErrorKind::ThisOutsideClass]);
}

#[test]
fn super_outside_a_subclass_is_rejected() {
    assert_eq!(kinds("print super.m;"), vec![ResolveErrorKind::SuperOutsideClass]);
    assert_eq!(
        kinds("class A { m() { return super.m(); } }"),
        vec![ResolveErrorKind::SuperWithoutSuperclass]
    );
}

#[test]
fn a_local_read_in_its_own_initializer_is_rejected() {
    assert_eq!(kinds("var a = 1; { var a = a; }"), vec![ResolveErrorKind::OwnInitializer]);
    assert_eq!(kinds("var a = a;"), vec![]);
}

#[test]
fn a_local_declared_twice_is_rejected() {
    assert_eq!(kinds("{ var a = 1; var a = 2; }"), vec![ResolveErrorKind::AlreadyDeclared]);
    assert_eq!(kinds("fun f(a, a) {}"), vec![ResolveErrorKind::AlreadyDeclared]);
    assert_eq!(kinds("var a = 1; var a = 2;"), vec![]);
}

#[test]
fn all_errors_are_collected() {
    assert_eq!(
        kinds("return 1; print this; class A < A {}"),
        vec![
            ResolveErrorKind::ReturnOutsideFunction,
            ResolveErrorKind::ThisOutsideClass,
            ResolveErrorKind::InheritsFromItself
        ]
    );
}
