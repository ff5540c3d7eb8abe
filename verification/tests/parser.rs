use rlox::ast::{BinaryOp, List, Node, Program};
use rlox::lexer::lex;
use rlox::parser::{parse, SyntaxError, SyntaxErrorKind};
use rlox::token::TokenKind;

fn parse_source(source: &str) -> (Program, Vec<SyntaxError>) {
    let (tokens, errors) = lex(source);
    assert!(errors.is_empty());
    parse(&tokens)
}

fn items(program: &Program, list: List) -> Vec<usize> {
    program.links[list.start..list.start + list.len].to_vec()
}

#[test]
fn empty_program_has_no_statements() {
    let (program, errors) = parse_source("");
    assert!(errors.is_empty());
    assert!(program.roots.is_empty());
    assert!(program.nodes.is_empty());
    assert_eq!(program.symbols, vec!["init", "this", "super"]);
}

#[test]
fn factors_bind_tighter_than_terms() {
    let (program, errors) = parse_source("1 + 2 * 3;");
    assert!(errors.is_empty());
    assert_eq!(program.roots.len(), 1);
    let Node::Expression { expr } = program.nodes[program.roots[0]] else { panic!("not a statement") };
    let Node::Binary { op, left, right, line } = program.nodes[expr] else { panic!("not a sum") };
    assert_eq!(op, BinaryOp::Add);
    assert_eq!(line, 1);
    assert_eq!(program.nodes[left], Node::Number { text: 0 });
    let Node::Binary { op, left, right, .. } = program.nodes[right] else { panic!("not a product") };
    assert_eq!(op, BinaryOp::Multiply);
    assert_eq!(program.nodes[left], Node::Number { text: 1 });
    assert_eq!(program.nodes[right], Node::Number { text: 2 });
    assert_eq!(program.texts, vec!["1", "2", "3"]);
}

#[test]
fn binary_operators_associate_to_the_left() {
    let (program, errors) = parse_source("8 - 4 - 2;");
    assert!(errors.is_empty());
    let Node::Expression { expr } = program.nodes[program.roots[0]] else { panic!("not a statement") };
    let Node::Binary { op, left, right, .. } = program.nodes[expr] else { panic!("not a difference") };
    assert_eq!(op, BinaryOp::Subtract);
    assert_eq!(program.nodes[right], Node::Number { text: 2 });
    let Node::Binary { op, left, right, .. } = program.nodes[left] else { panic!("not a difference") };
    assert_eq!(op, BinaryOp::Subtract);
    assert_eq!(program.nodes[left], Node::Number { text: 0 });
    assert_eq!(program.nodes[right], Node::Number { text: 1 });
}

#[test]
fn assignment_associates_to_the_right() {
    let (program, errors) = parse_source("a = b = 1;");
    assert!(errors.is_empty());
    let Node::Expression { expr } = program.nodes[program.roots[0]] else { panic!("not a statement") };
    let Node::Assign { name, value, .. } = program.nodes[expr] else { panic!("not an assignment") };
    assert_eq!(program.symbols[name], "a");
    let Node::Assign { name, value, .. } = program.nodes[value] else { panic!("not an assignment") };
    assert_eq!(program.symbols[name], "b");
    assert_eq!(program.nodes[value], Node::Number { text: 0 });
}

#[test]
fn every_node_stands_behind_its_children() {
    let (program, errors) = parse_source(
        "class A < B { init(x) { this.x = x; } get() { return super.get() + this.x; } }
         fun f(a, b) { for (var i = 0; i < a; i = i + 1) { print i and b or !a; } }
         if (f(1, 2)(3).y == nil) { while (true) x.y.z = -1; } else print \"s\";",
    );
    assert!(errors.is_empty());
    assert_eq!(program.roots.len(), 3);
    for (at, node) in program.nodes.iter().enumerate() {
        let children: Vec<usize> = match *node {
            Node::Grouping { inner } => vec![inner],
            Node::Unary { operand, .. } => vec![operand],
            Node::Binary { left, right, .. } => vec![left, right],
            Node::Logical { left, right, .. } => vec![left, right],
            Node::Assign { value, .. } => vec![value],
            Node::Call { callee, args, .. } => {
                let mut all = items(&program, args);
                all.push(callee);
                all
            }
            Node::GetField { object, .. } => vec![object],
            Node::SetField { object, value, .. } => vec![object, value],
            Node::Expression { expr } => vec![expr],
            Node::Print { expr } => vec![expr],
            Node::Var { init, .. } => init.into_iter().collect(),
            Node::Block { body } => items(&program, body),
            Node::If { cond, then_branch, else_branch } => {
                let mut all = vec![cond, then_branch];
                all.extend(else_branch);
                all
            }
            Node::While { cond, body } => vec![cond, body],
            Node::Function { body, .. } => items(&program, body),
            Node::Return { value, .. } => value.into_iter().collect(),
            Node::Class { superclass, methods, .. } => {
                let mut all = items(&program, methods);
                all.extend(superclass);
                all
            }
            _ => vec![],
        };
        for child in children {
            assert!(child < at);
        }
    }
}

#[test]
fn for_stands_for_a_while_loop() {
    let (program, errors) = parse_source("for (var i = 0; i < 3; i = i + 1) print i;");
    assert!(errors.is_empty());
    let Node::Block { body } = program.nodes[program.roots[0]] else { panic!("not a block") };
    let outer = items(&program, body);
    assert_eq!(outer.len(), 2);
    assert!(matches!(program.nodes[outer[0]], Node::Var { .. }));
    let Node::While { cond, body } = program.nodes[outer[1]] else { panic!("not a loop") };
    assert!(matches!(program.nodes[cond], Node::Binary { op: BinaryOp::Less, .. }));
    let Node::Block { body } = program.nodes[body] else { panic!("not a block") };
    let inner = items(&program, body);
    assert_eq!(inner.len(), 2);
    assert!(matches!(program.nodes[inner[0]], Node::Print { .. }));
    assert!(matches!(program.nodes[inner[1]], Node::Expression { .. }));
}

#[test]
fn for_without_clauses_loops_on_true() {
    let (program, errors) = parse_source("for (;;) print 1;");
    assert!(errors.is_empty());
    let Node::While { cond, body } = program.nodes[program.roots[0]] else { panic!("not a loop") };
    assert_eq!(program.nodes[cond], Node::Boolean { value: true });
    assert!(matches!(program.nodes[body], Node::Print { .. }));
}

#[test]
fn errors_are_collected_and_parsing_resumes() {
    let (program, errors) = parse_source("var = 1; print 2; print ; var x = 3;");
    assert_eq!(
        errors,
        vec![
            SyntaxError { kind: SyntaxErrorKind::Expected(TokenKind::Identifier), token: 1, line: 1 },
            SyntaxError { kind: SyntaxErrorKind::ExpectedExpression, token: 8, line: 1 },
        ]
    );
    assert_eq!(program.roots.len(), 2);
    assert!(matches!(program.nodes[program.roots[0]], Node::Print { .. }));
    assert!(matches!(program.nodes[program.roots[1]], Node::Var { .. }));
}

#[test]
fn invalid_assignment_target_is_an_error() {
    let (program, errors) = parse_source("1 = 2;");
    assert_eq!(
        errors,
        vec![SyntaxError { kind: SyntaxErrorKind::InvalidAssignmentTarget, token: 1, line: 1 }]
    );
    assert!(program.roots.is_empty());
}

#[test]
fn missing_semicolon_at_end_is_reported_on_the_last_line() {
    let (_, errors) = parse_source("print 1;\nprint 2");
    assert_eq!(
        errors,
        vec![SyntaxError { kind: SyntaxErrorKind::Expected(TokenKind::Semicolon), token: 5, line: 2 }]
    );
}

#[test]
fn names_are_interned_once() {
    let (program, errors) = parse_source("var a = 1; var b = a; a = b;");
    assert!(errors.is_empty());
    assert_eq!(program.symbols, vec!["init", "this", "super", "a", "b"]);
}

#[test]
fn a_stray_brace_at_top_level_is_an_error() {
    let (program, errors) = parse_source("} print 1;");
    assert_eq!(
        errors,
        vec![SyntaxError { kind: SyntaxErrorKind::ExpectedExpression, token: 0, line: 1 }]
    );
    assert_eq!(program.roots.len(), 1);
}

#[test]
fn a_class_has_a_name_a_superclass_and_methods() {
    let (program, errors) = parse_source("class B < A { init(x) { } get() { return 1; } }");
    assert!(errors.is_empty());
    let Node::Class { name, superclass, methods, line } = program.nodes[program.roots[0]] else {
        panic!("not a class")
    };
    assert_eq!(program.symbols[name], "B");
    assert_eq!(line, 1);
    let Node::Variable { name: parent, .. } = program.nodes[superclass.unwrap()] else {
        panic!("not a name")
    };
    assert_eq!(program.symbols[parent], "A");
    let methods = items(&program, methods);
    assert_eq!(methods.len(), 2);
    let Node::Function { name, params, body, .. } = program.nodes[methods[0]] else {
        panic!("not a method")
    };
    assert_eq!(name, 0);
    assert_eq!(program.symbols[name], "init");
    let params = items(&program, params);
    assert_eq!(params.len(), 1);
    assert_eq!(program.symbols[params[0]], "x");
    assert_eq!(body.len, 0);
}

#[test]
fn calls_and_property_accesses_chain_to_the_left() {
    let (program, errors) = parse_source("a.b(1, 2).c;");
    assert!(errors.is_empty());
    let Node::Expression { expr } = program.nodes[program.roots[0]] else { panic!("not a statement") };
    let Node::GetField { object, name, .. } = program.nodes[expr] else { panic!("not a property") };
    assert_eq!(program.symbols[name], "c");
    let Node::Call { callee, args, .. } = program.nodes[object] else { panic!("not a call") };
    assert_eq!(args.len, 2);
    let Node::GetField { object, name, .. } = program.nodes[callee] else { panic!("not a property") };
    assert_eq!(program.symbols[name], "b");
    assert!(matches!(program.nodes[object], Node::Variable { .. }));
}

#[test]
fn a_property_can_be_assigned_to() {
    let (program, errors) = parse_source("a.b.c = 1;");
    assert!(errors.is_empty());
    let Node::Expression { expr } = program.nodes[program.roots[0]] else { panic!("not a statement") };
    let Node::SetField { object, name, value, .. } = program.nodes[expr] else {
        panic!("not an assignment")
    };
    assert_eq!(program.symbols[name], "c");
    assert!(matches!(program.nodes[object], Node::GetField { .. }));
    assert!(matches!(program.nodes[value], Node::Number { .. }));
}

#[test]
fn parentheses_are_kept_in_the_tree() {
    let (program, errors) = parse_source("(1 + 2) * -!3;");
    assert!(errors.is_empty());
    let Node::Expression { expr } = program.nodes[program.roots[0]] else { panic!("not a statement") };
    let Node::Binary { op, left, right, .. } = program.nodes[expr] else { panic!("not a product") };
    assert_eq!(op, BinaryOp::Multiply);
    let Node::Grouping { inner } = program.nodes[left] else { panic!("not a group") };
    assert!(matches!(program.nodes[inner], Node::Binary { op: BinaryOp::Add, .. }));
    let Node::Unary { operand, .. } = program.nodes[right] else { panic!("not a negation") };
    assert!(matches!(program.nodes[operand], Node::Unary { .. }));
}

#[test]
fn an_error_in_a_block_is_recovered_from_inside_the_block() {
    let (program, errors) = parse_source("{ print 1; var = 2; print 3; } print 4;");
    assert_eq!(errors.len(), 1);
    assert_eq!(errors[0].kind, SyntaxErrorKind::Expected(TokenKind::Identifier));
    assert_eq!(program.roots.len(), 2);
    let Node::Block { body } = program.nodes[program.roots[0]] else { panic!("not a block") };
    assert_eq!(body.len, 2);
}

#[test]
fn tokens_without_an_end_marker_are_parsed_too() {
    let (mut tokens, _) = lex("print 1;");
    tokens.pop();
    let (program, errors) = parse(&tokens);
    assert!(errors.is_empty());
    assert_eq!(program.roots.len(), 1);
    let (program, errors) = parse(&Vec::new());
    assert!(errors.is_empty());
    assert!(program.roots.is_empty());
}
