use rlox::ast::BinaryOp;
use rlox::interpreter::Interpreter;
use rlox::lexer::lex;
use rlox::parser::parse;
use rlox::resolver::resolve;
use rlox::runtime::{Action, Event, RuntimeError, RuntimeErrorKind, Value};

/// Does what an action asks for; `None` when the run is over.
fn serve(interpreter: &Interpreter, action: Action, out: &mut Vec<String>) -> Option<Event> {
    match action {
        Action::Print(Value::Number(bits)) => {
            out.push(format!("{}", f64::from_bits(bits)));
            Some(Event::Done)
        }
        Action::Print(value) => {
            out.push(interpreter.render(value).unwrap());
            Some(Event::Done)
        }
        Action::ParseNumber(at) => {
            let text = interpreter.text(at).unwrap();
            Some(Event::Number(text.parse::<f64>().unwrap().to_bits()))
        }
        Action::Negate(bits) => Some(Event::Number((-f64::from_bits(bits)).to_bits())),
        Action::Arithmetic(op, a, b) => {
            let (a, b) = (f64::from_bits(a), f64::from_bits(b));
            let value = match op {
                BinaryOp::Add => a + b,
                BinaryOp::Subtract => a - b,
                BinaryOp::Multiply => a * b,
                BinaryOp::Divide => a / b,
                _ => unreachable!(),
            };
            Some(Event::Number(value.to_bits()))
        }
        Action::Compare(op, a, b) => {
            let (a, b) = (f64::from_bits(a), f64::from_bits(b));
            let truth = match op {
                BinaryOp::Equal => a == b,
                BinaryOp::NotEqual => a != b,
                BinaryOp::Less => a < b,
                BinaryOp::LessEqual => a <= b,
                BinaryOp::Greater => a > b,
                BinaryOp::GreaterEqual => a >= b,
                _ => unreachable!(),
            };
            Some(Event::Truth(truth))
        }
        Action::Pause => Some(Event::Done),
        Action::Finished | Action::Failed(_) => None,
    }
}

fn run_in(interpreter: &mut Interpreter, source: &str) -> (Vec<String>, Option<RuntimeError>) {
    let (tokens, lexical) = lex(source);
    assert!(lexical.is_empty());
    let (program, syntax) = parse(&tokens);
    assert!(syntax.is_empty());
    let table = resolve(&program).unwrap();
    interpreter.add_scopes(table);
    let mut out = vec![];
    let mut action = interpreter.interpret(program, 1000);
    loop {
        match serve(interpreter, action, &mut out) {
            Some(event) => action = interpreter.resume(event, 1000),
            None => break,
        }
    }
    match action {
        Action::Failed(error) => (out, Some(error)),
        _ => (out, None),
    }
}

fn run(source: &str) -> (Vec<String>, Option<RuntimeError>) {
    run_in(&mut Interpreter::new(), source)
}

fn output(source: &str) -> Vec<String> {
    let (out, error) = run(source);
    assert_eq!(error, None);
    out
}

fn failure(source: &str) -> RuntimeError {
    run(source).1.unwrap()
}

#[test]
fn an_inner_variable_shadows_an_outer_one() {
    assert_eq!(output("var a = 1; { var a = 2; print a; } print a;"), vec!["2", "1"]);
}

#[test]
fn a_closure_sees_the_variable_not_a_copy() {
    assert_eq!(
        output(
            "fun makeCounter(){ var i=0; fun inc(){ i = i + 1; return i; } return inc; } \
             var c = makeCounter(); print c(); print c();"
        ),
        vec!["1", "2"]
    );
}

#[test]
fn two_closures_of_one_call_share_the_variable() {
    assert_eq!(
        output(
            "var get; var set; \
             fun make() { var x = 1; fun g() { return x; } fun s(v) { x = v; } get = g; set = s; } \
             make(); print get(); set(5); print get();"
        ),
        vec!["1", "5"]
    );
}

#[test]
fn a_later_declaration_does_not_capture_an_earlier_closure() {
    assert_eq!(
        output(
            "var a = \"global\"; \
             { fun show() { print a; } show(); var a = \"block\"; show(); }"
        ),
        vec!["global", "global"]
    );
}

#[test]
fn a_call_with_too_few_arguments_fails_and_prints_nothing_more() {
    let (out, error) = run("fun f(a, b) { print a; } print 1; f(2); print 3;");
    assert_eq!(out, vec!["1"]);
    assert_eq!(
        error,
        Some(RuntimeError { kind: RuntimeErrorKind::Arity { expected: 2, got: 1 }, line: 1 })
    );
}

#[test]
fn a_call_with_too_many_arguments_fails() {
    assert_eq!(
        failure("fun f() {}\nf(1, 2, 3);"),
        RuntimeError { kind: RuntimeErrorKind::Arity { expected: 0, got: 3 }, line: 2 }
    );
    assert_eq!(
        failure("class A {}\nA(1);").kind,
        RuntimeErrorKind::Arity { expected: 0, got: 1 }
    );
    assert_eq!(
        failure("class A { init(x) {} }\nA();").kind,
        RuntimeErrorKind::Arity { expected: 1, got: 0 }
    );
}

#[test]
fn super_calls_the_method_of_the_superclass_on_this_instance() {
    assert_eq!(
        output(
            "class A { say() { print this.tag + \" via A\"; } } \
             class B < A { say() { super.say(); print \"B\"; } } \
             class C < B { } \
             var c = C(); c.tag = \"c\"; c.say();"
        ),
        vec!["c via A", "B"]
    );
}

#[test]
fn super_starts_at_the_immediate_superclass() {
    assert_eq!(
        output(
            "class A { m() { print \"A\"; } } \
             class B < A { m() { print \"B\"; } t() { super.m(); } } \
             class C < B { m() { print \"C\"; } } \
             C().t();"
        ),
        vec!["A"]
    );
}

#[test]
fn arithmetic_follows_precedence() {
    assert_eq!(
        output("print 1 + 2 * 3; print (1 + 2) * 3; print 10 / 4; print -2 - -3; print 7 - 2 - 1;"),
        vec!["7", "9", "2.5", "1", "4"]
    );
}

#[test]
fn comparison_and_equality() {
    assert_eq!(
        output(
            "print 1 < 2; print 2 <= 2; print 3 > 4; print 4 >= 5; print 1 == 1; print 1 != 1; \
             print \"a\" == \"a\"; print \"a\" == \"b\"; print nil == nil; print nil == false; \
             print 1 == \"1\"; print true != false;"
        ),
        vec![
            "true", "true", "false", "false", "true", "false", "true", "false", "true", "false",
            "false", "true"
        ]
    );
}

#[test]
fn strings_are_joined_by_plus() {
    assert_eq!(output("var a = \"foo\"; print a + \"bar\" + a;"), vec!["foobarfoo"]);
    assert_eq!(output("print \"a\" + \"b\" == \"ab\";"), vec!["true"]);
}

#[test]
fn only_nil_and_false_are_falsy() {
    assert_eq!(
        output(
            "if (0) print \"zero\"; if (\"\") print \"empty\"; if (nil) print \"nil\"; \
             if (false) print \"false\"; else print \"else\"; print !nil; print !0;"
        ),
        vec!["zero", "empty", "else", "true", "false"]
    );
}

#[test]
fn logical_operators_short_circuit_and_give_an_operand() {
    assert_eq!(
        output(
            "print nil or \"x\"; print 1 or 2; print nil and 1; print 1 and 2; \
             var a = 0; fun f() { a = 1; return true; } print false and f(); print a; \
             print true or f(); print a;"
        ),
        vec!["x", "1", "nil", "2", "false", "0", "true", "0"]
    );
}

#[test]
fn loops_run_until_the_condition_fails() {
    assert_eq!(output("var i = 0; while (i < 3) { print i; i = i + 1; }"), vec!["0", "1", "2"]);
    assert_eq!(
        output("var s = 0; for (var i = 1; i <= 100; i = i + 1) s = s + i; print s;"),
        vec!["5050"]
    );
}

#[test]
fn each_iteration_of_a_block_has_its_own_variables() {
    assert_eq!(
        output(
            "var f; var g; var n = 0; \
             while (n < 2) { var x = n; fun h() { return x; } if (n == 0) f = h; else g = h; n = n + 1; } \
             print f(); print g();"
        ),
        vec!["0", "1"]
    );
}

#[test]
fn functions_recur() {
    assert_eq!(
        output("fun fib(n) { if (n < 2) return n; return fib(n - 1) + fib(n - 2); } print fib(15);"),
        vec!["610"]
    );
}

#[test]
fn return_leaves_loops_and_blocks() {
    assert_eq!(
        output(
            "fun find() { var i = 0; while (true) { { if (i == 3) return i; } i = i + 1; } } \
             print find(); print 1 + find();"
        ),
        vec!["3", "4"]
    );
}

#[test]
fn a_function_without_return_gives_nil() {
    assert_eq!(output("fun f() {} print f(); fun g() { return; } print g();"), vec!["nil", "nil"]);
}

#[test]
fn values_print_as_lox_prints_them() {
    assert_eq!(
        output(
            "fun f() {} class A {} print f; print A; print A(); print nil; print true; print 1.5; \
             print \"s\";"
        ),
        vec!["<fn f>", "A", "A instance", "nil", "true", "1.5", "s"]
    );
}

#[test]
fn instances_have_fields() {
    assert_eq!(
        output("class P {} var p = P(); p.x = 1; p.y = p.x + 1; p.x = 10; print p.x; print p.y;"),
        vec!["10", "2"]
    );
}

#[test]
fn the_initializer_sets_up_the_instance() {
    assert_eq!(
        output(
            "class P { init(x, y) { this.x = x; this.y = y; } sum() { return this.x + this.y; } } \
             var p = P(3, 4); print p.sum(); print p.init(5, 6).sum(); print p.x;"
        ),
        vec!["7", "11", "5"]
    );
}

#[test]
fn an_initializer_gives_the_instance_even_on_return() {
    assert_eq!(
        output("class P { init() { this.x = 1; return; } } print P().x; print P().init();"),
        vec!["1", "P instance"]
    );
}

#[test]
fn a_method_taken_off_an_instance_stays_bound() {
    assert_eq!(
        output(
            "class P { init(n) { this.n = n; } name() { return this.n; } } \
             var m = P(\"a\").name; var q = P(\"b\"); q.other = m; print q.other(); print m == m; \
             print q.name == q.name;"
        ),
        vec!["a", "true", "false"]
    );
}

#[test]
fn a_field_hides_a_method() {
    assert_eq!(
        output("class P { m() { return 1; } } var p = P(); print p.m(); p.m = 2; print p.m;"),
        vec!["1", "2"]
    );
}

#[test]
fn methods_are_inherited() {
    assert_eq!(
        output(
            "class A { init(x) { this.x = x; } get() { return this.x; } } class B < A {} \
             print B(7).get();"
        ),
        vec!["7"]
    );
}

#[test]
fn an_undefined_variable_is_an_error() {
    let (out, error) = run("print 1;\nprint missing;\nprint 2;");
    assert_eq!(out, vec!["1"]);
    let error = error.unwrap();
    assert!(matches!(error.kind, RuntimeErrorKind::UndefinedVariable(_)));
    assert_eq!(error.line, 2);
    assert!(matches!(failure("missing = 1;").kind, RuntimeErrorKind::UndefinedVariable(_)));
}

#[test]
fn an_error_names_the_variable() {
    let mut interpreter = Interpreter::new();
    let (_, error) = run_in(&mut interpreter, "print missing;");
    match error.unwrap().kind {
        RuntimeErrorKind::UndefinedVariable(symbol) => {
            assert_eq!(interpreter.name(symbol).unwrap(), "missing")
        }
        other => panic!("{:?}", other),
    }
    let (_, error) = run_in(&mut interpreter, "class A {} A().size;");
    match error.unwrap().kind {
        RuntimeErrorKind::UndefinedProperty(symbol) => {
            assert_eq!(interpreter.name(symbol).unwrap(), "size")
        }
        other => panic!("{:?}", other),
    }
}

#[test]
fn operands_are_checked() {
    assert_eq!(
        failure("print -\"a\";"),
        RuntimeError { kind: RuntimeErrorKind::OperandMustBeNumber, line: 1 }
    );
    assert_eq!(
        failure("print 1;\nprint 1 + \"a\";"),
        RuntimeError { kind: RuntimeErrorKind::OperandsMustBeNumbersOrStrings, line: 2 }
    );
    assert_eq!(
        failure("print \"a\" * 2;").kind,
        RuntimeErrorKind::OperandsMustBeNumbers(BinaryOp::Multiply)
    );
    assert_eq!(
        failure("print nil < 2;").kind,
        RuntimeErrorKind::OperandsMustBeNumbers(BinaryOp::Less)
    );
    assert_eq!(
        failure("print true - 1;").kind,
        RuntimeErrorKind::OperandsMustBeNumbers(BinaryOp::Subtract)
    );
    assert_eq!(
        failure("print 1 / \"x\";").kind,
        RuntimeErrorKind::OperandsMustBeNumbers(BinaryOp::Divide)
    );
}

#[test]
fn only_functions_and_classes_can_be_called() {
    assert_eq!(
        failure("var a = 1;\n\na();"),
        RuntimeError { kind: RuntimeErrorKind::NotCallable, line: 3 }
    );
    assert_eq!(failure("\"s\"(1);").kind, RuntimeErrorKind::NotCallable);
}

#[test]
fn only_instances_have_properties() {
    assert_eq!(failure("print 1 .x;").kind, RuntimeErrorKind::NotAnInstance);
    assert_eq!(failure("var a = \"s\"; a.x = 1;").kind, RuntimeErrorKind::NotAnInstance);
    assert_eq!(failure("class A {} A.x = 1;").kind, RuntimeErrorKind::NotAnInstance);
}

#[test]
fn an_undefined_property_is_an_error() {
    assert!(matches!(
        failure("class A {} print A().x;").kind,
        RuntimeErrorKind::UndefinedProperty(_)
    ));
    assert!(matches!(
        failure("class A {} class B < A { m() { super.m(); } } B().m();").kind,
        RuntimeErrorKind::UndefinedProperty(_)
    ));
}

#[test]
fn a_superclass_must_be_a_class() {
    assert_eq!(
        failure("var NotAClass = 1;\nclass A < NotAClass {}"),
        RuntimeError { kind: RuntimeErrorKind::SuperclassMustBeClass, line: 2 }
    );
}

#[test]
fn an_interpreter_keeps_its_globals_between_programs() {
    let mut interpreter = Interpreter::new();
    assert_eq!(run_in(&mut interpreter, "var a = 1; fun inc() { a = a + 1; return a; }").1, None);
    assert_eq!(run_in(&mut interpreter, "print inc(); var b = \"x\";"), (vec!["2".to_string()], None));
    assert_eq!(
        run_in(&mut interpreter, "print a; print b; print inc();"),
        (vec!["2".to_string(), "x".to_string(), "3".to_string()], None)
    );
}

#[test]
fn an_interpreter_goes_on_after_an_error() {
    let mut interpreter = Interpreter::new();
    let (out, error) = run_in(&mut interpreter, "var a = 1; { var b = 2; print a + nil; }");
    assert!(out.is_empty());
    assert_eq!(error.unwrap().kind, RuntimeErrorKind::OperandsMustBeNumbersOrStrings);
    assert_eq!(run_in(&mut interpreter, "print a;"), (vec!["1".to_string()], None));
}

#[test]
fn without_a_table_every_variable_is_global() {
    let (tokens, _) = lex("var a = 1; print a;");
    let (program, _) = parse(&tokens);
    let mut interpreter = Interpreter::new();
    let mut out = vec![];
    let mut action = interpreter.interpret(program, 100);
    while let Some(event) = serve(&interpreter, action, &mut out) {
        action = interpreter.resume(event, 100);
    }
    assert_eq!(action, Action::Finished);
    assert_eq!(out, vec!["1"]);
}

#[test]
fn a_run_pauses_when_the_fuel_is_used_up() {
    let (tokens, _) = lex("while (true) {}");
    let (program, _) = parse(&tokens);
    let table = resolve(&program).unwrap();
    let mut interpreter = Interpreter::new();
    interpreter.add_scopes(table);
    assert_eq!(interpreter.interpret(program, 50), Action::Pause);
    assert_eq!(interpreter.resume(Event::Done, 50), Action::Pause);
    assert_eq!(interpreter.resume(Event::Done, 0), Action::Pause);
}

#[test]
fn a_finished_interpreter_stays_finished() {
    let mut interpreter = Interpreter::new();
    assert_eq!(interpreter.resume(Event::Done, 10), Action::Finished);
    assert_eq!(run_in(&mut interpreter, "print 1;"), (vec!["1".to_string()], None));
    assert_eq!(interpreter.resume(Event::Done, 10), Action::Finished);
}

#[test]
fn self_inheritance_never_reaches_the_interpreter() {
    let (tokens, _) = lex("class A < A {}");
    let (program, syntax) = parse(&tokens);
    assert!(syntax.is_empty());
    assert!(resolve(&program).is_err());
}

#[test]
fn the_same_program_prints_the_same_each_time() {
    let source = "var s = \"\"; for (var i = 0; i < 5; i = i + 1) { s = s + \"x\"; print s; } \
                  class A { m() { return 1 / 3; } } print A().m();";
    let first = output(source);
    let second = output(source);
    assert_eq!(first.len(), 6);
    assert_eq!(first, second);
}

#[test]
fn the_fuel_does_not_change_what_a_program_does() {
    let source = "fun fib(n) { if (n < 2) return n; return fib(n - 1) + fib(n - 2); } \
                  print fib(10); print \"a\" + \"b\"; print nope;";
    let (tokens, _) = lex(source);
    let mut runs = vec![];
    for fuel in [1, 2, 7, 100000] {
        let (program, _) = parse(&tokens);
        let table = resolve(&program).unwrap();
        let mut interpreter = Interpreter::new();
        interpreter.add_scopes(table);
        let mut out = vec![];
        let mut pauses = 0;
        let mut action = interpreter.interpret(program, fuel);
        while let Some(event) = serve(&interpreter, action, &mut out) {
            if action == Action::Pause {
                pauses += 1;
            }
            action = interpreter.resume(event, fuel);
        }
        assert!(matches!(
            action,
            Action::Failed(RuntimeError { kind: RuntimeErrorKind::UndefinedVariable(_), line: 1 })
        ));
        assert_eq!(out, vec!["55", "ab"]);
        assert_eq!(pauses > 0, fuel < 100000);
        runs.push(out);
    }
    assert_eq!(runs.len(), 4);
}

#[test]
fn a_table_that_does_not_fit_the_program_is_not_used() {
    let (tokens, _) = lex("{ var a = 1; print a; }");
    let (program, _) = parse(&tokens);
    let (other, _) = parse(&lex("print 1;").0);
    let mut interpreter = Interpreter::new();
    interpreter.add_scopes(resolve(&other).unwrap());
    let mut out = vec![];
    let mut action = interpreter.interpret(program, 100);
    while let Some(event) = serve(&interpreter, action, &mut out) {
        action = interpreter.resume(event, 100);
    }
    assert!(matches!(
        action,
        Action::Failed(RuntimeError { kind: RuntimeErrorKind::UndefinedVariable(_), .. })
    ));
}

#[test]
fn super_without_a_table_is_inconsistent() {
    let (tokens, _) = lex("class A { m() {} }\nclass B < A { m() { super.m(); } }\nB().m();");
    let (program, _) = parse(&tokens);
    let mut interpreter = Interpreter::new();
    let mut out = vec![];
    let mut action = interpreter.interpret(program, 100);
    while let Some(event) = serve(&interpreter, action, &mut out) {
        action = interpreter.resume(event, 100);
    }
    assert_eq!(
        action,
        Action::Failed(RuntimeError { kind: RuntimeErrorKind::Inconsistent, line: 2 })
    );
}

#[test]
fn run_time_errors_have_a_message() {
    assert_eq!(failure("print -nil;").message(), "Operand must be a number.");
    assert_eq!(failure("nil();").message(), "Can only call functions and classes.");
    assert_eq!(failure("print x;").message(), "Undefined variable.");
}

#[test]
fn a_number_has_no_text_of_its_own() {
    let interpreter = Interpreter::new();
    assert_eq!(interpreter.render(Value::Number(0)), None);
    assert_eq!(interpreter.render(Value::Nil).unwrap(), "nil");
    assert_eq!(interpreter.render(Value::Boolean(false)).unwrap(), "false");
    assert_eq!(interpreter.render(Value::Text(3)), None);
    assert_eq!(interpreter.text(0), None);
    assert_eq!(interpreter.name(1).unwrap(), "this");
}

#[test]
fn the_host_decides_what_numbers_are() {
    let (tokens, _) = lex("print 1 + 2;");
    let (program, _) = parse(&tokens);
    let mut interpreter = Interpreter::new();
    let first = interpreter.interpret(program, 100);
    let Action::ParseNumber(at) = first else { panic!("{:?}", first) };
    assert_eq!(interpreter.text(at).unwrap(), "1");
    let second = interpreter.resume(Event::Number(10), 100);
    let Action::ParseNumber(at) = second else { panic!("{:?}", second) };
    assert_eq!(interpreter.text(at).unwrap(), "2");
    assert_eq!(
        interpreter.resume(Event::Number(20), 100),
        Action::Arithmetic(BinaryOp::Add, 10, 20)
    );
    assert_eq!(interpreter.resume(Event::Number(33), 100), Action::Print(Value::Number(33)));
    assert_eq!(interpreter.resume(Event::Done, 100), Action::Finished);
}

#[test]
fn an_initializer_can_call_the_initializer_of_the_superclass() {
    assert_eq!(
        output(
            "class Point { init(x, y) { this.x = x; this.y = y; } \
                           show() { print this.x; print this.y; } } \
             class Point3 < Point { init(x, y, z) { super.init(x, y); this.z = z; } \
                                    show() { super.show(); print this.z; } } \
             Point3(1, 2, 3).show();"
        ),
        vec!["1", "2", "3"]
    );
}

#[test]
fn counters_made_by_separate_calls_are_independent() {
    assert_eq!(
        output(
            "fun counter() { var n = 0; fun next() { n = n + 1; return n; } return next; } \
             var a = counter(); var b = counter(); print a(); print a(); print b(); print a();"
        ),
        vec!["1", "2", "1", "3"]
    );
}

#[test]
fn functions_are_values() {
    assert_eq!(
        output(
            "fun twice(f, x) { return f(f(x)); } fun inc(x) { return x + 1; } \
             print twice(inc, 5); \
             class Box { init(f) { this.f = f; } } print Box(inc).f(1);"
        ),
        vec!["7", "2"]
    );
}

#[test]
fn arguments_are_evaluated_from_left_to_right() {
    assert_eq!(
        output(
            "var log = \"\"; fun note(s) { log = log + s; return s; } \
             fun three(a, b, c) { return a + b + c; } \
             print three(note(\"a\"), note(\"b\"), note(\"c\")); print log; \
             log = \"\"; print note(\"x\") == note(\"y\"); print log;"
        ),
        vec!["abc", "abc", "false", "xy"]
    );
}

#[test]
fn methods_can_recur_through_this() {
    assert_eq!(
        output(
            "class Math { fact(n) { if (n <= 1) return 1; return n * this.fact(n - 1); } } \
             print Math().fact(10);"
        ),
        vec!["3628800"]
    );
}

#[test]
fn a_global_can_be_used_before_it_is_defined_in_the_text() {
    assert_eq!(
        output("fun show() { print later; } var later = \"now\"; show();"),
        vec!["now"]
    );
    assert_eq!(
        output("fun even(n) { if (n == 0) return true; return odd(n - 1); } \
                fun odd(n) { if (n == 0) return false; return even(n - 1); } print even(10);"),
        vec!["true"]
    );
}

#[test]
fn a_global_can_be_defined_again() {
    assert_eq!(output("var a = 1; var a = 2; print a; var b; print b;"), vec!["2", "nil"]);
}
