use rlox::compiler::compile_source;
use rlox::vm::{OutItem, RunStatus, RuntimeError, StepResult, VM};

fn run_ok(src: &str) -> Vec<OutItem> {
    let program = compile_source(src.as_bytes().to_vec()).expect("program should compile");
    let mut vm = VM::new(program);
    let status = vm.run(u64::MAX).expect("program should run");
    assert_eq!(status, RunStatus::Halted);
    vm.output
}

fn run_runtime_error(src: &str) -> RuntimeError {
    let program = compile_source(src.as_bytes().to_vec()).expect("program should compile");
    let mut vm = VM::new(program);
    match vm.run(u64::MAX) {
        Err(e) => e,
        Ok(_) => panic!("expected a runtime error"),
    }
}

fn compile_errors(src: &str) -> Vec<Vec<u8>> {
    match compile_source(src.as_bytes().to_vec()) {
        Err(ds) => ds.into_iter().map(|d| d.message).collect(),
        Ok(_) => panic!("expected a compile error"),
    }
}

fn num(x: f64) -> OutItem {
    OutItem::Num(x.to_bits())
}

fn text(s: &str) -> OutItem {
    OutItem::Text(s.as_bytes().to_vec())
}

#[test]
fn precedence_of_sum_and_product() {
    assert_eq!(run_ok("print 1 + 2 * 3;"), vec![num(7.0)]);
}

#[test]
fn string_concatenation() {
    assert_eq!(
        run_ok("var a = \"hi\"; var b = \" there\"; print a + b;"),
        vec![text("hi there")]
    );
}

#[test]
fn for_loop_sums() {
    assert_eq!(
        run_ok("var x = 0; for (var i = 0; i < 3; i = i + 1) { x = x + i; } print x;"),
        vec![num(3.0)]
    );
}

#[test]
fn counter_closure() {
    let src = "fun mk() { var n = 0; fun inc() { n = n + 1; return n; } return inc; } \
               var c = mk(); print c(); print c(); print c();";
    assert_eq!(run_ok(src), vec![num(1.0), num(2.0), num(3.0)]);
}

#[test]
fn shared_capture_between_closures() {
    let src = "fun make() { \
                 var x = 1; \
                 fun get() { return x; } \
                 fun set(v) { x = v; } \
                 fun pick(b) { if (b) { return get; } return set; } \
                 return pick; \
               } \
               var pick = make(); \
               var g = pick(true); \
               var s = pick(false); \
               s(42); \
               print g();";
    assert_eq!(run_ok(src), vec![num(42.0)]);
}

#[test]
fn arity_error_message() {
    let e = run_runtime_error("fun f(a,b) { return a+b; } f(1);");
    assert_eq!(e.message, b"Expected 2 arguments but got 1.".to_vec());
    assert!(e.trace.len() >= 1);
    assert_eq!(e.trace[e.trace.len() - 1].name, b"<script>".to_vec());
}

#[test]
fn reading_local_in_own_initializer() {
    let msgs = compile_errors("{ var a = a; }");
    assert!(msgs.contains(&b"Can't read local variable in its own initializer.".to_vec()));
}

#[test]
fn while_loop_counts() {
    assert_eq!(
        run_ok("var i = 0; while (i < 5) { i = i + 1; } print i;"),
        vec![num(5.0)]
    );
}

#[test]
fn if_takes_then_branch() {
    assert_eq!(
        run_ok("if (1 < 2) { print \"yes\"; } else { print \"no\"; }"),
        vec![text("yes")]
    );
}

#[test]
fn if_takes_else_branch() {
    assert_eq!(
        run_ok("if (2 < 1) { print \"yes\"; } else { print \"no\"; }"),
        vec![text("no")]
    );
}

#[test]
fn and_keeps_falsy_left() {
    assert_eq!(run_ok("print false and 1;"), vec![text("false")]);
}

#[test]
fn and_yields_right_when_left_truthy() {
    assert_eq!(run_ok("print true and 1;"), vec![num(1.0)]);
}

#[test]
fn or_yields_right_when_left_falsy() {
    assert_eq!(run_ok("print nil or \"x\";"), vec![text("x")]);
}

#[test]
fn or_keeps_truthy_left() {
    assert_eq!(run_ok("print 1 or 2;"), vec![num(1.0)]);
}

#[test]
fn equality_is_structural() {
    assert_eq!(
        run_ok("print \"a\" == \"a\"; print \"a\" == \"b\"; print 1 == 1; print nil == false;"),
        vec![text("true"), text("false"), text("true"), text("false")]
    );
}

#[test]
fn nan_is_not_equal_to_itself() {
    assert_eq!(run_ok("print 0/0 == 0/0;"), vec![text("false")]);
}

#[test]
fn division_yields_fractions() {
    assert_eq!(run_ok("print 7 / 2;"), vec![num(3.5)]);
}

#[test]
fn subtraction_and_negation() {
    assert_eq!(run_ok("print 1 - 3; print -(2.5);"), vec![num(-2.0), num(-2.5)]);
}

#[test]
fn fractional_literal() {
    assert_eq!(run_ok("print 2.5;"), vec![num(2.5)]);
}

#[test]
fn comparisons() {
    assert_eq!(
        run_ok("print 1 < 2; print 2 <= 2; print 3 > 2; print 2 >= 3; print 1 != 2;"),
        vec![text("true"), text("true"), text("true"), text("false"), text("true")]
    );
}

#[test]
fn printing_simple_values() {
    assert_eq!(
        run_ok("print nil; print true; print false; print \"s\";"),
        vec![text("nil"), text("true"), text("false"), text("s")]
    );
}

#[test]
fn printing_a_function() {
    assert_eq!(run_ok("fun f() {} print f;"), vec![text("<fn f>")]);
}

#[test]
fn bare_return_yields_nil() {
    assert_eq!(run_ok("fun f() { return; } print f();"), vec![text("nil")]);
}

#[test]
fn falling_off_the_end_yields_nil() {
    assert_eq!(run_ok("fun f() {} print f();"), vec![text("nil")]);
}

#[test]
fn recursion_fibonacci() {
    let src = "fun fib(n) { if (n < 2) { return n; } return fib(n-1) + fib(n-2); } print fib(10);";
    assert_eq!(run_ok(src), vec![num(55.0)]);
}

#[test]
fn call_results_combine() {
    assert_eq!(
        run_ok("fun one() { return 1; } print one() + one();"),
        vec![num(2.0)]
    );
}

#[test]
fn three_arguments() {
    assert_eq!(
        run_ok("fun add3(a,b,c) { return a + b + c; } print add3(1,2,3);"),
        vec![num(6.0)]
    );
}

#[test]
fn shadowing_in_blocks() {
    assert_eq!(
        run_ok("var a = 1; { var a = 2; print a; } print a;"),
        vec![num(2.0), num(1.0)]
    );
}

#[test]
fn capture_through_two_levels() {
    let src = "fun a() { var x = \"deep\"; fun b() { fun c() { return x; } return c; } return b; } \
               print a()()();";
    assert_eq!(run_ok(src), vec![text("deep")]);
}

#[test]
fn local_read_sees_closure_write() {
    let src = "fun outer() { var x = 1; fun set() { x = 2; } set(); print x; } outer();";
    assert_eq!(run_ok(src), vec![num(2.0)]);
}

#[test]
fn for_loop_with_condition_only() {
    assert_eq!(
        run_ok("var i = 0; for (; i < 2;) { i = i + 1; } print i;"),
        vec![num(2.0)]
    );
}

#[test]
fn clock_reads_the_epoch() {
    let out = run_ok("print clock();");
    assert_eq!(out.len(), 1);
    match out[0] {
        OutItem::Num(bits) => {
            let secs = f64::from_bits(bits);
            assert!(secs > 1.0e9 && secs < 1.0e11, "clock gave {}", secs);
        }
        _ => panic!("clock should print a number"),
    }
}

#[test]
fn adding_number_and_bool_fails() {
    let e = run_runtime_error("print 1 + true;");
    assert_eq!(e.message, b"Operands must be two numbers or two strings.".to_vec());
}

#[test]
fn negating_a_bool_fails() {
    let e = run_runtime_error("print -true;");
    assert_eq!(e.message, b"Operand must be a number.".to_vec());
}

#[test]
fn not_of_a_number_fails() {
    let e = run_runtime_error("print !1;");
    assert_eq!(e.message, b"Operand must be a bool.".to_vec());
}

#[test]
fn comparing_bools_fails() {
    let e = run_runtime_error("print true < 1;");
    assert_eq!(e.message, b"Operands must be numbers.".to_vec());
}

#[test]
fn calling_a_number_fails() {
    let e = run_runtime_error("var a = 1; a();");
    assert_eq!(e.message, b"Can only call functions and classes.".to_vec());
}

#[test]
fn unknown_variable_is_a_compile_error() {
    let msgs = compile_errors("print b;");
    assert!(msgs.contains(&b"Unknown variable 'b'.".to_vec()));
}

#[test]
fn duplicate_declaration_in_scope() {
    let msgs = compile_errors("{ var a = 1; var a = 2; }");
    assert!(msgs.contains(&b"Already a variable with this name in this scope.".to_vec()));
}

#[test]
fn invalid_assignment_target() {
    let msgs = compile_errors("var a = 1; var b = 2; a + b = 3;");
    assert!(msgs.contains(&b"Invalid assignment target.".to_vec()));
}

#[test]
fn return_outside_a_function() {
    let msgs = compile_errors("return 1;");
    assert!(msgs.contains(&b"Can't return from top-level code.".to_vec()));
}

#[test]
fn unterminated_string_is_reported() {
    let msgs = compile_errors("var a = \"oops;");
    assert!(msgs.contains(&b"Unterminated string.".to_vec()));
}

#[test]
fn unexpected_character_is_reported() {
    let msgs = compile_errors("var a = @;");
    assert!(msgs.contains(&b"Unexpected character.".to_vec()));
}

#[test]
fn missing_semicolon_is_reported() {
    let msgs = compile_errors("print 1");
    assert!(msgs.contains(&b"Expect ';' after value.".to_vec()));
}

#[test]
fn runtime_trace_names_the_frames() {
    let e = run_runtime_error("fun inner() { return 1 + nil; } fun outer() { return inner(); } outer();");
    assert_eq!(e.message, b"Operands must be two numbers or two strings.".to_vec());
    assert_eq!(e.trace.len(), 3);
    assert_eq!(e.trace[0].name, b"inner".to_vec());
    assert_eq!(e.trace[1].name, b"outer".to_vec());
    assert_eq!(e.trace[2].name, b"<script>".to_vec());
}

#[test]
fn every_value_but_nil_and_false_is_truthy() {
    assert_eq!(
        run_ok("if (3) { print \"n\"; } if (\"\") { print \"s\"; } if (nil) { print \"bad\"; }"),
        vec![text("n"), text("s")]
    );
}

#[test]
fn string_literal_may_span_lines() {
    assert_eq!(run_ok("print \"a\nb\";"), vec![text("a\nb")]);
}

#[test]
fn clock_is_predeclared_at_top_level() {
    let msgs = compile_errors("var clock = 1;");
    assert!(msgs.contains(&b"Already a variable with this name in this scope.".to_vec()));
}

#[test]
fn clock_prints_as_a_function() {
    assert_eq!(run_ok("print clock;"), vec![text("<fn clock>")]);
}

#[test]
fn clock_takes_no_arguments() {
    let e = run_runtime_error("clock(1);");
    assert_eq!(e.message, b"Expected 0 arguments but got 1.".to_vec());
}

#[test]
fn empty_source_prints_nothing() {
    assert_eq!(run_ok(""), vec![]);
}

#[test]
fn comment_only_source_prints_nothing() {
    assert_eq!(run_ok("// nothing to do\n"), vec![]);
}

#[test]
fn var_without_initializer_is_nil() {
    assert_eq!(run_ok("var a; print a;"), vec![text("nil")]);
}

#[test]
fn nested_blocks_release_slots() {
    assert_eq!(run_ok("{ { var a = 1; } var b = 2; print b; }"), vec![num(2.0)]);
}

#[test]
fn assignment_is_an_expression() {
    assert_eq!(
        run_ok("var a = 1; var b = a = 5; print b; print a;"),
        vec![num(5.0), num(5.0)]
    );
}

#[test]
fn concatenated_string_compares_by_content() {
    assert_eq!(run_ok("print \"a\" + \"b\" == \"ab\";"), vec![text("true")]);
}

#[test]
fn upvalues_point_at_live_cells() {
    let src = "fun mk() { var n = 0; fun inc() { n = n + 1; return n; } return inc; } \
               var c = mk(); c(); c();";
    let program = compile_source(src.as_bytes().to_vec()).expect("program should compile");
    let mut vm = VM::new(program);
    vm.run(u64::MAX).expect("program should run");
    assert!(vm.closures.len() >= 2);
    for c in &vm.closures {
        assert_eq!(c.upvalues.len() as u32, vm.program.funcs[c.fidx].upvalue_count);
        for &cell in &c.upvalues {
            assert!(cell < vm.cells.len());
        }
    }
}

#[test]
fn stack_is_balanced_after_the_script_returns() {
    let src = "fun f(a) { return a; } var x = f(1) + f(2); print x;";
    let program = compile_source(src.as_bytes().to_vec()).expect("program should compile");
    let mut vm = VM::new(program);
    let status = vm.run(u64::MAX).expect("program should run");
    assert_eq!(status, RunStatus::Halted);
    assert_eq!(vm.frames.len(), 0);
    assert_eq!(vm.stack.len(), 0);
}

#[test]
fn single_stepping_matches_running() {
    let src = "fun mk() { var n = 0; fun inc() { n = n + 1; return n; } return inc; } \
               var c = mk(); print c(); print c();";
    let program = compile_source(src.as_bytes().to_vec()).expect("program should compile");
    let mut stepped = VM::new(program.clone());
    let mut steps: u32 = 0;
    loop {
        match stepped.step() {
            StepResult::Stepped => {
                steps += 1;
                assert!(steps < 100_000);
            }
            StepResult::Halted => break,
            StepResult::Fault(e) => panic!("unexpected fault: {:?}", e),
        }
    }
    let mut ran = VM::new(program);
    ran.run(u64::MAX).expect("program should run");
    assert_eq!(stepped.output, ran.output);
    assert_eq!(stepped.output, vec![num(1.0), num(2.0)]);
}

#[test]
fn out_of_budget_reports_running() {
    let program = compile_source(b"while (true) { }".to_vec()).expect("program should compile");
    let mut vm = VM::new(program);
    let status = vm.run(10_000).expect("no runtime error expected");
    assert_eq!(status, RunStatus::Running);
}

#[test]
fn resuming_after_budget_finishes() {
    let program = compile_source(b"var x = 0; while (x < 100) { x = x + 1; } print x;".to_vec())
        .expect("program should compile");
    let mut vm = VM::new(program);
    let mut steps: u32 = 0;
    loop {
        match vm.run(50).expect("no runtime error expected") {
            RunStatus::Halted => break,
            RunStatus::Running => {
                steps += 1;
                assert!(steps < 1_000_000);
            }
        }
    }
    assert_eq!(vm.output, vec![num(100.0)]);
}
