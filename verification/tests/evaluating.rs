use treewalk::enums::{
    BinOp, ComparisonOp, Declaration, Env, Expr, FunctionTable, Native, Statement, Syntax,
};
use treewalk::errors::EvalError;
use treewalk::evaluator::builtin::{call_native, print, register};
use treewalk::evaluator;
use treewalk::evaluator::{binary_op, bind, call, compare, eval, exec, text_less, MAX_CALL_DEPTH};
use treewalk::parser::parser;
use treewalk::scanner::scanner;
use treewalk::value::{AsBool, Value};

struct Run {
    result: Result<(), EvalError>,
    env: Env,
    ft: FunctionTable,
    out: Vec<String>,
}

fn run(source: &str) -> Run {
    let mut env = Env::new();
    let mut ft = FunctionTable::new();
    let mut out: Vec<String> = Vec::new();
    let syntax = parser(scanner(source).unwrap()).unwrap();
    let result = eval(syntax, &mut env, &mut ft, &mut out);
    Run { result, env, ft, out }
}

fn value_of(r: &Run, name: &str) -> Option<Value> {
    r.env.get(name).cloned()
}

fn text(s: &str) -> Value {
    Value::String(s.to_string())
}

#[test]
fn precedence_is_respected() {
    let r = run("x = 1 + 2 * 3");
    assert_eq!(r.result, Ok(()));
    assert_eq!(value_of(&r, "x"), Some(Value::Int(7)));
}

#[test]
fn subtraction_groups_to_the_left() {
    let r = run("x = 1 - 2 - 3");
    assert_eq!(value_of(&r, "x"), Some(Value::Int(-4)));
}

#[test]
fn brackets_are_evaluated_first() {
    let r = run("x = 2 * (3 + 4); y = 2 * {3 + 4}");
    assert_eq!(value_of(&r, "x"), Some(Value::Int(14)));
    assert_eq!(value_of(&r, "y"), Some(Value::Int(14)));
}

#[test]
fn assignment_binds_and_rebinds() {
    let r = run("x = 123; y = x; x = 5");
    assert_eq!(r.result, Ok(()));
    assert_eq!(value_of(&r, "x"), Some(Value::Int(5)));
    assert_eq!(value_of(&r, "y"), Some(Value::Int(123)));
    assert_eq!(value_of(&r, "z"), None);
}

#[test]
fn division_truncates_towards_zero() {
    let r = run("a = 7 / 2; b = -7 / 2; c = 7 / -2; d = -7 / -2; e = 0 / 5");
    assert_eq!(value_of(&r, "a"), Some(Value::Int(3)));
    assert_eq!(value_of(&r, "b"), Some(Value::Int(-3)));
    assert_eq!(value_of(&r, "c"), Some(Value::Int(-3)));
    assert_eq!(value_of(&r, "d"), Some(Value::Int(3)));
    assert_eq!(value_of(&r, "e"), Some(Value::Int(0)));
}

#[test]
fn division_by_zero_fails_and_assigns_nothing() {
    let r = run("x = 4 / 0");
    assert_eq!(r.result, Err(EvalError::DivisionByZero { lhs: 4, rhs: 0 }));
    assert_eq!(value_of(&r, "x"), None);
}

#[test]
fn an_error_keeps_what_was_done_before_it() {
    let r = run("x = 1; print(\"a\"); y = 4 / 0; z = 3");
    assert_eq!(r.result, Err(EvalError::DivisionByZero { lhs: 4, rhs: 0 }));
    assert_eq!(value_of(&r, "x"), Some(Value::Int(1)));
    assert_eq!(value_of(&r, "y"), None);
    assert_eq!(value_of(&r, "z"), None);
    assert_eq!(r.out, vec!["a".to_string()]);
}

#[test]
fn arithmetic_that_does_not_fit_fails() {
    assert_eq!(run("x = 2147483647 + 1").result, Err(EvalError::Overflow));
    assert_eq!(run("x = -2147483647 - 2").result, Err(EvalError::Overflow));
    assert_eq!(run("x = 65536 * 32768").result, Err(EvalError::Overflow));
    assert_eq!(run("x = (-2147483647 - 1) / -1").result, Err(EvalError::Overflow));
    let r = run("x = -2147483647 - 1; y = 2147483646 + 1; z = 65536 * -32768");
    assert_eq!(r.result, Ok(()));
    assert_eq!(value_of(&r, "x"), Some(Value::Int(i32::MIN)));
    assert_eq!(value_of(&r, "y"), Some(Value::Int(i32::MAX)));
    assert_eq!(value_of(&r, "z"), Some(Value::Int(i32::MIN)));
}

#[test]
fn texts_are_joined_by_addition() {
    let r = run("x = \"abc\"; y = \"def\"; z = x + y; w = y + x + \"\"");
    assert_eq!(value_of(&r, "z"), Some(text("abcdef")));
    assert_eq!(value_of(&r, "w"), Some(text("defabc")));
}

#[test]
fn other_arithmetic_on_texts_is_a_type_error() {
    assert_eq!(run("x = \"abc\" - \"a\"").result, Err(EvalError::TypeMismatch));
    assert_eq!(run("x = \"abc\" * \"a\"").result, Err(EvalError::TypeMismatch));
    assert_eq!(run("x = \"abc\" / \"a\"").result, Err(EvalError::TypeMismatch));
    assert_eq!(run("x = \"abc\" + 1").result, Err(EvalError::TypeMismatch));
    assert_eq!(run("x = 1 + \"abc\"").result, Err(EvalError::TypeMismatch));
    assert_eq!(run("x = \"abc\" / 0").result, Err(EvalError::TypeMismatch));
}

#[test]
fn comparisons_give_one_or_zero() {
    let r = run("a = 1 < 2; b = 2 < 1; c = 2 > 1; d = 1 > 2; e = 3 = 3; f = 3 = 4; g = 1 < 1");
    assert_eq!(value_of(&r, "a"), Some(Value::Int(1)));
    assert_eq!(value_of(&r, "b"), Some(Value::Int(0)));
    assert_eq!(value_of(&r, "c"), Some(Value::Int(1)));
    assert_eq!(value_of(&r, "d"), Some(Value::Int(0)));
    assert_eq!(value_of(&r, "e"), Some(Value::Int(1)));
    assert_eq!(value_of(&r, "f"), Some(Value::Int(0)));
    assert_eq!(value_of(&r, "g"), Some(Value::Int(0)));
}

#[test]
fn texts_compare_in_dictionary_order() {
    let r = run(
        "a = \"abc\" < \"abd\"; b = \"ab\" < \"abc\"; c = \"b\" > \"abc\"; d = \"abc\" = \"abc\"; e = \"abc\" < \"abc\"; f = \"\" < \"a\"; g = \"Z\" < \"a\"",
    );
    assert_eq!(value_of(&r, "a"), Some(Value::Int(1)));
    assert_eq!(value_of(&r, "b"), Some(Value::Int(1)));
    assert_eq!(value_of(&r, "c"), Some(Value::Int(1)));
    assert_eq!(value_of(&r, "d"), Some(Value::Int(1)));
    assert_eq!(value_of(&r, "e"), Some(Value::Int(0)));
    assert_eq!(value_of(&r, "f"), Some(Value::Int(1)));
    assert_eq!(value_of(&r, "g"), Some(Value::Int(1)));
    assert!(text_less("a", "b"));
    assert!(!text_less("b", "a"));
    assert!(!text_less("", ""));
    assert!(text_less("é", "→"));
}

#[test]
fn comparing_across_kinds_is_a_type_error() {
    assert_eq!(run("x = 1 < \"a\"").result, Err(EvalError::TypeMismatch));
    assert_eq!(run("x = \"a\" = 1").result, Err(EvalError::TypeMismatch));
    assert_eq!(run("x = print(\"a\") > 1").result, Err(EvalError::TypeMismatch));
    assert_eq!(
        compare(ComparisonOp::Lt, &Value::Bool(false), &Value::Bool(true)),
        Ok(Value::Int(1))
    );
    assert_eq!(
        compare(ComparisonOp::Gt, &Value::Bool(false), &Value::Bool(true)),
        Ok(Value::Int(0))
    );
    assert_eq!(compare(ComparisonOp::Eq, &Value::Unit, &Value::Unit), Ok(Value::Int(1)));
    assert_eq!(compare(ComparisonOp::Lt, &Value::Unit, &Value::Unit), Ok(Value::Int(0)));
    assert_eq!(
        compare(ComparisonOp::Eq, &Value::Unit, &Value::Bool(false)),
        Err(EvalError::TypeMismatch)
    );
}

#[test]
fn binary_op_applies_each_operator() {
    assert_eq!(binary_op(BinOp::Add, Value::Int(2), Value::Int(3)), Ok(Value::Int(5)));
    assert_eq!(binary_op(BinOp::Sub, Value::Int(2), Value::Int(3)), Ok(Value::Int(-1)));
    assert_eq!(binary_op(BinOp::Mul, Value::Int(2), Value::Int(3)), Ok(Value::Int(6)));
    assert_eq!(binary_op(BinOp::Div, Value::Int(7), Value::Int(3)), Ok(Value::Int(2)));
    assert_eq!(binary_op(BinOp::Add, text("a"), text("b")), Ok(text("ab")));
    assert_eq!(
        binary_op(BinOp::Add, Value::Bool(true), Value::Bool(true)),
        Err(EvalError::TypeMismatch)
    );
    assert_eq!(binary_op(BinOp::Add, Value::Unit, Value::Int(1)), Err(EvalError::TypeMismatch));
}

#[test]
fn zero_is_false_and_the_rest_is_true() {
    assert_eq!(value_of(&run("if 0 { x = 2 } else { x = 3 }"), "x"), Some(Value::Int(3)));
    assert_eq!(value_of(&run("if 1 { x = 2 } else { x = 3 }"), "x"), Some(Value::Int(2)));
    assert_eq!(value_of(&run("if -1 { x = 2 } else { x = 3 }"), "x"), Some(Value::Int(2)));
    assert_eq!(value_of(&run("if \"\" { x = 2 } else { x = 3 }"), "x"), Some(Value::Int(2)));
    assert_eq!(value_of(&run("if print(\"\") { x = 2 } else { x = 3 }"), "x"), Some(Value::Int(3)));
    assert_eq!(value_of(&run("if 1 < 2 { x = 2 } else { x = 3 }"), "x"), Some(Value::Int(2)));
    assert!(Value::Bool(true).as_bool());
    assert!(!Value::Bool(false).as_bool());
    assert!(!Value::Unit.as_bool());
    assert!(!Value::Int(0).as_bool());
    assert!(Value::Int(7).as_bool());
    assert!(text("").as_bool());
}

#[test]
fn only_the_taken_branch_runs() {
    let r = run("if 1 { x = 1 } else { y = 1 / 0 }");
    assert_eq!(r.result, Ok(()));
    assert_eq!(value_of(&r, "x"), Some(Value::Int(1)));
    let r = run("if y { x = 1 } else { x = 2 }");
    assert_eq!(r.result, Err(EvalError::UndefinedVariable { name: "y".to_string() }));
    assert_eq!(value_of(&r, "x"), None);
}

#[test]
fn recursion_computes_fibonacci() {
    let r = run(
        "fn fib(n) { if (n < 3) { return 1 } else { return fib(n - 1) + fib(n - 2) } }; x = fib(22); y = fib(1); z = fib(10)",
    );
    assert_eq!(r.result, Ok(()));
    assert_eq!(value_of(&r, "x"), Some(Value::Int(17711)));
    assert_eq!(value_of(&r, "y"), Some(Value::Int(1)));
    assert_eq!(value_of(&r, "z"), Some(Value::Int(55)));
}

#[test]
fn undefined_names_fail() {
    assert_eq!(
        run("x = y").result,
        Err(EvalError::UndefinedVariable { name: "y".to_string() })
    );
    assert_eq!(
        run("x = f(1)").result,
        Err(EvalError::UndefinedFunction { name: "f".to_string() })
    );
    assert_eq!(run("f()").result, Err(EvalError::UndefinedFunction { name: "f".to_string() }));
    let r = run("x = y + 1");
    assert_eq!(value_of(&r, "x"), None);
}

#[test]
fn arguments_are_evaluated_before_the_function_is_looked_up() {
    assert_eq!(
        run("x = f(y)").result,
        Err(EvalError::UndefinedVariable { name: "y".to_string() })
    );
    assert_eq!(
        run("x = f(1 / 0, y)").result,
        Err(EvalError::DivisionByZero { lhs: 1, rhs: 0 })
    );
}

#[test]
fn a_function_sees_its_own_variables_only() {
    let r = run("a = 1; fn f() { return a }; x = f()");
    assert_eq!(r.result, Err(EvalError::UndefinedVariable { name: "a".to_string() }));
    let r = run("a = 1; fn f(b) { a = b + 1; return a }; x = f(10)");
    assert_eq!(r.result, Ok(()));
    assert_eq!(value_of(&r, "a"), Some(Value::Int(1)));
    assert_eq!(value_of(&r, "x"), Some(Value::Int(11)));
    assert_eq!(value_of(&r, "b"), None);
    assert_eq!(value_of(&r, "return"), None);
}

#[test]
fn parameters_without_an_argument_stay_unbound() {
    let r = run("fn f(a, b) { return a }; x = f(1)");
    assert_eq!(value_of(&r, "x"), Some(Value::Int(1)));
    let r = run("fn f(a, b) { return b }; x = f(1)");
    assert_eq!(r.result, Err(EvalError::UndefinedVariable { name: "b".to_string() }));
    let r = run("fn f(a) { return a }; x = f(1, 2, 3)");
    assert_eq!(value_of(&r, "x"), Some(Value::Int(1)));
    let r = run("fn f(a) { return a }; x = f(1, 2 / 0)");
    assert_eq!(r.result, Err(EvalError::DivisionByZero { lhs: 2, rhs: 0 }));
}

#[test]
fn a_function_that_does_not_return_fails() {
    let r = run("fn f() { a = 1 }; x = f()");
    assert_eq!(r.result, Err(EvalError::MissingReturnValue { name: "f".to_string() }));
    let r = run("fn f(c) { if c { return 1 } else { } }; x = f(1); y = f(0)");
    assert_eq!(r.result, Err(EvalError::MissingReturnValue { name: "f".to_string() }));
    assert_eq!(value_of(&r, "x"), Some(Value::Int(1)));
}

#[test]
fn return_binds_the_reserved_name() {
    let r = run("return 5");
    assert_eq!(r.result, Ok(()));
    assert_eq!(value_of(&r, "return"), Some(Value::Int(5)));
    let r = run("fn f() { return 1; return 2 }; x = f()");
    assert_eq!(value_of(&r, "x"), Some(Value::Int(2)));
}

#[test]
fn the_function_table_is_shared() {
    let r = run("fn outer() { fn inner() { return 7 }; return 1 }; a = outer(); b = inner()");
    assert_eq!(r.result, Ok(()));
    assert_eq!(value_of(&r, "b"), Some(Value::Int(7)));
    assert!(r.ft.contains_key("inner"));
    assert!(r.ft.contains_key("outer"));
    let r = run("fn f() { return 1 }; fn f() { return 2 }; x = f()");
    assert_eq!(value_of(&r, "x"), Some(Value::Int(2)));
}

#[test]
fn a_definition_leaves_the_environment_alone() {
    let r = run("fn f(a) { return a }");
    assert_eq!(r.result, Ok(()));
    assert!(r.env.names().is_empty());
    match r.ft.get("f") {
        Some(Declaration::Function { arg, st }) => {
            assert_eq!(*arg, vec!["a".to_string()]);
            assert_eq!(
                **st,
                Statement::Return { expr: Box::new(Expr::Var("a".to_string())) }
            );
        }
        _ => panic!("f is not a function of the program"),
    }
}

#[test]
fn endless_recursion_is_stopped() {
    let r = run("fn f(n) { return f(n + 1) }; x = f(0)");
    assert_eq!(r.result, Err(EvalError::CallDepthExceeded));
    assert_eq!(value_of(&r, "x"), None);
}

#[test]
fn calls_nest_up_to_the_limit() {
    let source = "fn down(n) { if n { return down(n - 1) } else { return 0 } }; x = down(3)";
    let Syntax::Statement(st) = parser(scanner(source).unwrap()).unwrap();
    let mut env = Env::new();
    let mut ft = FunctionTable::new();
    let mut out = Vec::new();
    assert_eq!(exec(st.clone(), &mut env, &mut ft, &mut out, 4), Ok(()));
    assert_eq!(env.get("x"), Some(&Value::Int(0)));
    let mut env = Env::new();
    assert_eq!(
        exec(st.clone(), &mut env, &mut ft, &mut out, 3),
        Err(EvalError::CallDepthExceeded)
    );
    let mut env = Env::new();
    assert_eq!(exec(st, &mut env, &mut ft, &mut out, 0), Err(EvalError::CallDepthExceeded));
    assert_eq!(MAX_CALL_DEPTH, 200);
    let deep = "fn down(n) { if n { return down(n - 1) } else { return 0 } }; x = down(199)";
    assert_eq!(run(deep).result, Ok(()));
    let deeper = "fn down(n) { if n { return down(n - 1) } else { return 0 } }; x = down(200)";
    assert_eq!(run(deeper).result, Err(EvalError::CallDepthExceeded));
}

#[test]
fn host_functions_need_no_depth() {
    let mut env = Env::new();
    let mut ft = FunctionTable::new();
    let mut out = Vec::new();
    register(&mut ft);
    let e = Expr::FunctionCall { id: "print".to_string(), args: vec![Expr::Str("a".to_string())] };
    assert_eq!(evaluator::calc(e, &env, &mut ft, &mut out, 0), Ok(Value::Unit));
    assert_eq!(out, vec!["a".to_string()]);
    env.insert("x".to_string(), Value::Int(1));
    assert_eq!(evaluator::calc(Expr::Var("x".to_string()), &env, &mut ft, &mut out, 0), Ok(Value::Int(1)));
}

#[test]
fn register_binds_the_three_print_names() {
    let mut ft = FunctionTable::new();
    ft.insert(
        "print".to_string(),
        Declaration::Function { arg: vec![], st: Box::new(Statement::Null) },
    );
    register(&mut ft);
    for name in ["print_int", "print_str", "print"] {
        assert_eq!(
            ft.get(name),
            Some(&Declaration::BuiltinFunction { id: name.to_string(), native: Native::Print })
        );
    }
    assert!(!ft.contains_key("println"));
}

#[test]
fn print_fills_placeholders_from_the_left() {
    assert_eq!(print(&vec![text("hello")]), Some("hello".to_string()));
    assert_eq!(
        print(&vec![text("{} + {} = {}"), Value::Int(1), Value::Int(-2), text("x")]),
        Some("1 + -2 = x".to_string())
    );
    assert_eq!(print(&vec![text("{}"), Value::Int(1), Value::Int(2)]), Some("1".to_string()));
    assert_eq!(print(&vec![text("{} {}"), Value::Int(1)]), Some("1 {}".to_string()));
    assert_eq!(print(&vec![text("a{b}{}"), Value::Bool(true)]), Some("a{b}true".to_string()));
    assert_eq!(print(&vec![text("[{}]"), Value::Unit]), Some("[]".to_string()));
    assert_eq!(print(&vec![text("{"), Value::Int(1)]), Some("{".to_string()));
    assert_eq!(print(&vec![text("}{"), Value::Int(1)]), Some("}{".to_string()));
    assert_eq!(print(&vec![text(""), Value::Int(1)]), Some("".to_string()));
}

#[test]
fn a_filled_in_placeholder_can_be_filled_again() {
    assert_eq!(print(&vec![text("{}"), text("{}"), Value::Int(5)]), Some("5".to_string()));
    assert_eq!(
        print(&vec![text("{} {}"), text("a{}b"), Value::Int(5)]),
        Some("a5b {}".to_string())
    );
}

#[test]
fn print_wants_a_text_first() {
    assert_eq!(print(&vec![]), None);
    assert_eq!(print(&vec![Value::Int(1)]), None);
    assert_eq!(print(&vec![Value::Unit, text("a")]), None);
    let mut out = vec!["before".to_string()];
    assert_eq!(
        call_native(Native::Print, &vec![Value::Int(1)], &mut out),
        Err(EvalError::InvalidArgument)
    );
    assert_eq!(out, vec!["before".to_string()]);
    assert_eq!(call_native(Native::Print, &vec![text("x")], &mut out), Ok(Value::Unit));
    assert_eq!(out, vec!["before".to_string(), "x".to_string()]);
}

#[test]
fn programs_print_in_order() {
    let r = run("print(\"a\"); x = 2; print_int(\"x is {}\", x); print_str(\"{}{}\", \"b\", \"c\")");
    assert_eq!(r.result, Ok(()));
    assert_eq!(r.out, vec!["a".to_string(), "x is 2".to_string(), "bc".to_string()]);
    let r = run("x = 6; print_int(x)");
    assert_eq!(r.result, Err(EvalError::InvalidArgument));
    assert_eq!(value_of(&r, "x"), Some(Value::Int(6)));
    assert!(r.out.is_empty());
    assert_eq!(run("print()").result, Err(EvalError::InvalidArgument));
}

#[test]
fn arguments_print_from_left_to_right() {
    let r = run("fn say(t) { print(t); return t }; x = say(\"a\") + say(\"b\") + say(\"c\")");
    assert_eq!(value_of(&r, "x"), Some(text("abc")));
    assert_eq!(r.out, vec!["a".to_string(), "b".to_string(), "c".to_string()]);
    let r = run("fn say(t) { print(t); return t }; fn two(a, b) { return a + b }; x = two(say(\"a\"), say(\"b\"))");
    assert_eq!(value_of(&r, "x"), Some(text("ab")));
    assert_eq!(r.out, vec!["a".to_string(), "b".to_string()]);
}

#[test]
fn print_gives_the_unit_value() {
    let r = run("x = print(\"a\")");
    assert_eq!(value_of(&r, "x"), Some(Value::Unit));
}

#[test]
fn bind_pairs_parameters_with_arguments() {
    let params = vec!["a".to_string(), "b".to_string(), "a".to_string()];
    let local = bind(&params, &vec![Value::Int(1), Value::Int(2), Value::Int(3), Value::Int(4)]);
    assert_eq!(local.get("a"), Some(&Value::Int(3)));
    assert_eq!(local.get("b"), Some(&Value::Int(2)));
    let local = bind(&params, &vec![Value::Int(1)]);
    assert_eq!(local.get("a"), Some(&Value::Int(1)));
    assert_eq!(local.get("b"), None);
}

#[test]
fn call_runs_a_function_of_the_table() {
    let mut ft = FunctionTable::new();
    let mut out = Vec::new();
    ft.insert(
        "id".to_string(),
        Declaration::Function {
            arg: vec!["a".to_string()],
            st: Box::new(Statement::Return { expr: Box::new(Expr::Var("a".to_string())) }),
        },
    );
    assert_eq!(call("id".to_string(), vec![Value::Int(9)], &mut ft, &mut out, 1), Ok(Value::Int(9)));
    assert_eq!(
        call("id".to_string(), vec![Value::Int(9)], &mut ft, &mut out, 0),
        Err(EvalError::CallDepthExceeded)
    );
    assert_eq!(
        call("no".to_string(), vec![], &mut ft, &mut out, 1),
        Err(EvalError::UndefinedFunction { name: "no".to_string() })
    );
}

#[test]
fn running_twice_gives_the_same() {
    let source = "fn f(n) { print(\"{}\", n); return n * 2 }; x = f(4); y = \"a\" + \"b\"; z = x / 0";
    let a = run(source);
    let b = run(source);
    assert_eq!(a.result, b.result);
    assert_eq!(a.out, b.out);
    assert_eq!(a.env.names(), b.env.names());
    assert_eq!(a.ft.names(), b.ft.names());
    for name in a.env.names() {
        assert_eq!(a.env.get(&name), b.env.get(&name));
    }
    for name in a.ft.names() {
        assert_eq!(a.ft.get(&name), b.ft.get(&name));
    }
    assert_eq!(a.env.get("x"), Some(&Value::Int(8)));
}
