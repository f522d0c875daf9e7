pub mod builtin;

use vstd::prelude::*;
use crate::enums::{
    BinOp, ComparisonOp, Declaration, Env, Expr, ExprView, FunctionTable, Statement, Syntax,
    strings_view,
};
use crate::errors::{EvalError, EvalErrorView};
use crate::evaluator::builtin::{call_native, register, registered};
use crate::semantics;
use crate::semantics::{
    arith, binary, bind_params, bound_count, comparison, fits_i32, text_lt, trunc_div,
};
use crate::text::chars_of;
use crate::value::{AsBool, Value, ValueView, values_view};

verus! {

/// The number of nested calls of program functions that `eval` allows.
pub const MAX_CALL_DEPTH: usize = 200;

/// The model of the result of evaluating an expression.
pub open spec fn value_result(r: Result<Value, EvalError>) -> Result<ValueView, EvalErrorView> {
    match r {
        Ok(v) => Ok(v@),
        Err(e) => Err(e@),
    }
}

/// The model of the result of executing a statement.
pub open spec fn unit_result(r: Result<(), EvalError>) -> Result<(), EvalErrorView> {
    match r {
        Ok(_) => Ok(()),
        Err(e) => Err(e@),
    }
}

/// The quotient of two integers, rounded towards zero.
fn divide(a: i32, b: i32) -> (q: i64)
    requires
        b != 0,
    ensures
        q == trunc_div(a as int, b as int),
{
    let ua: i64 = if a < 0 {
        -(a as i64)
    } else {
        a as i64
    };
    let ub: i64 = if b < 0 {
        -(b as i64)
    } else {
        b as i64
    };
    let uq: i64 = ua / ub;
    if (a < 0) != (b < 0) {
        -uq
    } else {
        uq
    }
}

/// Applies an arithmetic operator to two values.
pub fn binary_op(op: BinOp, l: Value, r: Value) -> (res: Result<Value, EvalError>)
    ensures
        value_result(res) == binary(op, l@, r@),
{
    match (l, r) {
        (Value::Int(a), Value::Int(b)) => {
            let exact: i64 = match op {
                BinOp::Add => a as i64 + b as i64,
                BinOp::Sub => a as i64 - b as i64,
                BinOp::Mul => {
                    assert(-0x8000_0000 * 0x8000_0000 <= (a as int) * (b as int) <= 0x8000_0000
                        * 0x8000_0000) by (nonlinear_arith)
                        requires
                            -0x8000_0000 <= a < 0x8000_0000,
                            -0x8000_0000 <= b < 0x8000_0000,
                    ;
                    (a as i64) * (b as i64)
                },
                BinOp::Div => {
                    if b == 0 {
                        return Err(EvalError::DivisionByZero { lhs: a, rhs: b });
                    }
                    divide(a, b)
                },
            };
            if exact < i32::MIN as i64 || exact > i32::MAX as i64 {
                Err(EvalError::Overflow)
            } else {
                Ok(Value::Int(exact as i32))
            }
        },
        (Value::String(a), Value::String(b)) => match op {
            BinOp::Add => Ok(Value::String(a.concat(b.as_str()))),
            _ => Err(EvalError::TypeMismatch),
        },
        _ => Err(EvalError::TypeMismatch),
    }
}

/// Whether text `a` comes before text `b` in dictionary order.
pub fn text_less(a: &str, b: &str) -> (r: bool)
    ensures
        r == text_lt(a@, b@),
{
    let x = chars_of(a);
    let y = chars_of(b);
    let mut i: usize = 0;
    assert(x@.skip(0) =~= x@);
    assert(y@.skip(0) =~= y@);
    while i < x.len() && i < y.len()
        invariant
            i <= x.len(),
            i <= y.len(),
            x@ == a@,
            y@ == b@,
            text_lt(x@, y@) == text_lt(x@.skip(i as int), y@.skip(i as int)),
        decreases x.len() - i,
    {
        assert(x@.skip(i as int).drop_first() =~= x@.skip(i + 1));
        assert(y@.skip(i as int).drop_first() =~= y@.skip(i + 1));
        assert(x@.skip(i as int)[0] == x[i as int]);
        assert(y@.skip(i as int)[0] == y[i as int]);
        let cx: char = x[i];
        let cy: char = y[i];
        if cx != cy {
            return cx < cy;
        }
        i += 1;
    }
    i < y.len()
}

/// Applies a comparison operator to two values.
pub fn compare(op: ComparisonOp, l: &Value, r: &Value) -> (res: Result<Value, EvalError>)
    ensures
        value_result(res) == comparison(op, l@, r@),
{
    let truth = match (l, r) {
        (Value::Int(a), Value::Int(b)) => match op {
            ComparisonOp::Lt => *a < *b,
            ComparisonOp::Gt => *a > *b,
            ComparisonOp::Eq => *a == *b,
        },
        (Value::String(a), Value::String(b)) => match op {
            ComparisonOp::Lt => text_less(a.as_str(), b.as_str()),
            ComparisonOp::Gt => text_less(b.as_str(), a.as_str()),
            ComparisonOp::Eq => *a == *b,
        },
        (Value::Bool(a), Value::Bool(b)) => match op {
            ComparisonOp::Lt => !*a && *b,
            ComparisonOp::Gt => !*b && *a,
            ComparisonOp::Eq => *a == *b,
        },
        (Value::Unit, Value::Unit) => match op {
            ComparisonOp::Lt => false,
            ComparisonOp::Gt => false,
            ComparisonOp::Eq => true,
        },
        _ => {
            return Err(EvalError::TypeMismatch);
        },
    };
    if truth {
        Ok(Value::Int(1))
    } else {
        Ok(Value::Int(0))
    }
}

/// The environment in which a function body starts: each parameter that has an
/// argument bound to it, in order.
pub fn bind(params: &Vec<String>, args: &Vec<Value>) -> (local: Env)
    ensures
        local@ == bind_params(
            strings_view(params@),
            values_view(args@),
            bound_count(strings_view(params@), values_view(args@)),
        ),
{
    let n: usize = if params.len() <= args.len() {
        params.len()
    } else {
        args.len()
    };
    let mut local: Env = Env::new();
    let mut i: usize = 0;
    while i < n
        invariant
            i <= n,
            n <= params.len(),
            n <= args.len(),
            local@ == bind_params(strings_view(params@), values_view(args@), i as int),
        decreases n - i,
    {
        local.insert(params[i].clone(), args[i].clone());
        i += 1;
    }
    local
}

/// Evaluates an expression.
///
/// The environment is only read. The function table and the lines written
/// change as the calls in the expression change them, also where the result
/// is an error. `depth` is the number of nested calls of program functions
/// that are still allowed.
pub fn calc(expr: Expr, env: &Env, ft: &mut FunctionTable, out: &mut Vec<String>, depth: usize) -> (r:
    Result<Value, EvalError>)
    ensures
        ({
            let o = semantics::calc(
                expr@,
                env@,
                old(ft)@,
                strings_view(old(out)@),
                depth as nat,
            );
            &&& value_result(r) == o.result
            &&& final(ft)@ == o.ft
            &&& strings_view(final(out)@) == o.out
        }),
    decreases depth, 2int, expr@, 0int,
{
    let ghost whole = expr@;
    match expr {
        Expr::Number(n) => Ok(Value::Int(n)),
        Expr::Str(s) => Ok(Value::String(s)),
        Expr::Var(s) => match env.get(s.as_str()) {
            Some(v) => Ok(v.clone()),
            None => Err(EvalError::UndefinedVariable { name: s }),
        },
        Expr::Binary { op, lhs, rhs } => {
            let l = match calc(*lhs, env, ft, out, depth) {
                Ok(v) => v,
                Err(e) => {
                    return Err(e);
                },
            };
            let r = match calc(*rhs, env, ft, out, depth) {
                Ok(v) => v,
                Err(e) => {
                    return Err(e);
                },
            };
            binary_op(op, l, r)
        },
        Expr::Comparison { op, lhs, rhs } => {
            let l = match calc(*lhs, env, ft, out, depth) {
                Ok(v) => v,
                Err(e) => {
                    return Err(e);
                },
            };
            let r = match calc(*rhs, env, ft, out, depth) {
                Ok(v) => v,
                Err(e) => {
                    return Err(e);
                },
            };
            compare(op, &l, &r)
        },
        Expr::FunctionCall { id, args } => {
            let ghost items = whole->FunctionCall_args;
            let ghost ft0 = ft@;
            let ghost out0 = strings_view(out@);
            let mut values: Vec<Value> = Vec::new();
            let mut i: usize = 0;
            assert(values_view(values@) =~= Seq::empty());
            assert(whole == (ExprView::FunctionCall { id: id@, args: items }));
            assert(decreases_to!(whole => items));
            while i < args.len()
                invariant
                    i <= args.len(),
                    items.len() == args.len(),
                    whole == expr@,
                    whole == (ExprView::FunctionCall { id: id@, args: items }),
                    ft0 == old(ft)@,
                    out0 == strings_view(old(out)@),
                    decreases_to!(whole => items),
                    forall|j: int| 0 <= j < args.len() ==> args[j]@ == items[j],
                    semantics::calc_args(items, i as int, env@, ft0, out0, depth as nat)
                        == (semantics::ArgsOutcome {
                        result: Ok(values_view(values@)),
                        ft: ft@,
                        out: strings_view(out@),
                    }),
                decreases args.len() - i,
            {
                let ghost before = values_view(values@);
                let arg = args[i].clone();
                assert(decreases_to!(items => items[i as int]));
                match calc(arg, env, ft, out, depth) {
                    Ok(v) => {
                        values.push(v);
                        assert(values_view(values@) =~= before.push(v@));
                    },
                    Err(e) => {
                        proof {
                            lemma_calc_args_error(
                                items,
                                i + 1,
                                args.len() as int,
                                env@,
                                ft0,
                                out0,
                                depth as nat,
                            );
                        }
                        return Err(e);
                    },
                }
                i += 1;
            }
            call(id, values, ft, out, depth)
        },
    }
}

/// Once evaluating the first `n` expressions has failed, evaluating more of
/// them gives the same outcome.
pub proof fn lemma_calc_args_error(
    args: Seq<ExprView>,
    n: int,
    m: int,
    env: semantics::EnvView,
    ft: semantics::TableView,
    out: semantics::Lines,
    depth: nat,
)
    requires
        0 <= n <= m <= args.len(),
        semantics::calc_args(args, n, env, ft, out, depth).result is Err,
    ensures
        semantics::calc_args(args, m, env, ft, out, depth) == semantics::calc_args(
            args,
            n,
            env,
            ft,
            out,
            depth,
        ),
    decreases m - n,
{
    if n < m {
        lemma_calc_args_error(args, n, m - 1, env, ft, out, depth);
    }
}

/// Calls the function named `id` with the given arguments.
pub fn call(id: String, values: Vec<Value>, ft: &mut FunctionTable, out: &mut Vec<String>, depth: usize) -> (r:
    Result<Value, EvalError>)
    ensures
        ({
            let o = semantics::call(
                id@,
                values_view(values@),
                old(ft)@,
                strings_view(old(out)@),
                depth as nat,
            );
            &&& value_result(r) == o.result
            &&& final(ft)@ == o.ft
            &&& strings_view(final(out)@) == o.out
        }),
    decreases depth, 1int, values_view(values@), 0int,
{
    let found: Option<Declaration> = match ft.get(id.as_str()) {
        Some(d) => Some(d.clone()),
        None => None,
    };
    match found {
        None => Err(EvalError::UndefinedFunction { name: id }),
        Some(Declaration::BuiltinFunction { id: _, native }) => call_native(native, &values, out),
        Some(Declaration::Function { arg, st }) => {
            if depth == 0 {
                return Err(EvalError::CallDepthExceeded);
            }
            let mut local = bind(&arg, &values);
            match exec(*st, &mut local, ft, out, depth - 1) {
                Err(e) => Err(e),
                Ok(()) => match local.get("return") {
                    Some(v) => Ok(v.clone()),
                    None => Err(EvalError::MissingReturnValue { name: id }),
                },
            }
        },
    }
}

/// Executes a statement.
///
/// After an error the environment, the function table and the lines written
/// are as the statements and calls before the failing operation left them.
/// `depth` is the number of nested calls of program functions that are still
/// allowed.
pub fn exec(statement: Statement, env: &mut Env, ft: &mut FunctionTable, out: &mut Vec<String>, depth: usize) -> (r:
    Result<(), EvalError>)
    ensures
        ({
            let o = semantics::exec(
                statement@,
                old(env)@,
                old(ft)@,
                strings_view(old(out)@),
                depth as nat,
            );
            &&& unit_result(r) == o.result
            &&& final(env)@ == o.env
            &&& final(ft)@ == o.ft
            &&& strings_view(final(out)@) == o.out
        }),
    decreases depth, 3int, statement@, 0int,
{
    match statement {
        Statement::CompoundStatement { st1, st2 } => {
            match exec(*st1, env, ft, out, depth) {
                Ok(()) => {},
                Err(e) => {
                    return Err(e);
                },
            }
            exec(*st2, env, ft, out, depth)
        },
        Statement::FunctionDefine { id, arg, st } => {
            ft.insert(id, Declaration::Function { arg, st });
            Ok(())
        },
        Statement::FunctionCall { expr } => {
            match calc(expr, env, ft, out, depth) {
                Ok(_) => Ok(()),
                Err(e) => Err(e),
            }
        },
        Statement::Return { expr } => {
            match calc(*expr, env, ft, out, depth) {
                Ok(value) => {
                    env.insert("return".to_string(), value);
                    Ok(())
                },
                Err(e) => Err(e),
            }
        },
        Statement::Assign { id, e } => {
            match calc(*e, env, ft, out, depth) {
                Ok(value) => {
                    env.insert(id, value);
                    Ok(())
                },
                Err(err) => Err(err),
            }
        },
        Statement::If { condition, then, els } => {
            match calc(*condition, env, ft, out, depth) {
                Ok(value) => {
                    if value.as_bool() {
                        exec(*then, env, ft, out, depth)
                    } else {
                        exec(*els, env, ft, out, depth)
                    }
                },
                Err(e) => Err(e),
            }
        },
        Statement::Null => Ok(()),
    }
}

/// Runs a program: adds the host functions to the function table, then
/// executes the program's statement with `MAX_CALL_DEPTH` nested calls allowed.
pub fn eval(syntax: Syntax, env: &mut Env, ft: &mut FunctionTable, out: &mut Vec<String>) -> (r: Result<
    (),
    EvalError,
>)
    ensures
        ({
            let o = semantics::exec(
                syntax@->Statement_0,
                old(env)@,
                registered(old(ft)@),
                strings_view(old(out)@),
                MAX_CALL_DEPTH as nat,
            );
            &&& unit_result(r) == o.result
            &&& final(env)@ == o.env
            &&& final(ft)@ == o.ft
            &&& strings_view(final(out)@) == o.out
        }),
{
    register(ft);
    match syntax {
        Syntax::Statement(st) => exec(st, env, ft, out, MAX_CALL_DEPTH),
    }
}

} // verus!
