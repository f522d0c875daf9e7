use vstd::prelude::*;
use crate::enums::{BinOp, ComparisonOp, DeclarationView, ExprView, Native, StatementView};
use crate::errors::EvalErrorView;
use crate::value::ValueView;

verus! {

/// The model of a variable environment.
pub type EnvView = Map<Seq<char>, ValueView>;

/// The model of a function table.
pub type TableView = Map<Seq<char>, DeclarationView>;

/// The lines written so far.
pub type Lines = Seq<Seq<char>>;

/// The name under which a `return` statement leaves its value in the environment.
pub open spec fn return_key() -> Seq<char> {
    "return"@
}

/// What evaluating an expression gives: its value or an error, and the function
/// table and the lines written as the evaluation left them.
pub struct CalcOutcome {
    pub result: Result<ValueView, EvalErrorView>,
    pub ft: TableView,
    pub out: Lines,
}

/// What evaluating a list of expressions gives.
pub struct ArgsOutcome {
    pub result: Result<Seq<ValueView>, EvalErrorView>,
    pub ft: TableView,
    pub out: Lines,
}

/// What executing a statement gives: success or an error, and the environment,
/// the function table and the lines written as the execution left them.
pub struct ExecOutcome {
    pub result: Result<(), EvalErrorView>,
    pub env: EnvView,
    pub ft: TableView,
    pub out: Lines,
}

/// Whether `i` is the value of some `i32`.
pub open spec fn fits_i32(i: int) -> bool {
    i32::MIN <= i <= i32::MAX
}

/// The quotient of `a` by `b`, rounded towards zero, for `b != 0`.
pub open spec fn trunc_div(a: int, b: int) -> int {
    if a >= 0 && b > 0 {
        a / b
    } else if a >= 0 {
        -(a / (-b))
    } else if b > 0 {
        -((-a) / b)
    } else {
        (-a) / (-b)
    }
}

/// The exact result of an arithmetic operator on two integers, for a divisor
/// other than zero.
pub open spec fn arith(op: BinOp, a: int, b: int) -> int {
    match op {
        BinOp::Add => a + b,
        BinOp::Sub => a - b,
        BinOp::Mul => a * b,
        BinOp::Div => trunc_div(a, b),
    }
}

/// The result of an arithmetic operator on two values.
///
/// Two integers give the exact result where it fits in 32 bits; a division by
/// zero and a result that does not fit are errors. Two texts can be added,
/// which joins them. Every other pairing is a type error.
pub open spec fn binary(op: BinOp, l: ValueView, r: ValueView) -> Result<ValueView, EvalErrorView> {
    match (l, r) {
        (ValueView::Int(a), ValueView::Int(b)) => {
            if op == BinOp::Div && b == 0 {
                Err(EvalErrorView::DivisionByZero { lhs: a, rhs: b })
            } else if fits_i32(arith(op, a as int, b as int)) {
                Ok(ValueView::Int(arith(op, a as int, b as int) as i32))
            } else {
                Err(EvalErrorView::Overflow)
            }
        },
        (ValueView::String(a), ValueView::String(b)) => {
            if op == BinOp::Add {
                Ok(ValueView::String(a + b))
            } else {
                Err(EvalErrorView::TypeMismatch)
            }
        },
        _ => Err(EvalErrorView::TypeMismatch),
    }
}

/// Whether text `a` comes before text `b` in the dictionary order of their
/// characters.
pub open spec fn text_lt(a: Seq<char>, b: Seq<char>) -> bool
    decreases a.len(),
{
    if b.len() == 0 {
        false
    } else if a.len() == 0 {
        true
    } else if a[0] != b[0] {
        a[0] < b[0]
    } else {
        text_lt(a.drop_first(), b.drop_first())
    }
}

/// Whether `l` is less than `r`, for two values of one kind: integers by size,
/// texts by dictionary order, `false` before `true`.
pub open spec fn value_lt(l: ValueView, r: ValueView) -> bool {
    match (l, r) {
        (ValueView::Int(a), ValueView::Int(b)) => a < b,
        (ValueView::String(a), ValueView::String(b)) => text_lt(a, b),
        (ValueView::Bool(a), ValueView::Bool(b)) => !a && b,
        _ => false,
    }
}

/// Whether two values are of one kind.
pub open spec fn same_kind(l: ValueView, r: ValueView) -> bool {
    match (l, r) {
        (ValueView::Int(_), ValueView::Int(_)) => true,
        (ValueView::String(_), ValueView::String(_)) => true,
        (ValueView::Bool(_), ValueView::Bool(_)) => true,
        (ValueView::Unit, ValueView::Unit) => true,
        _ => false,
    }
}

/// The integer that stands for a truth value: 1 for true, 0 for false.
pub open spec fn truth_value(b: bool) -> ValueView {
    if b {
        ValueView::Int(1)
    } else {
        ValueView::Int(0)
    }
}

/// The result of a comparison: a truth value for two values of one kind, a
/// type error otherwise.
pub open spec fn comparison(op: ComparisonOp, l: ValueView, r: ValueView) -> Result<
    ValueView,
    EvalErrorView,
> {
    if !same_kind(l, r) {
        Err(EvalErrorView::TypeMismatch)
    } else {
        Ok(
            truth_value(
                match op {
                    ComparisonOp::Lt => value_lt(l, r),
                    ComparisonOp::Gt => value_lt(r, l),
                    ComparisonOp::Eq => l == r,
                },
            ),
        )
    }
}

/// The index of the first `{}` in `s` at or after `from`, if there is one.
pub open spec fn first_placeholder(s: Seq<char>, from: int) -> Option<int>
    decreases s.len() - from,
{
    if from < 0 || from + 1 >= s.len() {
        None
    } else if s[from] == '{' && s[from + 1] == '}' {
        Some(from)
    } else {
        first_placeholder(s, from + 1)
    }
}

/// `s` with its first `{}` replaced by `with`; `s` itself where it holds none.
pub open spec fn replace_first(s: Seq<char>, with: Seq<char>) -> Seq<char> {
    match first_placeholder(s, 0) {
        Some(i) => s.subrange(0, i) + with + s.subrange(i + 2, s.len() as int),
        None => s,
    }
}

/// `text` after each of `args[k..]`, in order, has replaced the then first `{}`.
pub open spec fn fill(text: Seq<char>, args: Seq<ValueView>, k: int) -> Seq<char>
    decreases args.len() - k,
{
    if k < 0 || k >= args.len() {
        text
    } else {
        fill(replace_first(text, args[k].text()), args, k + 1)
    }
}

/// The line that `Native::Print` writes for `args`: `None` where the first
/// argument is missing or is no text.
pub open spec fn print_line(args: Seq<ValueView>) -> Option<Seq<char>> {
    if args.len() > 0 && args[0] is String {
        Some(fill(args[0]->String_0, args, 1))
    } else {
        None
    }
}

/// What calling a host function gives: its value, and the lines written.
pub open spec fn native_call(native: Native, args: Seq<ValueView>, out: Lines) -> (
    Result<ValueView, EvalErrorView>,
    Lines,
) {
    match native {
        Native::Print => match print_line(args) {
            Some(line) => (Ok(ValueView::Unit), out.push(line)),
            None => (Err(EvalErrorView::InvalidArgument), out),
        },
    }
}

/// The environment in which a function body starts: the first `n` parameters
/// bound to the first `n` arguments.
pub open spec fn bind_params(params: Seq<Seq<char>>, args: Seq<ValueView>, n: int) -> EnvView
    decreases n,
{
    if n <= 0 {
        Map::empty()
    } else {
        bind_params(params, args, n - 1).insert(params[n - 1], args[n - 1])
    }
}

/// The number of parameters that a call binds: as many as there are both
/// parameters and arguments.
pub open spec fn bound_count(params: Seq<Seq<char>>, args: Seq<ValueView>) -> int {
    if params.len() <= args.len() {
        params.len() as int
    } else {
        args.len() as int
    }
}

/// The values of the first `n` expressions of `args`, evaluated from the left,
/// each in the function table and with the lines that the one before left.
/// Evaluation stops at the first error.
pub open spec fn calc_args(
    args: Seq<ExprView>,
    n: int,
    env: EnvView,
    ft: TableView,
    out: Lines,
    depth: nat,
) -> ArgsOutcome
    decreases depth, 2int, args, n,
{
    if n <= 0 || n > args.len() {
        ArgsOutcome { result: Ok(Seq::empty()), ft, out }
    } else {
        let before = calc_args(args, n - 1, env, ft, out, depth);
        match before.result {
            Err(_) => before,
            Ok(values) => {
                let last = calc(args[n - 1], env, before.ft, before.out, depth);
                match last.result {
                    Err(e) => ArgsOutcome { result: Err(e), ft: last.ft, out: last.out },
                    Ok(v) => ArgsOutcome { result: Ok(values.push(v)), ft: last.ft, out: last.out },
                }
            },
        }
    }
}

/// The value of an expression.
///
/// `depth` is the number of nested calls of program functions that are still
/// allowed: a call at depth 0 is an error.
pub open spec fn calc(e: ExprView, env: EnvView, ft: TableView, out: Lines, depth: nat) -> CalcOutcome
    decreases depth, 2int, e, 0int,
{
    match e {
        ExprView::Number(n) => CalcOutcome { result: Ok(ValueView::Int(n)), ft, out },
        ExprView::Str(s) => CalcOutcome { result: Ok(ValueView::String(s)), ft, out },
        ExprView::Var(name) => {
            if env.contains_key(name) {
                CalcOutcome { result: Ok(env[name]), ft, out }
            } else {
                CalcOutcome { result: Err(EvalErrorView::UndefinedVariable { name }), ft, out }
            }
        },
        ExprView::Binary { op, lhs, rhs } => {
            let l = calc(*lhs, env, ft, out, depth);
            match l.result {
                Err(_) => l,
                Ok(lv) => {
                    let r = calc(*rhs, env, l.ft, l.out, depth);
                    match r.result {
                        Err(_) => r,
                        Ok(rv) => CalcOutcome { result: binary(op, lv, rv), ft: r.ft, out: r.out },
                    }
                },
            }
        },
        ExprView::Comparison { op, lhs, rhs } => {
            let l = calc(*lhs, env, ft, out, depth);
            match l.result {
                Err(_) => l,
                Ok(lv) => {
                    let r = calc(*rhs, env, l.ft, l.out, depth);
                    match r.result {
                        Err(_) => r,
                        Ok(rv) => CalcOutcome {
                            result: comparison(op, lv, rv),
                            ft: r.ft,
                            out: r.out,
                        },
                    }
                },
            }
        },
        ExprView::FunctionCall { id, args } => {
            let a = calc_args(args, args.len() as int, env, ft, out, depth);
            match a.result {
                Err(e) => CalcOutcome { result: Err(e), ft: a.ft, out: a.out },
                Ok(values) => call(id, values, a.ft, a.out, depth),
            }
        },
    }
}

/// The value of a call of the function named `id` with the given arguments.
pub open spec fn call(
    id: Seq<char>,
    values: Seq<ValueView>,
    ft: TableView,
    out: Lines,
    depth: nat,
) -> CalcOutcome
    decreases depth, 1int, values, 0int,
{
    if !ft.contains_key(id) {
        CalcOutcome { result: Err(EvalErrorView::UndefinedFunction { name: id }), ft, out }
    } else {
        match ft[id] {
            DeclarationView::BuiltinFunction { id: _, native } => CalcOutcome {
                result: native_call(native, values, out).0,
                ft,
                out: native_call(native, values, out).1,
            },
            DeclarationView::Function { arg, st } => {
                if depth == 0 {
                    CalcOutcome { result: Err(EvalErrorView::CallDepthExceeded), ft, out }
                } else {
                    let local = bind_params(arg, values, bound_count(arg, values));
                    let done = exec(st, local, ft, out, (depth - 1) as nat);
                    match done.result {
                        Err(e) => CalcOutcome { result: Err(e), ft: done.ft, out: done.out },
                        Ok(_) => {
                            if done.env.contains_key(return_key()) {
                                CalcOutcome {
                                    result: Ok(done.env[return_key()]),
                                    ft: done.ft,
                                    out: done.out,
                                }
                            } else {
                                CalcOutcome {
                                    result: Err(EvalErrorView::MissingReturnValue { name: id }),
                                    ft: done.ft,
                                    out: done.out,
                                }
                            }
                        },
                    }
                }
            },
        }
    }
}

/// The effect of a statement.
pub open spec fn exec(st: StatementView, env: EnvView, ft: TableView, out: Lines, depth: nat) -> ExecOutcome
    decreases depth, 3int, st, 0int,
{
    match st {
        StatementView::Null => ExecOutcome { result: Ok(()), env, ft, out },
        StatementView::CompoundStatement { st1, st2 } => {
            let first = exec(*st1, env, ft, out, depth);
            match first.result {
                Err(_) => first,
                Ok(_) => exec(*st2, first.env, first.ft, first.out, depth),
            }
        },
        StatementView::FunctionDefine { id, arg, st } => ExecOutcome {
            result: Ok(()),
            env,
            ft: ft.insert(id, DeclarationView::Function { arg, st: *st }),
            out,
        },
        StatementView::FunctionCall { expr } => {
            let c = calc(expr, env, ft, out, depth);
            match c.result {
                Err(e) => ExecOutcome { result: Err(e), env, ft: c.ft, out: c.out },
                Ok(_) => ExecOutcome { result: Ok(()), env, ft: c.ft, out: c.out },
            }
        },
        StatementView::Return { expr } => {
            let c = calc(expr, env, ft, out, depth);
            match c.result {
                Err(e) => ExecOutcome { result: Err(e), env, ft: c.ft, out: c.out },
                Ok(v) => ExecOutcome {
                    result: Ok(()),
                    env: env.insert(return_key(), v),
                    ft: c.ft,
                    out: c.out,
                },
            }
        },
        StatementView::Assign { id, e } => {
            let c = calc(e, env, ft, out, depth);
            match c.result {
                Err(err) => ExecOutcome { result: Err(err), env, ft: c.ft, out: c.out },
                Ok(v) => ExecOutcome { result: Ok(()), env: env.insert(id, v), ft: c.ft, out: c.out },
            }
        },
        StatementView::If { condition, then, els } => {
            let c = calc(condition, env, ft, out, depth);
            match c.result {
                Err(e) => ExecOutcome { result: Err(e), env, ft: c.ft, out: c.out },
                Ok(v) => {
                    if v.truthy() {
                        exec(*then, env, c.ft, c.out, depth)
                    } else {
                        exec(*els, env, c.ft, c.out, depth)
                    }
                },
            }
        },
    }
}

} // verus!
