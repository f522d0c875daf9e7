use vstd::prelude::*;
use crate::enums::{BinOp, ExprView, Statement, StatementView, TokenView};
use crate::errors::{EvalErrorView, ParseErrorView};
use crate::parser::grammar;
use crate::semantics;
use crate::enums::DeclarationView;
use crate::semantics::{
    bind_params, bound_count, binary, calc_args, call, exec, CalcOutcome, EnvView, Lines, TableView,
};
use crate::text::{decimal_digits, decimal_value, digit_char, is_digit};
use crate::value::ValueView;

verus! {

/// An assignment binds its variable to the value of its expression and changes
/// no other variable; reading the variable afterwards gives that value.
pub proof fn assignment_then_read(
    id: Seq<char>,
    e: ExprView,
    env: EnvView,
    ft: TableView,
    out: Lines,
    depth: nat,
)
    ensures
        semantics::calc(e, env, ft, out, depth).result matches Ok(v) ==> {
            let done = exec(StatementView::Assign { id, e }, env, ft, out, depth);
            &&& done.result == Ok::<(), EvalErrorView>(())
            &&& done.env == env.insert(id, v)
            &&& semantics::calc(ExprView::Var(id), done.env, done.ft, done.out, depth).result == Ok::<
                ValueView,
                EvalErrorView,
            >(v)
        },
{
}

/// Assigning a number literal and reading the variable gives that number.
pub proof fn number_assignment_then_read(
    id: Seq<char>,
    n: i32,
    env: EnvView,
    ft: TableView,
    out: Lines,
    depth: nat,
)
    ensures
        ({
            let done = exec(
                StatementView::Assign { id, e: ExprView::Number(n) },
                env,
                ft,
                out,
                depth,
            );
            &&& done.result == Ok::<(), EvalErrorView>(())
            &&& semantics::calc(ExprView::Var(id), done.env, done.ft, done.out, depth).result == Ok::<
                ValueView,
                EvalErrorView,
            >(ValueView::Int(n))
        }),
{
    reveal_with_fuel(semantics::calc, 2);
    reveal_with_fuel(exec, 2);
}

/// An assignment whose expression fails gives that error and leaves every
/// variable as it was.
pub proof fn failed_assignment_binds_nothing(
    id: Seq<char>,
    e: ExprView,
    env: EnvView,
    ft: TableView,
    out: Lines,
    depth: nat,
)
    ensures
        semantics::calc(e, env, ft, out, depth).result matches Err(error) ==> {
            let done = exec(StatementView::Assign { id, e }, env, ft, out, depth);
            &&& done.result == Err::<(), EvalErrorView>(error)
            &&& done.env == env
        },
{
}

/// Dividing an integer by zero is an error that names both operands.
pub proof fn division_by_zero_fails(a: i32)
    ensures
        binary(BinOp::Div, ValueView::Int(a), ValueView::Int(0)) == Err::<
            ValueView,
            EvalErrorView,
        >(EvalErrorView::DivisionByZero { lhs: a, rhs: 0 }),
{
}

/// Assigning the quotient of a number literal by the literal zero fails with a
/// division by zero and leaves every variable as it was.
pub proof fn zero_divisor_assigns_nothing(
    id: Seq<char>,
    a: i32,
    env: EnvView,
    ft: TableView,
    out: Lines,
    depth: nat,
)
    ensures
        ({
            let quotient = ExprView::Binary {
                op: BinOp::Div,
                lhs: Box::new(ExprView::Number(a)),
                rhs: Box::new(ExprView::Number(0)),
            };
            let done = exec(StatementView::Assign { id, e: quotient }, env, ft, out, depth);
            &&& done.result == Err::<(), EvalErrorView>(
                EvalErrorView::DivisionByZero { lhs: a, rhs: 0 },
            )
            &&& done.env == env
            &&& done.ft == ft
            &&& done.out == out
        }),
{
    let quotient = ExprView::Binary {
        op: BinOp::Div,
        lhs: Box::new(ExprView::Number(a)),
        rhs: Box::new(ExprView::Number(0)),
    };
    reveal_with_fuel(semantics::calc, 2);
    assert(semantics::calc(quotient, env, ft, out, depth).result == Err::<ValueView, EvalErrorView>(
        EvalErrorView::DivisionByZero { lhs: a, rhs: 0 },
    ));
}

/// Adding two texts joins them; subtracting, multiplying and dividing texts
/// are type errors.
pub proof fn text_arithmetic(op: BinOp, a: Seq<char>, b: Seq<char>)
    ensures
        binary(op, ValueView::String(a), ValueView::String(b)) == if op == BinOp::Add {
            Ok::<ValueView, EvalErrorView>(ValueView::String(a + b))
        } else {
            Err::<ValueView, EvalErrorView>(EvalErrorView::TypeMismatch)
        },
{
}

/// A conditional runs exactly one branch: the first where its condition is
/// true, the second where it is false, in the function table and with the
/// lines that evaluating the condition left. The integer zero is false, every
/// other integer is true.
pub proof fn conditional_selects_one_branch(
    condition: ExprView,
    then: StatementView,
    els: StatementView,
    env: EnvView,
    ft: TableView,
    out: Lines,
    depth: nat,
)
    ensures
        semantics::calc(condition, env, ft, out, depth).result matches Ok(v) ==> {
            let c = semantics::calc(condition, env, ft, out, depth);
            let whole = exec(
                StatementView::If { condition, then: Box::new(then), els: Box::new(els) },
                env,
                ft,
                out,
                depth,
            );
            &&& v.truthy() ==> whole == exec(then, env, c.ft, c.out, depth)
            &&& !v.truthy() ==> whole == exec(els, env, c.ft, c.out, depth)
            &&& v matches ValueView::Int(i) ==> (v.truthy() <==> i != 0)
        },
{
}

/// A conditional on the literal zero runs its second branch, one on any other
/// number literal its first.
pub proof fn number_condition(
    n: i32,
    then: StatementView,
    els: StatementView,
    env: EnvView,
    ft: TableView,
    out: Lines,
    depth: nat,
)
    ensures
        exec(
            StatementView::If {
                condition: ExprView::Number(n),
                then: Box::new(then),
                els: Box::new(els),
            },
            env,
            ft,
            out,
            depth,
        ) == if n == 0 {
            exec(els, env, ft, out, depth)
        } else {
            exec(then, env, ft, out, depth)
        },
{
    reveal_with_fuel(semantics::calc, 2);
    reveal_with_fuel(exec, 2);
}

/// Reading a variable that is not bound is an error that names it; reading a
/// bound one gives its value. Neither changes anything.
pub proof fn variable_lookup(name: Seq<char>, env: EnvView, ft: TableView, out: Lines, depth: nat)
    ensures
        semantics::calc(ExprView::Var(name), env, ft, out, depth) == (CalcOutcome {
            result: if env.contains_key(name) {
                Ok(env[name])
            } else {
                Err(EvalErrorView::UndefinedVariable { name })
            },
            ft,
            out,
        }),
{
}

/// Calling a name that the function table does not hold is an error that
/// names it, whatever the arguments, and changes nothing.
pub proof fn undefined_function_fails(
    id: Seq<char>,
    values: Seq<ValueView>,
    ft: TableView,
    out: Lines,
    depth: nat,
)
    requires
        !ft.contains_key(id),
    ensures
        call(id, values, ft, out, depth) == (CalcOutcome {
            result: Err(EvalErrorView::UndefinedFunction { name: id }),
            ft,
            out,
        }),
{
}

/// A statement that fails stops the sequence it stands in: what follows it is
/// not executed.
pub proof fn sequence_stops_at_first_error(
    first: StatementView,
    second: StatementView,
    env: EnvView,
    ft: TableView,
    out: Lines,
    depth: nat,
)
    ensures
        ({
            let a = exec(first, env, ft, out, depth);
            let whole = exec(
                StatementView::CompoundStatement { st1: Box::new(first), st2: Box::new(second) },
                env,
                ft,
                out,
                depth,
            );
            &&& a.result is Err ==> whole == a
            &&& a.result is Ok ==> whole == exec(second, a.env, a.ft, a.out, depth)
        }),
{
}

/// The expression that applies `op` to two operands.
pub open spec fn operation(op: BinOp, lhs: ExprView, rhs: ExprView) -> ExprView {
    ExprView::Binary { op, lhs: Box::new(lhs), rhs: Box::new(rhs) }
}

/// Multiplication binds tighter than addition: `x = a + b * c` assigns the
/// sum of `a` and the product of `b` and `c`.
pub proof fn product_binds_tighter_than_sum(x: Seq<char>, a: i32, b: i32, c: i32)
    ensures
        grammar::program(
            seq![
                TokenView::IDENT(x),
                TokenView::EQ,
                TokenView::NUMBER(a),
                TokenView::PLUS,
                TokenView::NUMBER(b),
                TokenView::STAR,
                TokenView::NUMBER(c),
            ],
        ) == Ok::<StatementView, ParseErrorView>(
            StatementView::Assign {
                id: x,
                e: operation(
                    BinOp::Add,
                    ExprView::Number(a),
                    operation(BinOp::Mul, ExprView::Number(b), ExprView::Number(c)),
                ),
            },
        ),
{
    let t = seq![
        TokenView::IDENT(x),
        TokenView::EQ,
        TokenView::NUMBER(a),
        TokenView::PLUS,
        TokenView::NUMBER(b),
        TokenView::STAR,
        TokenView::NUMBER(c),
    ];
    let product = operation(BinOp::Mul, ExprView::Number(b), ExprView::Number(c));
    let sum = operation(BinOp::Add, ExprView::Number(a), product);
    reveal_with_fuel(grammar::more_factors, 3);
    reveal_with_fuel(grammar::more_terms, 3);
    assert(grammar::primary(t, 2) == Ok::<(ExprView, int), ParseErrorView>((ExprView::Number(a), 3)));
    assert(grammar::primary(t, 4) == Ok::<(ExprView, int), ParseErrorView>((ExprView::Number(b), 5)));
    assert(grammar::primary(t, 6) == Ok::<(ExprView, int), ParseErrorView>((ExprView::Number(c), 7)));
    assert(grammar::more_factors(t, product, 7) == Ok::<(ExprView, int), ParseErrorView>(
        (product, 7),
    ));
    assert(grammar::more_factors(t, ExprView::Number(b), 5) == Ok::<
        (ExprView, int),
        ParseErrorView,
    >((product, 7)));
    assert(grammar::multiplicative(t, 4) == Ok::<(ExprView, int), ParseErrorView>((product, 7)));
    assert(grammar::multiplicative(t, 2) == Ok::<(ExprView, int), ParseErrorView>(
        (ExprView::Number(a), 3),
    ));
    assert(grammar::more_terms(t, sum, 7) == Ok::<(ExprView, int), ParseErrorView>((sum, 7)));
    assert(grammar::more_terms(t, ExprView::Number(a), 3) == Ok::<(ExprView, int), ParseErrorView>(
        (sum, 7),
    ));
    assert(grammar::additive(t, 2) == Ok::<(ExprView, int), ParseErrorView>((sum, 7)));
    assert(grammar::expr(t, 2) == Ok::<(ExprView, int), ParseErrorView>((sum, 7)));
    assert(grammar::simple_statement(t, 0) == Ok::<(StatementView, int), ParseErrorView>(
        (StatementView::Assign { id: x, e: sum }, 7),
    ));
}

/// Subtraction groups to the left: `x = a - b - c` assigns the difference of
/// `a - b` and `c`.
pub proof fn difference_groups_to_the_left(x: Seq<char>, a: i32, b: i32, c: i32)
    ensures
        grammar::program(
            seq![
                TokenView::IDENT(x),
                TokenView::EQ,
                TokenView::NUMBER(a),
                TokenView::MINUS,
                TokenView::NUMBER(b),
                TokenView::MINUS,
                TokenView::NUMBER(c),
            ],
        ) == Ok::<StatementView, ParseErrorView>(
            StatementView::Assign {
                id: x,
                e: operation(
                    BinOp::Sub,
                    operation(BinOp::Sub, ExprView::Number(a), ExprView::Number(b)),
                    ExprView::Number(c),
                ),
            },
        ),
{
    let t = seq![
        TokenView::IDENT(x),
        TokenView::EQ,
        TokenView::NUMBER(a),
        TokenView::MINUS,
        TokenView::NUMBER(b),
        TokenView::MINUS,
        TokenView::NUMBER(c),
    ];
    let inner = operation(BinOp::Sub, ExprView::Number(a), ExprView::Number(b));
    let outer = operation(BinOp::Sub, inner, ExprView::Number(c));
    reveal_with_fuel(grammar::more_factors, 3);
    reveal_with_fuel(grammar::more_terms, 3);
    assert(grammar::multiplicative(t, 2) == Ok::<(ExprView, int), ParseErrorView>(
        (ExprView::Number(a), 3),
    ));
    assert(grammar::multiplicative(t, 4) == Ok::<(ExprView, int), ParseErrorView>(
        (ExprView::Number(b), 5),
    ));
    assert(grammar::multiplicative(t, 6) == Ok::<(ExprView, int), ParseErrorView>(
        (ExprView::Number(c), 7),
    ));
    assert(grammar::more_terms(t, outer, 7) == Ok::<(ExprView, int), ParseErrorView>((outer, 7)));
    assert(grammar::more_terms(t, inner, 5) == Ok::<(ExprView, int), ParseErrorView>((outer, 7)));
    assert(grammar::more_terms(t, ExprView::Number(a), 3) == Ok::<(ExprView, int), ParseErrorView>(
        (outer, 7),
    ));
    assert(grammar::additive(t, 2) == Ok::<(ExprView, int), ParseErrorView>((outer, 7)));
    assert(grammar::expr(t, 2) == Ok::<(ExprView, int), ParseErrorView>((outer, 7)));
    assert(grammar::simple_statement(t, 0) == Ok::<(StatementView, int), ParseErrorView>(
        (StatementView::Assign { id: x, e: outer }, 7),
    ));
}

/// Brackets override precedence: `x = a * (b + c)` assigns the product of `a`
/// and the sum of `b` and `c`.
pub proof fn brackets_override_precedence(x: Seq<char>, a: i32, b: i32, c: i32)
    ensures
        grammar::program(
            seq![
                TokenView::IDENT(x),
                TokenView::EQ,
                TokenView::NUMBER(a),
                TokenView::STAR,
                TokenView::LPAR,
                TokenView::NUMBER(b),
                TokenView::PLUS,
                TokenView::NUMBER(c),
                TokenView::RPAR,
            ],
        ) == Ok::<StatementView, ParseErrorView>(
            StatementView::Assign {
                id: x,
                e: operation(
                    BinOp::Mul,
                    ExprView::Number(a),
                    operation(BinOp::Add, ExprView::Number(b), ExprView::Number(c)),
                ),
            },
        ),
{
    let t = seq![
        TokenView::IDENT(x),
        TokenView::EQ,
        TokenView::NUMBER(a),
        TokenView::STAR,
        TokenView::LPAR,
        TokenView::NUMBER(b),
        TokenView::PLUS,
        TokenView::NUMBER(c),
        TokenView::RPAR,
    ];
    let sum = operation(BinOp::Add, ExprView::Number(b), ExprView::Number(c));
    let product = operation(BinOp::Mul, ExprView::Number(a), sum);
    reveal_with_fuel(grammar::more_factors, 3);
    reveal_with_fuel(grammar::more_terms, 3);
    assert(grammar::multiplicative(t, 5) == Ok::<(ExprView, int), ParseErrorView>(
        (ExprView::Number(b), 6),
    ));
    assert(grammar::multiplicative(t, 7) == Ok::<(ExprView, int), ParseErrorView>(
        (ExprView::Number(c), 8),
    ));
    assert(grammar::more_terms(t, sum, 8) == Ok::<(ExprView, int), ParseErrorView>((sum, 8)));
    assert(grammar::more_terms(t, ExprView::Number(b), 6) == Ok::<(ExprView, int), ParseErrorView>(
        (sum, 8),
    ));
    assert(grammar::additive(t, 5) == Ok::<(ExprView, int), ParseErrorView>((sum, 8)));
    assert(grammar::expr(t, 5) == Ok::<(ExprView, int), ParseErrorView>((sum, 8)));
    assert(grammar::group(t, 4, TokenView::LPAR, TokenView::RPAR) == Ok::<
        (ExprView, int),
        ParseErrorView,
    >((sum, 9)));
    assert(grammar::primary(t, 4) == Ok::<(ExprView, int), ParseErrorView>((sum, 9)));
    assert(grammar::primary(t, 2) == Ok::<(ExprView, int), ParseErrorView>(
        (ExprView::Number(a), 3),
    ));
    assert(grammar::more_factors(t, product, 9) == Ok::<(ExprView, int), ParseErrorView>(
        (product, 9),
    ));
    assert(grammar::more_factors(t, ExprView::Number(a), 3) == Ok::<
        (ExprView, int),
        ParseErrorView,
    >((product, 9)));
    assert(grammar::multiplicative(t, 2) == Ok::<(ExprView, int), ParseErrorView>((product, 9)));
    assert(grammar::more_terms(t, product, 9) == Ok::<(ExprView, int), ParseErrorView>(
        (product, 9),
    ));
    assert(grammar::additive(t, 2) == Ok::<(ExprView, int), ParseErrorView>((product, 9)));
    assert(grammar::expr(t, 2) == Ok::<(ExprView, int), ParseErrorView>((product, 9)));
    assert(grammar::simple_statement(t, 0) == Ok::<(StatementView, int), ParseErrorView>(
        (StatementView::Assign { id: x, e: product }, 9),
    ));
}

/// An operation on two number literals has the value that the operator gives
/// for the two numbers, and changes nothing.
pub proof fn operation_on_numbers(
    op: BinOp,
    a: i32,
    b: i32,
    env: EnvView,
    ft: TableView,
    out: Lines,
    depth: nat,
)
    ensures
        semantics::calc(
            operation(op, ExprView::Number(a), ExprView::Number(b)),
            env,
            ft,
            out,
            depth,
        ) == (CalcOutcome { result: binary(op, ValueView::Int(a), ValueView::Int(b)), ft, out }),
{
    reveal_with_fuel(semantics::calc, 2);
}

/// The digits that write a number are decimal digits, and they write that number.
pub proof fn decimal_text_reads_back(n: nat)
    ensures
        forall|i: int| 0 <= i < decimal_digits(n).len() ==> is_digit(#[trigger] decimal_digits(n)[i]),
        decimal_value(decimal_digits(n)) == n,
    decreases n,
{
    if n >= 10 {
        decimal_text_reads_back(n / 10);
        let digits = decimal_digits(n);
        assert(digits.drop_last() =~= decimal_digits(n / 10));
        assert(digits.last() == digit_char((n % 10) as int));
    } else {
        let digits = decimal_digits(n);
        assert(digits.drop_last() =~= Seq::<char>::empty());
        assert(decimal_value(digits.drop_last()) == 0);
    }
}

/// What a run gives depends on nothing but the structure of the program and
/// the state it starts in: programs of one structure, run from the same
/// environment, function table and lines, with the same depth allowed, give
/// the same result and leave the same state.
///
/// The contracts of `eval`, `exec` and `calc` give the outcome of a run as
/// this function of the models of their arguments.
pub proof fn equal_programs_run_alike(
    a: Statement,
    b: Statement,
    env: EnvView,
    ft: TableView,
    out: Lines,
    depth: nat,
)
    requires
        a@ == b@,
    ensures
        exec(a@, env, ft, out, depth) == exec(b@, env, ft, out, depth),
{
}

/// Whether a result is the error of calls nested too deeply.
pub open spec fn too_deep<T>(r: Result<T, EvalErrorView>) -> bool {
    r == Err::<T, EvalErrorView>(EvalErrorView::CallDepthExceeded)
}

/// The limit on nested calls only cuts evaluation short: an expression that
/// has a result other than the error of that limit has the same outcome with
/// one more nested call allowed.
pub proof fn deeper_calc_agrees(e: ExprView, env: EnvView, ft: TableView, out: Lines, depth: nat)
    requires
        !too_deep(semantics::calc(e, env, ft, out, depth).result),
    ensures
        semantics::calc(e, env, ft, out, depth + 1) == semantics::calc(e, env, ft, out, depth),
    decreases depth, 2int, e, 0int,
{
    match e {
        ExprView::Binary { op, lhs, rhs } => {
            let l = semantics::calc(*lhs, env, ft, out, depth);
            deeper_calc_agrees(*lhs, env, ft, out, depth);
            if l.result is Ok {
                deeper_calc_agrees(*rhs, env, l.ft, l.out, depth);
            }
        },
        ExprView::Comparison { op, lhs, rhs } => {
            let l = semantics::calc(*lhs, env, ft, out, depth);
            deeper_calc_agrees(*lhs, env, ft, out, depth);
            if l.result is Ok {
                deeper_calc_agrees(*rhs, env, l.ft, l.out, depth);
            }
        },
        ExprView::FunctionCall { id, args } => {
            let a = calc_args(args, args.len() as int, env, ft, out, depth);
            deeper_arguments_agree(args, args.len() as int, env, ft, out, depth);
            if let Ok(values) = a.result {
                deeper_call_agrees(id, values, a.ft, a.out, depth);
            }
        },
        _ => {},
    }
}

/// The same for the first `n` expressions of a list.
pub proof fn deeper_arguments_agree(
    args: Seq<ExprView>,
    n: int,
    env: EnvView,
    ft: TableView,
    out: Lines,
    depth: nat,
)
    requires
        !too_deep(calc_args(args, n, env, ft, out, depth).result),
    ensures
        calc_args(args, n, env, ft, out, depth + 1) == calc_args(args, n, env, ft, out, depth),
    decreases depth, 2int, args, n,
{
    if 0 < n <= args.len() {
        let before = calc_args(args, n - 1, env, ft, out, depth);
        deeper_arguments_agree(args, n - 1, env, ft, out, depth);
        if before.result is Ok {
            deeper_calc_agrees(args[n - 1], env, before.ft, before.out, depth);
        }
    }
}

/// The same for a call.
pub proof fn deeper_call_agrees(
    id: Seq<char>,
    values: Seq<ValueView>,
    ft: TableView,
    out: Lines,
    depth: nat,
)
    requires
        !too_deep(call(id, values, ft, out, depth).result),
    ensures
        call(id, values, ft, out, depth + 1) == call(id, values, ft, out, depth),
    decreases depth, 1int, values, 0int,
{
    if ft.contains_key(id) {
        if let DeclarationView::Function { arg, st } = ft[id] {
            let local = bind_params(arg, values, bound_count(arg, values));
            deeper_exec_agrees(st, local, ft, out, (depth - 1) as nat);
        }
    }
}

/// The same for a statement.
pub proof fn deeper_exec_agrees(st: StatementView, env: EnvView, ft: TableView, out: Lines, depth: nat)
    requires
        !too_deep(exec(st, env, ft, out, depth).result),
    ensures
        exec(st, env, ft, out, depth + 1) == exec(st, env, ft, out, depth),
    decreases depth, 3int, st, 0int,
{
    match st {
        StatementView::CompoundStatement { st1, st2 } => {
            let first = exec(*st1, env, ft, out, depth);
            deeper_exec_agrees(*st1, env, ft, out, depth);
            if first.result is Ok {
                deeper_exec_agrees(*st2, first.env, first.ft, first.out, depth);
            }
        },
        StatementView::FunctionCall { expr } => {
            deeper_calc_agrees(expr, env, ft, out, depth);
        },
        StatementView::Return { expr } => {
            deeper_calc_agrees(expr, env, ft, out, depth);
        },
        StatementView::Assign { id, e } => {
            deeper_calc_agrees(e, env, ft, out, depth);
        },
        StatementView::If { condition, then, els } => {
            let c = semantics::calc(condition, env, ft, out, depth);
            deeper_calc_agrees(condition, env, ft, out, depth);
            if let Ok(v) = c.result {
                if v.truthy() {
                    deeper_exec_agrees(*then, env, c.ft, c.out, depth);
                } else {
                    deeper_exec_agrees(*els, env, c.ft, c.out, depth);
                }
            }
        },
        _ => {},
    }
}

} // verus!
