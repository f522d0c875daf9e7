use vstd::prelude::*;
use crate::enums::{BinOp, ComparisonOp, ExprView, StatementView, TokenView};
use crate::errors::ParseErrorView;

verus! {

/// The token at `pos`, `None` behind the last one.
pub open spec fn token_at(t: Seq<TokenView>, pos: int) -> Option<TokenView> {
    if 0 <= pos < t.len() {
        Some(t[pos])
    } else {
        None
    }
}

/// Whether a parse that started at `pos` and ended at `end` has read at least
/// one token and none behind the last.
///
/// Every successful parse of an expression does so. Where a rule goes on
/// behind a part, it asks for this first, which bounds its recursion.
pub open spec fn advanced(t: Seq<TokenView>, pos: int, end: int) -> bool {
    pos < end <= t.len()
}

/// The position behind the token `expected`, which must stand at `pos`.
pub open spec fn expect(t: Seq<TokenView>, pos: int, expected: TokenView) -> Result<
    int,
    ParseErrorView,
> {
    if token_at(t, pos) == Some(expected) {
        Ok(pos + 1)
    } else {
        Err(ParseErrorView::UnexpectedToken { expected, found: token_at(t, pos), position: pos })
    }
}

/// The operator that a token stands for between two factors.
pub open spec fn mul_op(token: Option<TokenView>) -> Option<BinOp> {
    match token {
        Some(TokenView::STAR) => Some(BinOp::Mul),
        Some(TokenView::SLASH) => Some(BinOp::Div),
        _ => None,
    }
}

/// The operator that a token stands for between two terms.
pub open spec fn add_op(token: Option<TokenView>) -> Option<BinOp> {
    match token {
        Some(TokenView::PLUS) => Some(BinOp::Add),
        Some(TokenView::MINUS) => Some(BinOp::Sub),
        _ => None,
    }
}

/// The comparison that a token stands for.
pub open spec fn comparison_op(token: Option<TokenView>) -> Option<ComparisonOp> {
    match token {
        Some(TokenView::LT) => Some(ComparisonOp::Lt),
        Some(TokenView::GT) => Some(ComparisonOp::Gt),
        Some(TokenView::EQ) => Some(ComparisonOp::Eq),
        _ => None,
    }
}

/// The operation `op` on `lhs` and the operand that `rhs` holds, where `rhs`
/// is the outcome of parsing that operand.
pub open spec fn binary_with(
    op: BinOp,
    lhs: ExprView,
    rhs: Result<(ExprView, int), ParseErrorView>,
) -> Result<(ExprView, int), ParseErrorView> {
    match rhs {
        Err(e) => Err(e),
        Ok((operand, end)) => Ok(
            (ExprView::Binary { op, lhs: Box::new(lhs), rhs: Box::new(operand) }, end),
        ),
    }
}

/// The comparison `op` of `lhs` with the operand that `rhs` holds, where `rhs`
/// is the outcome of parsing that operand.
pub open spec fn comparison_with(
    op: ComparisonOp,
    lhs: ExprView,
    rhs: Result<(ExprView, int), ParseErrorView>,
) -> Result<(ExprView, int), ParseErrorView> {
    match rhs {
        Err(e) => Err(e),
        Ok((operand, end)) => Ok(
            (ExprView::Comparison { op, lhs: Box::new(lhs), rhs: Box::new(operand) }, end),
        ),
    }
}

/// The negative number literal whose minus sign stands at `pos`: `'-' NUMBER`.
pub open spec fn negative(t: Seq<TokenView>, pos: int) -> Result<(ExprView, int), ParseErrorView> {
    match token_at(t, pos + 1) {
        Some(TokenView::NUMBER(n)) => {
            if n == i32::MIN {
                Err(ParseErrorView::LiteralOutOfRange { position: pos + 1 })
            } else {
                Ok((ExprView::Number((-n) as i32), pos + 2))
            }
        },
        found => Err(ParseErrorView::ExpectedNumber { found, position: pos + 1 }),
    }
}

/// The variable or the call whose name `id` stands at `pos`:
/// `IDENT ['(' [Expr {',' Expr}] ')']`.
pub open spec fn named(t: Seq<TokenView>, id: Seq<char>, pos: int) -> Result<
    (ExprView, int),
    ParseErrorView,
>
    decreases t.len() - pos, 0int,
{
    if token_at(t, pos + 1) == Some(TokenView::LPAR) && 0 <= pos {
        match arguments(t, pos + 2) {
            Err(e) => Err(e),
            Ok((args, end)) => match expect(t, end, TokenView::RPAR) {
                Err(e) => Err(e),
                Ok(after) => Ok((ExprView::FunctionCall { id, args }, after)),
            },
        }
    } else {
        Ok((ExprView::Var(id), pos + 1))
    }
}

/// `Primary = NUMBER | STRING | '-' NUMBER | IDENT ['(' [Expr {',' Expr}] ')']
///          | '(' Expr ')' | '{' Expr '}'`
pub open spec fn primary(t: Seq<TokenView>, pos: int) -> Result<(ExprView, int), ParseErrorView>
    decreases t.len() - pos, 1int,
{
    match token_at(t, pos) {
        Some(TokenView::LPAR) => group(t, pos, TokenView::LPAR, TokenView::RPAR),
        Some(TokenView::LBRACE) => group(t, pos, TokenView::LBRACE, TokenView::RBRACE),
        Some(TokenView::NUMBER(n)) => Ok((ExprView::Number(n), pos + 1)),
        Some(TokenView::STR(s)) => Ok((ExprView::Str(s), pos + 1)),
        Some(TokenView::IDENT(id)) => named(t, id, pos),
        Some(TokenView::MINUS) => negative(t, pos),
        found => Err(ParseErrorView::ExpectedExpression { found, position: pos }),
    }
}

/// An expression in brackets: `open Expr close`, with `open` at `pos`.
pub open spec fn group(t: Seq<TokenView>, pos: int, open: TokenView, close: TokenView) -> Result<
    (ExprView, int),
    ParseErrorView,
>
    decreases t.len() - pos, 0int,
{
    match expect(t, pos, open) {
        Err(e) => Err(e),
        Ok(inside) => match expr(t, inside) {
            Err(e) => Err(e),
            Ok((e, end)) => match expect(t, end, close) {
                Err(err) => Err(err),
                Ok(after) => Ok((e, after)),
            },
        },
    }
}

/// The arguments of a call, up to its closing parenthesis: `[Expr {',' Expr}]`.
pub open spec fn arguments(t: Seq<TokenView>, pos: int) -> Result<
    (Seq<ExprView>, int),
    ParseErrorView,
>
    decreases t.len() - pos, 6int,
{
    if token_at(t, pos) == Some(TokenView::RPAR) {
        Ok((Seq::empty(), pos))
    } else {
        match expr(t, pos) {
            Err(e) => Err(e),
            Ok((first, end)) => {
                if advanced(t, pos, end) {
                    more_arguments(t, seq![first], end)
                } else {
                    Ok((seq![first], end))
                }
            },
        }
    }
}

/// The arguments that follow those in `found`: `{',' Expr}`.
pub open spec fn more_arguments(t: Seq<TokenView>, found: Seq<ExprView>, pos: int) -> Result<
    (Seq<ExprView>, int),
    ParseErrorView,
>
    decreases t.len() - pos, 0int,
{
    if token_at(t, pos) == Some(TokenView::COMMA) {
        match expr(t, pos + 1) {
            Err(e) => Err(e),
            Ok((next, end)) => {
                if advanced(t, pos, end) {
                    more_arguments(t, found.push(next), end)
                } else {
                    Ok((found.push(next), end))
                }
            },
        }
    } else {
        Ok((found, pos))
    }
}

/// `Multiplicative = Primary { ('*'|'/') Primary }`, grouping to the left.
pub open spec fn multiplicative(t: Seq<TokenView>, pos: int) -> Result<
    (ExprView, int),
    ParseErrorView,
>
    decreases t.len() - pos, 2int,
{
    match primary(t, pos) {
        Err(e) => Err(e),
        Ok((first, end)) => {
            if advanced(t, pos, end) {
                more_factors(t, first, end)
            } else {
                Ok((first, end))
            }
        },
    }
}

/// The product that starts with `lhs` and goes on at `pos`: `{ ('*'|'/') Primary }`.
pub open spec fn more_factors(t: Seq<TokenView>, lhs: ExprView, pos: int) -> Result<
    (ExprView, int),
    ParseErrorView,
>
    decreases t.len() - pos, 0int,
{
    match mul_op(token_at(t, pos)) {
        Some(op) => match binary_with(op, lhs, primary(t, pos + 1)) {
            Err(e) => Err(e),
            Ok((product, end)) => {
                if advanced(t, pos, end) {
                    more_factors(t, product, end)
                } else {
                    Ok((product, end))
                }
            },
        },
        None => Ok((lhs, pos)),
    }
}

/// `Additive = Multiplicative { ('+'|'-') Multiplicative }`, grouping to the left.
pub open spec fn additive(t: Seq<TokenView>, pos: int) -> Result<(ExprView, int), ParseErrorView>
    decreases t.len() - pos, 3int,
{
    match multiplicative(t, pos) {
        Err(e) => Err(e),
        Ok((first, end)) => {
            if advanced(t, pos, end) {
                more_terms(t, first, end)
            } else {
                Ok((first, end))
            }
        },
    }
}

/// The sum that starts with `lhs` and goes on at `pos`: `{ ('+'|'-') Multiplicative }`.
pub open spec fn more_terms(t: Seq<TokenView>, lhs: ExprView, pos: int) -> Result<
    (ExprView, int),
    ParseErrorView,
>
    decreases t.len() - pos, 0int,
{
    match add_op(token_at(t, pos)) {
        Some(op) => match binary_with(op, lhs, multiplicative(t, pos + 1)) {
            Err(e) => Err(e),
            Ok((sum, end)) => {
                if advanced(t, pos, end) {
                    more_terms(t, sum, end)
                } else {
                    Ok((sum, end))
                }
            },
        },
        None => Ok((lhs, pos)),
    }
}

/// `Relational = Additive [ ('<'|'>'|'=') Additive ]`: at most one comparison.
pub open spec fn relational(t: Seq<TokenView>, pos: int) -> Result<(ExprView, int), ParseErrorView>
    decreases t.len() - pos, 4int,
{
    match additive(t, pos) {
        Err(e) => Err(e),
        Ok((lhs, end)) => match comparison_op(token_at(t, end)) {
            Some(op) => {
                if advanced(t, pos, end) {
                    comparison_with(op, lhs, additive(t, end + 1))
                } else {
                    Ok((lhs, end))
                }
            },
            None => Ok((lhs, end)),
        },
    }
}

/// `Expr = Relational`
pub open spec fn expr(t: Seq<TokenView>, pos: int) -> Result<(ExprView, int), ParseErrorView>
    decreases t.len() - pos, 5int,
{
    relational(t, pos)
}

/// The parameter names of a function definition, up to its closing
/// parenthesis: `[IDENT {',' IDENT}]`.
pub open spec fn parameters(t: Seq<TokenView>, pos: int) -> Result<
    (Seq<Seq<char>>, int),
    ParseErrorView,
> {
    match token_at(t, pos) {
        Some(TokenView::IDENT(name)) => more_parameters(t, seq![name], pos + 1),
        _ => Ok((Seq::empty(), pos)),
    }
}

/// The parameter names that follow those in `found`: `{',' IDENT}`.
pub open spec fn more_parameters(t: Seq<TokenView>, found: Seq<Seq<char>>, pos: int) -> Result<
    (Seq<Seq<char>>, int),
    ParseErrorView,
>
    decreases t.len() - pos,
{
    if token_at(t, pos) == Some(TokenView::COMMA) {
        match token_at(t, pos + 1) {
            Some(TokenView::IDENT(name)) => more_parameters(t, found.push(name), pos + 2),
            other => Err(ParseErrorView::ExpectedIdentifier { found: other, position: pos + 1 }),
        }
    } else {
        Ok((found, pos))
    }
}

/// A statement in braces, the opening one at `pos`: `'{' Statement '}'`.
pub open spec fn block(t: Seq<TokenView>, pos: int) -> Result<(StatementView, int), ParseErrorView>
    decreases t.len() - pos, 0int,
{
    match expect(t, pos, TokenView::LBRACE) {
        Err(e) => Err(e),
        Ok(inside) => match statement(t, inside) {
            Err(e) => Err(e),
            Ok((st, end)) => match expect(t, end, TokenView::RBRACE) {
                Err(e) => Err(e),
                Ok(after) => Ok((st, after)),
            },
        },
    }
}

/// `IfStmt = 'if' Expr '{' Statement '}' 'else' '{' Statement '}'`, the `if` at `pos`.
///
/// The two tests on `advanced` bound the recursion and always hold
/// (`expr_advances`, `block_advances`), so the error beside them never comes.
pub open spec fn if_statement(t: Seq<TokenView>, pos: int) -> Result<
    (StatementView, int),
    ParseErrorView,
>
    decreases t.len() - pos, 6int,
{
    match expr(t, pos + 1) {
        Err(e) => Err(e),
        Ok((condition, end)) => {
            if !advanced(t, pos, end) {
                Err(ParseErrorView::ExpectedExpression { found: None, position: pos + 1 })
            } else {
                match block(t, end) {
                    Err(e) => Err(e),
                    Ok((then, after_then)) => match expect(t, after_then, TokenView::ELSE) {
                        Err(e) => Err(e),
                        Ok(at_else) => {
                            if !advanced(t, pos, at_else) {
                                Err(ParseErrorView::ExpectedExpression { found: None, position: pos + 1 })
                            } else {
                                match block(t, at_else) {
                                    Err(e) => Err(e),
                                    Ok((els, after)) => Ok(
                                        (
                                            StatementView::If {
                                                condition,
                                                then: Box::new(then),
                                                els: Box::new(els),
                                            },
                                            after,
                                        ),
                                    ),
                                }
                            }
                        },
                    },
                }
            }
        },
    }
}

/// `ReturnStmt = 'return' Expr`, the `return` at `pos`.
pub open spec fn return_statement(t: Seq<TokenView>, pos: int) -> Result<
    (StatementView, int),
    ParseErrorView,
> {
    match expr(t, pos + 1) {
        Err(e) => Err(e),
        Ok((e, end)) => Ok((StatementView::Return { expr: e }, end)),
    }
}

/// `FnDefStmt = 'fn' IDENT '(' [IDENT {',' IDENT}] ')' '{' Statement '}'`, the
/// `fn` at `pos`.
///
/// The test on `advanced` bounds the recursion and always holds
/// (`more_parameters_in_bounds`), so the error beside it never comes.
pub open spec fn function_definition(t: Seq<TokenView>, pos: int) -> Result<
    (StatementView, int),
    ParseErrorView,
>
    decreases t.len() - pos, 6int,
{
    match token_at(t, pos + 1) {
        Some(TokenView::IDENT(id)) => match expect(t, pos + 2, TokenView::LPAR) {
            Err(e) => Err(e),
            Ok(inside) => match parameters(t, inside) {
                Err(e) => Err(e),
                Ok((arg, end)) => match expect(t, end, TokenView::RPAR) {
                    Err(e) => Err(e),
                    Ok(at_body) => {
                        if !advanced(t, pos, at_body) {
                            Err(ParseErrorView::ExpectedIdentifier { found: None, position: pos + 1 })
                        } else {
                            match block(t, at_body) {
                                Err(e) => Err(e),
                                Ok((body, after)) => Ok(
                                    (
                                        StatementView::FunctionDefine {
                                            id,
                                            arg,
                                            st: Box::new(body),
                                        },
                                        after,
                                    ),
                                ),
                            }
                        }
                    },
                },
            },
        },
        found => Err(ParseErrorView::ExpectedIdentifier { found, position: pos + 1 }),
    }
}

/// A statement that starts with the identifier `id` at `pos`: an assignment
/// before `=`, a call before `(`. Before anything else it is the empty
/// statement, and the identifier is left unread.
pub open spec fn identifier_statement(t: Seq<TokenView>, id: Seq<char>, pos: int) -> Result<
    (StatementView, int),
    ParseErrorView,
> {
    match token_at(t, pos + 1) {
        Some(TokenView::EQ) => match expr(t, pos + 2) {
            Err(e) => Err(e),
            Ok((e, end)) => Ok((StatementView::Assign { id, e }, end)),
        },
        Some(TokenView::LPAR) => match expr(t, pos) {
            Err(e) => Err(e),
            Ok((e, end)) => Ok((StatementView::FunctionCall { expr: e }, end)),
        },
        _ => Ok((StatementView::Null, pos)),
    }
}

/// One statement without what follows a semicolon. A token that starts no
/// statement gives the empty statement and is left unread.
pub open spec fn simple_statement(t: Seq<TokenView>, pos: int) -> Result<
    (StatementView, int),
    ParseErrorView,
>
    decreases t.len() - pos, 7int,
{
    match token_at(t, pos) {
        Some(TokenView::IF) => if_statement(t, pos),
        Some(TokenView::RETURN) => return_statement(t, pos),
        Some(TokenView::FN) => function_definition(t, pos),
        Some(TokenView::IDENT(id)) => identifier_statement(t, id, pos),
        _ => Ok((StatementView::Null, pos)),
    }
}

/// `Statement = (IfStmt | AssignStmt | ReturnStmt | FnDefStmt | CallStmt | ε)
///            [ ';' Statement ]`
///
/// The test `pos <= end` bounds the recursion and always holds
/// (`statement_in_bounds`).
pub open spec fn statement(t: Seq<TokenView>, pos: int) -> Result<
    (StatementView, int),
    ParseErrorView,
>
    decreases t.len() - pos, 8int,
{
    match simple_statement(t, pos) {
        Err(e) => Err(e),
        Ok((first, end)) => {
            if token_at(t, end) == Some(TokenView::SEMICOLON) && pos <= end {
                match statement(t, end + 1) {
                    Err(e) => Err(e),
                    Ok((rest, after)) => Ok(
                        (
                            StatementView::CompoundStatement {
                                st1: Box::new(first),
                                st2: Box::new(rest),
                            },
                            after,
                        ),
                    ),
                }
            } else {
                Ok((first, end))
            }
        },
    }
}

/// The program that a sequence of tokens holds: the statement at its start.
/// Tokens behind that statement are not read.
pub open spec fn program(t: Seq<TokenView>) -> Result<StatementView, ParseErrorView> {
    match statement(t, 0) {
        Err(e) => Err(e),
        Ok((st, _)) => Ok(st),
    }
}

/// Whether a parse that gave a result ended at or behind `pos` and not behind
/// the last token.
pub open spec fn in_bounds<T>(t: Seq<TokenView>, pos: int, r: Result<(T, int), ParseErrorView>) -> bool {
    r matches Ok((_, end)) ==> pos <= end <= t.len()
}

/// Whether a parse that gave a result read at least one token.
pub open spec fn consumes<T>(t: Seq<TokenView>, pos: int, r: Result<(T, int), ParseErrorView>) -> bool {
    r matches Ok((_, end)) ==> advanced(t, pos, end)
}

/// A primary expression is at least one token long.
pub proof fn primary_advances(t: Seq<TokenView>, pos: int)
    requires
        0 <= pos,
    ensures
        consumes(t, pos, primary(t, pos)),
    decreases t.len() - pos, 1int,
{
    match token_at(t, pos) {
        Some(TokenView::LPAR) => group_advances(t, pos, TokenView::LPAR, TokenView::RPAR),
        Some(TokenView::LBRACE) => group_advances(
            t,
            pos,
            TokenView::LBRACE,
            TokenView::RBRACE,
        ),
        Some(TokenView::IDENT(id)) => named_advances(t, id, pos),
        _ => {},
    }
}

/// An expression in brackets is at least one token long.
pub proof fn group_advances(t: Seq<TokenView>, pos: int, open: TokenView, close: TokenView)
    requires
        0 <= pos,
    ensures
        consumes(t, pos, group(t, pos, open, close)),
    decreases t.len() - pos, 0int,
{
    if expect(t, pos, open) is Ok {
        expr_advances(t, pos + 1);
    }
}

/// A variable or a call is at least one token long.
pub proof fn named_advances(t: Seq<TokenView>, id: Seq<char>, pos: int)
    requires
        0 <= pos,
        token_at(t, pos) == Some(TokenView::IDENT(id)),
    ensures
        consumes(t, pos, named(t, id, pos)),
    decreases t.len() - pos, 0int,
{
    if token_at(t, pos + 1) == Some(TokenView::LPAR) {
        arguments_in_bounds(t, pos + 2);
    }
}

/// A list of arguments ends inside the tokens.
pub proof fn arguments_in_bounds(t: Seq<TokenView>, pos: int)
    requires
        0 <= pos,
    ensures
        in_bounds(t, pos, arguments(t, pos)),
    decreases t.len() - pos, 6int,
{
    if token_at(t, pos) != Some(TokenView::RPAR) {
        expr_advances(t, pos);
        if let Ok((first, end)) = expr(t, pos) {
            more_arguments_in_bounds(t, seq![first], end);
        }
    }
}

/// The rest of a list of arguments ends inside the tokens.
pub proof fn more_arguments_in_bounds(t: Seq<TokenView>, found: Seq<ExprView>, pos: int)
    requires
        0 <= pos <= t.len(),
    ensures
        in_bounds(t, pos, more_arguments(t, found, pos)),
    decreases t.len() - pos, 0int,
{
    if token_at(t, pos) == Some(TokenView::COMMA) {
        expr_advances(t, pos + 1);
        if let Ok((next, end)) = expr(t, pos + 1) {
            more_arguments_in_bounds(t, found.push(next), end);
        }
    }
}

/// A product is at least one token long.
pub proof fn multiplicative_advances(t: Seq<TokenView>, pos: int)
    requires
        0 <= pos,
    ensures
        consumes(t, pos, multiplicative(t, pos)),
    decreases t.len() - pos, 2int,
{
    primary_advances(t, pos);
    if let Ok((first, end)) = primary(t, pos) {
        more_factors_in_bounds(t, first, end);
    }
}

/// The rest of a product ends inside the tokens.
pub proof fn more_factors_in_bounds(t: Seq<TokenView>, lhs: ExprView, pos: int)
    requires
        0 <= pos <= t.len(),
    ensures
        in_bounds(t, pos, more_factors(t, lhs, pos)),
    decreases t.len() - pos, 0int,
{
    if let Some(op) = mul_op(token_at(t, pos)) {
        primary_advances(t, pos + 1);
        if let Ok((product, end)) = binary_with(op, lhs, primary(t, pos + 1)) {
            more_factors_in_bounds(t, product, end);
        }
    }
}

/// A sum is at least one token long.
pub proof fn additive_advances(t: Seq<TokenView>, pos: int)
    requires
        0 <= pos,
    ensures
        consumes(t, pos, additive(t, pos)),
    decreases t.len() - pos, 3int,
{
    multiplicative_advances(t, pos);
    if let Ok((first, end)) = multiplicative(t, pos) {
        more_terms_in_bounds(t, first, end);
    }
}

/// The rest of a sum ends inside the tokens.
pub proof fn more_terms_in_bounds(t: Seq<TokenView>, lhs: ExprView, pos: int)
    requires
        0 <= pos <= t.len(),
    ensures
        in_bounds(t, pos, more_terms(t, lhs, pos)),
    decreases t.len() - pos, 0int,
{
    if let Some(op) = add_op(token_at(t, pos)) {
        multiplicative_advances(t, pos + 1);
        if let Ok((sum, end)) = binary_with(op, lhs, multiplicative(t, pos + 1)) {
            more_terms_in_bounds(t, sum, end);
        }
    }
}

/// An expression is at least one token long and ends inside the tokens, so
/// the tests on `advanced` in the rules of the grammar always hold.
pub proof fn expr_advances(t: Seq<TokenView>, pos: int)
    requires
        0 <= pos,
    ensures
        consumes(t, pos, expr(t, pos)),
    decreases t.len() - pos, 5int,
{
    additive_advances(t, pos);
    if let Ok((lhs, end)) = additive(t, pos) {
        if comparison_op(token_at(t, end)) is Some {
            additive_advances(t, end + 1);
        }
    }
}

/// A statement in braces ends behind its start and inside the tokens.
pub proof fn block_advances(t: Seq<TokenView>, pos: int)
    requires
        0 <= pos,
    ensures
        consumes(t, pos, block(t, pos)),
    decreases t.len() - pos, 0int,
{
    if expect(t, pos, TokenView::LBRACE) is Ok {
        statement_in_bounds(t, pos + 1);
    }
}

/// A statement ends at or behind its start and inside the tokens, so the
/// tests on positions in the rules for statements always hold.
pub proof fn statement_in_bounds(t: Seq<TokenView>, pos: int)
    requires
        0 <= pos <= t.len(),
    ensures
        in_bounds(t, pos, simple_statement(t, pos)),
        in_bounds(t, pos, statement(t, pos)),
    decreases t.len() - pos, 8int,
{
    match token_at(t, pos) {
        Some(TokenView::IF) => {
            expr_advances(t, pos + 1);
            if let Ok((condition, end)) = expr(t, pos + 1) {
                block_advances(t, end);
                if let Ok((then, after_then)) = block(t, end) {
                    if let Ok(at_else) = expect(t, after_then, TokenView::ELSE) {
                        block_advances(t, at_else);
                    }
                }
            }
        },
        Some(TokenView::RETURN) => {
            expr_advances(t, pos + 1);
        },
        Some(TokenView::FN) => {
            if token_at(t, pos + 1) is Some && expect(t, pos + 2, TokenView::LPAR) is Ok {
                more_parameters_in_bounds(t, pos + 3);
                if let Ok((arg, end)) = parameters(t, pos + 3) {
                    if let Ok(at_body) = expect(t, end, TokenView::RPAR) {
                        block_advances(t, at_body);
                    }
                }
            }
        },
        Some(TokenView::IDENT(id)) => {
            match token_at(t, pos + 1) {
                Some(TokenView::EQ) => expr_advances(t, pos + 2),
                Some(TokenView::LPAR) => expr_advances(t, pos),
                _ => {},
            }
        },
        _ => {},
    }
    if let Ok((first, end)) = simple_statement(t, pos) {
        if token_at(t, end) == Some(TokenView::SEMICOLON) {
            statement_in_bounds(t, end + 1);
        }
    }
}

/// A list of parameter names ends at or behind its start and inside the tokens.
pub proof fn more_parameters_in_bounds(t: Seq<TokenView>, pos: int)
    requires
        0 <= pos <= t.len(),
    ensures
        in_bounds(t, pos, parameters(t, pos)),
        forall|found: Seq<Seq<char>>| in_bounds(t, pos, #[trigger] more_parameters(t, found, pos)),
    decreases t.len() - pos,
{
    if pos + 2 <= t.len() {
        more_parameters_in_bounds(t, pos + 2);
    }
    if pos + 1 <= t.len() {
        more_parameters_in_bounds(t, pos + 1);
    }
    assert forall|found: Seq<Seq<char>>|
        in_bounds(t, pos, #[trigger] more_parameters(t, found, pos)) by {
        if token_at(t, pos) == Some(TokenView::COMMA) {
            if let Some(TokenView::IDENT(name)) = token_at(t, pos + 1) {
                assert(in_bounds(t, pos + 2, more_parameters(t, found.push(name), pos + 2)));
            }
        }
    }
}

} // verus!
