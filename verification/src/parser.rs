pub mod grammar;

use vstd::prelude::*;
use crate::enums::{
    BinOp, ComparisonOp, Expr, ExprView, Statement, StatementView, Syntax, SyntaxView, Token,
    TokenView, exprs_view, strings_view, tokens_view,
};
use crate::errors::{ParseError, ParseErrorView, found_view};
use crate::parser::grammar::{advanced, binary_with, comparison_with, token_at};

verus! {

/// The outcome of a parsing step that gives an expression, with the position
/// at which it ended.
pub open spec fn expr_outcome(r: Result<Expr, ParseError>, end: int) -> Result<
    (ExprView, int),
    ParseErrorView,
> {
    match r {
        Ok(e) => Ok((e@, end)),
        Err(e) => Err(e@),
    }
}

/// The outcome of a parsing step that gives a statement, with the position at
/// which it ended.
pub open spec fn statement_outcome(r: Result<Statement, ParseError>, end: int) -> Result<
    (StatementView, int),
    ParseErrorView,
> {
    match r {
        Ok(st) => Ok((st@, end)),
        Err(e) => Err(e@),
    }
}

/// The outcome of a parsing step that gives a list of expressions.
pub open spec fn exprs_outcome(r: Result<Vec<Expr>, ParseError>, end: int) -> Result<
    (Seq<ExprView>, int),
    ParseErrorView,
> {
    match r {
        Ok(list) => Ok((exprs_view(list@), end)),
        Err(e) => Err(e@),
    }
}

/// The outcome of a parsing step that gives a list of names.
pub open spec fn names_outcome(r: Result<Vec<String>, ParseError>, end: int) -> Result<
    (Seq<Seq<char>>, int),
    ParseErrorView,
> {
    match r {
        Ok(list) => Ok((strings_view(list@), end)),
        Err(e) => Err(e@),
    }
}

/// A recursive-descent parser over a sequence of tokens.
pub struct Parser {
    input: Vec<Token>,
    pos: usize,
}

impl Parser {
    /// The models of the tokens.
    pub closed spec fn tokens(&self) -> Seq<TokenView> {
        tokens_view(self.input@)
    }

    /// The index of the token to read next.
    pub closed spec fn position(&self) -> int {
        self.pos as int
    }

    /// A parser at the first of `tokens`.
    pub fn new(tokens: Vec<Token>) -> (r: Self)
        ensures
            r.tokens() == tokens_view(tokens@),
            r.position() == 0,
    {
        Parser { input: tokens, pos: 0 }
    }

    /// The token to read next, `None` behind the last one.
    pub fn current(&self) -> (r: Option<Token>)
        ensures
            found_view(r) == token_at(self.tokens(), self.position()),
    {
        if self.pos < self.input.len() {
            return Some(self.input[self.pos].clone());
        }
        None
    }

    /// The token behind the one to read next, `None` behind the last one.
    pub fn next(&self) -> (r: Option<Token>)
        ensures
            found_view(r) == token_at(self.tokens(), self.position() + 1),
    {
        if self.pos < self.input.len() && self.pos + 1 < self.input.len() {
            return Some(self.input[self.pos + 1].clone());
        }
        None
    }

    /// Steps over the token to read next.
    pub fn fix(&mut self)
        requires
            old(self).position() < old(self).tokens().len(),
        ensures
            final(self).tokens() == old(self).tokens(),
            final(self).position() == old(self).position() + 1,
    {
        assert(self.tokens().len() == self.input.len());
        self.pos += 1;
    }

    /// Steps over the token `expect`, which must be the one to read next.
    pub fn confirm(&mut self, expect: Token) -> (r: Result<(), ParseError>)
        ensures
            final(self).tokens() == old(self).tokens(),
            match grammar::expect(old(self).tokens(), old(self).position(), expect@) {
                Ok(after) => r is Ok && final(self).position() == after,
                Err(e) => r matches Err(err) && err@ == e && final(self).position() == old(
                    self,
                ).position(),
            },
    {
        match self.current() {
            Some(token) => {
                if token.same(&expect) {
                    self.fix();
                    Ok(())
                } else {
                    Err(
                        ParseError::UnexpectedToken {
                            expected: expect,
                            found: Some(token),
                            position: self.pos,
                        },
                    )
                }
            },
            None => Err(
                ParseError::UnexpectedToken { expected: expect, found: None, position: self.pos },
            ),
        }
    }

    /// `Primary = NUMBER | STRING | '-' NUMBER | IDENT ['(' [Expr {',' Expr}] ')']
    ///          | '(' Expr ')' | '{' Expr '}'`
    pub fn parse_primary(&mut self) -> (r: Result<Expr, ParseError>)
        ensures
            final(self).tokens() == old(self).tokens(),
            expr_outcome(r, final(self).position()) == grammar::primary(
                old(self).tokens(),
                old(self).position(),
            ),
            r is Ok ==> advanced(old(self).tokens(), old(self).position(), final(self).position()),
        decreases old(self).tokens().len() - old(self).position(), 1int,
    {
        match self.current() {
            Some(Token::LPAR) => self.parse_par(),
            Some(Token::LBRACE) => self.parse_brace(),
            Some(Token::NUMBER(n)) => self.parse_number(n),
            Some(Token::STR(s)) => self.parse_str(s),
            Some(Token::IDENT(s)) => self.parse_id(s),
            Some(Token::MINUS) => self.parse_negative(),
            found => Err(ParseError::ExpectedExpression { found, position: self.pos }),
        }
    }

    /// `'(' Expr ')'`
    fn parse_par(&mut self) -> (r: Result<Expr, ParseError>)
        ensures
            final(self).tokens() == old(self).tokens(),
            expr_outcome(r, final(self).position()) == grammar::group(
                old(self).tokens(),
                old(self).position(),
                TokenView::LPAR,
                TokenView::RPAR,
            ),
            r is Ok ==> advanced(old(self).tokens(), old(self).position(), final(self).position()),
        decreases old(self).tokens().len() - old(self).position(), 0int,
    {
        match self.confirm(Token::LPAR) {
            Ok(()) => {},
            Err(e) => {
                return Err(e);
            },
        }
        let result = match self.parse_expr() {
            Ok(e) => e,
            Err(e) => {
                return Err(e);
            },
        };
        match self.confirm(Token::RPAR) {
            Ok(()) => Ok(result),
            Err(e) => Err(e),
        }
    }

    /// `'{' Expr '}'`
    fn parse_brace(&mut self) -> (r: Result<Expr, ParseError>)
        ensures
            final(self).tokens() == old(self).tokens(),
            expr_outcome(r, final(self).position()) == grammar::group(
                old(self).tokens(),
                old(self).position(),
                TokenView::LBRACE,
                TokenView::RBRACE,
            ),
            r is Ok ==> advanced(old(self).tokens(), old(self).position(), final(self).position()),
        decreases old(self).tokens().len() - old(self).position(), 0int,
    {
        match self.confirm(Token::LBRACE) {
            Ok(()) => {},
            Err(e) => {
                return Err(e);
            },
        }
        let result = match self.parse_expr() {
            Ok(e) => e,
            Err(e) => {
                return Err(e);
            },
        };
        match self.confirm(Token::RBRACE) {
            Ok(()) => Ok(result),
            Err(e) => Err(e),
        }
    }

    /// `NUMBER`
    fn parse_number(&mut self, n: i32) -> (r: Result<Expr, ParseError>)
        requires
            token_at(old(self).tokens(), old(self).position()) == Some(TokenView::NUMBER(n)),
        ensures
            final(self).tokens() == old(self).tokens(),
            final(self).position() == old(self).position() + 1,
            r matches Ok(e) && e@ == ExprView::Number(n),
    {
        self.fix();
        Ok(Expr::Number(n))
    }

    /// `STRING`
    fn parse_str(&mut self, s: String) -> (r: Result<Expr, ParseError>)
        requires
            token_at(old(self).tokens(), old(self).position()) == Some(TokenView::STR(s@)),
        ensures
            final(self).tokens() == old(self).tokens(),
            final(self).position() == old(self).position() + 1,
            r matches Ok(e) && e@ == ExprView::Str(s@),
    {
        self.fix();
        Ok(Expr::Str(s))
    }

    /// `IDENT ['(' [Expr {',' Expr}] ')']`
    fn parse_id(&mut self, id: String) -> (r: Result<Expr, ParseError>)
        requires
            token_at(old(self).tokens(), old(self).position()) == Some(TokenView::IDENT(id@)),
        ensures
            final(self).tokens() == old(self).tokens(),
            expr_outcome(r, final(self).position()) == grammar::named(
                old(self).tokens(),
                id@,
                old(self).position(),
            ),
            r is Ok ==> advanced(old(self).tokens(), old(self).position(), final(self).position()),
        decreases old(self).tokens().len() - old(self).position(), 0int,
    {
        self.fix();
        match self.current() {
            Some(Token::LPAR) => {
                self.fix();
                let args = match self.parse_param_list() {
                    Ok(list) => list,
                    Err(e) => {
                        return Err(e);
                    },
                };
                match self.confirm(Token::RPAR) {
                    Ok(()) => {
                        let call = Expr::FunctionCall { id, args };
                        assert(call@->FunctionCall_args =~= exprs_view(args@));
                        Ok(call)
                    },
                    Err(e) => Err(e),
                }
            },
            _ => Ok(Expr::Var(id)),
        }
    }

    /// `'-' NUMBER`
    fn parse_negative(&mut self) -> (r: Result<Expr, ParseError>)
        requires
            token_at(old(self).tokens(), old(self).position()) == Some(TokenView::MINUS),
        ensures
            final(self).tokens() == old(self).tokens(),
            expr_outcome(r, final(self).position()) == grammar::negative(
                old(self).tokens(),
                old(self).position(),
            ),
            r is Ok ==> advanced(old(self).tokens(), old(self).position(), final(self).position()),
    {
        self.fix();
        match self.current() {
            Some(Token::NUMBER(n)) => {
                if n == i32::MIN {
                    return Err(ParseError::LiteralOutOfRange { position: self.pos });
                }
                self.fix();
                Ok(Expr::Number(-n))
            },
            found => Err(ParseError::ExpectedNumber { found, position: self.pos }),
        }
    }

    /// The arguments of a call: `[Expr {',' Expr}]`.
    pub fn parse_param_list(&mut self) -> (r: Result<Vec<Expr>, ParseError>)
        ensures
            final(self).tokens() == old(self).tokens(),
            exprs_outcome(r, final(self).position()) == grammar::arguments(
                old(self).tokens(),
                old(self).position(),
            ),
            r is Ok ==> old(self).position() <= final(self).position(),
        decreases old(self).tokens().len() - old(self).position(), 6int,
    {
        let mut param: Vec<Expr> = Vec::new();
        match self.current() {
            Some(Token::RPAR) => {
                assert(exprs_view(param@) =~= Seq::empty());
                return Ok(param);
            },
            _ => {},
        }
        match self.parse_expr() {
            Ok(e) => {
                param.push(e);
                assert(exprs_view(param@) =~= seq![e@]);
            },
            Err(e) => {
                return Err(e);
            },
        }
        loop
            invariant
                self.tokens() == old(self).tokens(),
                advanced(self.tokens(), old(self).position(), self.position()),
                grammar::more_arguments(self.tokens(), exprs_view(param@), self.position())
                    == grammar::arguments(old(self).tokens(), old(self).position()),
            decreases self.tokens().len() - self.position(),
        {
            match self.current() {
                Some(Token::COMMA) => {},
                _ => {
                    return Ok(param);
                },
            }
            self.fix();
            let ghost before = exprs_view(param@);
            match self.parse_expr() {
                Ok(e) => {
                    param.push(e);
                    assert(exprs_view(param@) =~= before.push(e@));
                },
                Err(e) => {
                    return Err(e);
                },
            }
        }
    }

    /// The parameter names of a function definition: `[IDENT {',' IDENT}]`.
    pub fn parse_id_list(&mut self) -> (r: Result<Vec<String>, ParseError>)
        ensures
            final(self).tokens() == old(self).tokens(),
            names_outcome(r, final(self).position()) == grammar::parameters(
                old(self).tokens(),
                old(self).position(),
            ),
            r is Ok ==> old(self).position() <= final(self).position(),
    {
        let mut param: Vec<String> = Vec::new();
        match self.current() {
            Some(Token::IDENT(s)) => {
                param.push(s);
                assert(strings_view(param@) =~= seq![s@]);
                self.fix();
            },
            _ => {
                assert(strings_view(param@) =~= Seq::empty());
                return Ok(param);
            },
        }
        loop
            invariant
                self.tokens() == old(self).tokens(),
                old(self).position() <= self.position(),
                grammar::more_parameters(self.tokens(), strings_view(param@), self.position())
                    == grammar::parameters(old(self).tokens(), old(self).position()),
            decreases self.tokens().len() - self.position(),
        {
            match self.current() {
                Some(Token::COMMA) => {},
                _ => {
                    return Ok(param);
                },
            }
            self.fix();
            let ghost before = strings_view(param@);
            match self.current() {
                Some(Token::IDENT(s)) => {
                    param.push(s);
                    assert(strings_view(param@) =~= before.push(s@));
                    self.fix();
                },
                found => {
                    return Err(ParseError::ExpectedIdentifier { found, position: self.pos });
                },
            }
        }
    }

    /// `Multiplicative = Primary { ('*'|'/') Primary }`
    pub fn parse_mul(&mut self) -> (r: Result<Expr, ParseError>)
        ensures
            final(self).tokens() == old(self).tokens(),
            expr_outcome(r, final(self).position()) == grammar::multiplicative(
                old(self).tokens(),
                old(self).position(),
            ),
            r is Ok ==> advanced(old(self).tokens(), old(self).position(), final(self).position()),
        decreases old(self).tokens().len() - old(self).position(), 2int,
    {
        let mut expr = match self.parse_primary() {
            Ok(e) => e,
            Err(e) => {
                return Err(e);
            },
        };
        loop
            invariant
                self.tokens() == old(self).tokens(),
                advanced(self.tokens(), old(self).position(), self.position()),
                grammar::more_factors(self.tokens(), expr@, self.position())
                    == grammar::multiplicative(old(self).tokens(), old(self).position()),
            decreases self.tokens().len() - self.position(),
        {
            let step = match self.current() {
                Some(Token::STAR) => self.parse_star(expr),
                Some(Token::SLASH) => self.parse_slash(expr),
                _ => {
                    return Ok(expr);
                },
            };
            match step {
                Ok(e) => {
                    expr = e;
                },
                Err(e) => {
                    return Err(e);
                },
            }
        }
    }

    /// `'*' Primary`, behind the factor `lhs`.
    fn parse_star(&mut self, lhs: Expr) -> (r: Result<Expr, ParseError>)
        requires
            token_at(old(self).tokens(), old(self).position()) == Some(TokenView::STAR),
        ensures
            final(self).tokens() == old(self).tokens(),
            expr_outcome(r, final(self).position()) == binary_with(
                BinOp::Mul,
                lhs@,
                grammar::primary(old(self).tokens(), old(self).position() + 1),
            ),
            r is Ok ==> advanced(old(self).tokens(), old(self).position(), final(self).position()),
        decreases old(self).tokens().len() - old(self).position(), 0int,
    {
        self.fix();
        match self.parse_primary() {
            Ok(rhs) => Ok(Expr::Binary { op: BinOp::Mul, lhs: Box::new(lhs), rhs: Box::new(rhs) }),
            Err(e) => Err(e),
        }
    }

    /// `'/' Primary`, behind the factor `lhs`.
    fn parse_slash(&mut self, lhs: Expr) -> (r: Result<Expr, ParseError>)
        requires
            token_at(old(self).tokens(), old(self).position()) == Some(TokenView::SLASH),
        ensures
            final(self).tokens() == old(self).tokens(),
            expr_outcome(r, final(self).position()) == binary_with(
                BinOp::Div,
                lhs@,
                grammar::primary(old(self).tokens(), old(self).position() + 1),
            ),
            r is Ok ==> advanced(old(self).tokens(), old(self).position(), final(self).position()),
        decreases old(self).tokens().len() - old(self).position(), 0int,
    {
        self.fix();
        match self.parse_primary() {
            Ok(rhs) => Ok(Expr::Binary { op: BinOp::Div, lhs: Box::new(lhs), rhs: Box::new(rhs) }),
            Err(e) => Err(e),
        }
    }

    /// `Additive = Multiplicative { ('+'|'-') Multiplicative }`
    pub fn parse_add(&mut self) -> (r: Result<Expr, ParseError>)
        ensures
            final(self).tokens() == old(self).tokens(),
            expr_outcome(r, final(self).position()) == grammar::additive(
                old(self).tokens(),
                old(self).position(),
            ),
            r is Ok ==> advanced(old(self).tokens(), old(self).position(), final(self).position()),
        decreases old(self).tokens().len() - old(self).position(), 3int,
    {
        let mut expr = match self.parse_mul() {
            Ok(e) => e,
            Err(e) => {
                return Err(e);
            },
        };
        loop
            invariant
                self.tokens() == old(self).tokens(),
                advanced(self.tokens(), old(self).position(), self.position()),
                grammar::more_terms(self.tokens(), expr@, self.position()) == grammar::additive(
                    old(self).tokens(),
                    old(self).position(),
                ),
            decreases self.tokens().len() - self.position(),
        {
            let step = match self.current() {
                Some(Token::PLUS) => self.parse_plus(expr),
                Some(Token::MINUS) => self.parse_minus(expr),
                _ => {
                    return Ok(expr);
                },
            };
            match step {
                Ok(e) => {
                    expr = e;
                },
                Err(e) => {
                    return Err(e);
                },
            }
        }
    }

    /// `'+' Multiplicative`, behind the term `lhs`.
    fn parse_plus(&mut self, lhs: Expr) -> (r: Result<Expr, ParseError>)
        requires
            token_at(old(self).tokens(), old(self).position()) == Some(TokenView::PLUS),
        ensures
            final(self).tokens() == old(self).tokens(),
            expr_outcome(r, final(self).position()) == binary_with(
                BinOp::Add,
                lhs@,
                grammar::multiplicative(old(self).tokens(), old(self).position() + 1),
            ),
            r is Ok ==> advanced(old(self).tokens(), old(self).position(), final(self).position()),
        decreases old(self).tokens().len() - old(self).position(), 0int,
    {
        self.fix();
        match self.parse_mul() {
            Ok(rhs) => Ok(Expr::Binary { op: BinOp::Add, lhs: Box::new(lhs), rhs: Box::new(rhs) }),
            Err(e) => Err(e),
        }
    }

    /// `'-' Multiplicative`, behind the term `lhs`.
    fn parse_minus(&mut self, lhs: Expr) -> (r: Result<Expr, ParseError>)
        requires
            token_at(old(self).tokens(), old(self).position()) == Some(TokenView::MINUS),
        ensures
            final(self).tokens() == old(self).tokens(),
            expr_outcome(r, final(self).position()) == binary_with(
                BinOp::Sub,
                lhs@,
                grammar::multiplicative(old(self).tokens(), old(self).position() + 1),
            ),
            r is Ok ==> advanced(old(self).tokens(), old(self).position(), final(self).position()),
        decreases old(self).tokens().len() - old(self).position(), 0int,
    {
        self.fix();
        match self.parse_mul() {
            Ok(rhs) => Ok(Expr::Binary { op: BinOp::Sub, lhs: Box::new(lhs), rhs: Box::new(rhs) }),
            Err(e) => Err(e),
        }
    }

    /// `Relational = Additive [ ('<'|'>'|'=') Additive ]`
    pub fn parse_relational(&mut self) -> (r: Result<Expr, ParseError>)
        ensures
            final(self).tokens() == old(self).tokens(),
            expr_outcome(r, final(self).position()) == grammar::relational(
                old(self).tokens(),
                old(self).position(),
            ),
            r is Ok ==> advanced(old(self).tokens(), old(self).position(), final(self).position()),
        decreases old(self).tokens().len() - old(self).position(), 4int,
    {
        let expr = match self.parse_add() {
            Ok(e) => e,
            Err(e) => {
                return Err(e);
            },
        };
        match self.current() {
            Some(Token::LT) => self.lt(expr),
            Some(Token::GT) => self.gt(expr),
            Some(Token::EQ) => self.eq(expr),
            _ => Ok(expr),
        }
    }

    /// `'<' Additive`, behind the operand `lhs`.
    fn lt(&mut self, lhs: Expr) -> (r: Result<Expr, ParseError>)
        requires
            token_at(old(self).tokens(), old(self).position()) == Some(TokenView::LT),
        ensures
            final(self).tokens() == old(self).tokens(),
            expr_outcome(r, final(self).position()) == comparison_with(
                ComparisonOp::Lt,
                lhs@,
                grammar::additive(old(self).tokens(), old(self).position() + 1),
            ),
            r is Ok ==> advanced(old(self).tokens(), old(self).position(), final(self).position()),
        decreases old(self).tokens().len() - old(self).position(), 0int,
    {
        self.fix();
        match self.parse_add() {
            Ok(rhs) => Ok(
                Expr::Comparison { op: ComparisonOp::Lt, lhs: Box::new(lhs), rhs: Box::new(rhs) },
            ),
            Err(e) => Err(e),
        }
    }

    /// `'>' Additive`, behind the operand `lhs`.
    fn gt(&mut self, lhs: Expr) -> (r: Result<Expr, ParseError>)
        requires
            token_at(old(self).tokens(), old(self).position()) == Some(TokenView::GT),
        ensures
            final(self).tokens() == old(self).tokens(),
            expr_outcome(r, final(self).position()) == comparison_with(
                ComparisonOp::Gt,
                lhs@,
                grammar::additive(old(self).tokens(), old(self).position() + 1),
            ),
            r is Ok ==> advanced(old(self).tokens(), old(self).position(), final(self).position()),
        decreases old(self).tokens().len() - old(self).position(), 0int,
    {
        self.fix();
        match self.parse_add() {
            Ok(rhs) => Ok(
                Expr::Comparison { op: ComparisonOp::Gt, lhs: Box::new(lhs), rhs: Box::new(rhs) },
            ),
            Err(e) => Err(e),
        }
    }

    /// `'=' Additive`, behind the operand `lhs`.
    fn eq(&mut self, lhs: Expr) -> (r: Result<Expr, ParseError>)
        requires
            token_at(old(self).tokens(), old(self).position()) == Some(TokenView::EQ),
        ensures
            final(self).tokens() == old(self).tokens(),
            expr_outcome(r, final(self).position()) == comparison_with(
                ComparisonOp::Eq,
                lhs@,
                grammar::additive(old(self).tokens(), old(self).position() + 1),
            ),
            r is Ok ==> advanced(old(self).tokens(), old(self).position(), final(self).position()),
        decreases old(self).tokens().len() - old(self).position(), 0int,
    {
        self.fix();
        match self.parse_add() {
            Ok(rhs) => Ok(
                Expr::Comparison { op: ComparisonOp::Eq, lhs: Box::new(lhs), rhs: Box::new(rhs) },
            ),
            Err(e) => Err(e),
        }
    }

    /// `Expr = Relational`
    pub fn parse_expr(&mut self) -> (r: Result<Expr, ParseError>)
        ensures
            final(self).tokens() == old(self).tokens(),
            expr_outcome(r, final(self).position()) == grammar::expr(
                old(self).tokens(),
                old(self).position(),
            ),
            r is Ok ==> advanced(old(self).tokens(), old(self).position(), final(self).position()),
        decreases old(self).tokens().len() - old(self).position(), 5int,
    {
        self.parse_relational()
    }
}

impl Parser {
    /// `Statement = (IfStmt | AssignStmt | ReturnStmt | FnDefStmt | CallStmt | ε)
    ///            [ ';' Statement ]`
    pub fn parse_state(&mut self) -> (r: Result<Statement, ParseError>)
        ensures
            final(self).tokens() == old(self).tokens(),
            statement_outcome(r, final(self).position()) == grammar::statement(
                old(self).tokens(),
                old(self).position(),
            ),
            r is Ok ==> old(self).position() <= final(self).position(),
        decreases old(self).tokens().len() - old(self).position(), 8int,
    {
        let first = match self.parse_simple() {
            Ok(st) => st,
            Err(e) => {
                return Err(e);
            },
        };
        match self.current() {
            Some(Token::SEMICOLON) => self.parse_compound(first),
            _ => Ok(first),
        }
    }

    /// One statement without what follows a semicolon.
    fn parse_simple(&mut self) -> (r: Result<Statement, ParseError>)
        ensures
            final(self).tokens() == old(self).tokens(),
            statement_outcome(r, final(self).position()) == grammar::simple_statement(
                old(self).tokens(),
                old(self).position(),
            ),
            r is Ok ==> old(self).position() <= final(self).position(),
        decreases old(self).tokens().len() - old(self).position(), 7int,
    {
        match self.current() {
            Some(Token::IF) => self.parse_if(),
            Some(Token::RETURN) => self.parse_return(),
            Some(Token::FN) => self.parse_functiondefine(),
            Some(Token::IDENT(s)) => self.parse_ident(s),
            _ => Ok(Statement::Null),
        }
    }

    /// `'{' Statement '}'`
    fn parse_block(&mut self) -> (r: Result<Statement, ParseError>)
        ensures
            final(self).tokens() == old(self).tokens(),
            statement_outcome(r, final(self).position()) == grammar::block(
                old(self).tokens(),
                old(self).position(),
            ),
            r is Ok ==> old(self).position() <= final(self).position(),
        decreases old(self).tokens().len() - old(self).position(), 0int,
    {
        match self.confirm(Token::LBRACE) {
            Ok(()) => {},
            Err(e) => {
                return Err(e);
            },
        }
        let st = match self.parse_state() {
            Ok(st) => st,
            Err(e) => {
                return Err(e);
            },
        };
        match self.confirm(Token::RBRACE) {
            Ok(()) => Ok(st),
            Err(e) => Err(e),
        }
    }

    /// `IfStmt = 'if' Expr '{' Statement '}' 'else' '{' Statement '}'`
    fn parse_if(&mut self) -> (r: Result<Statement, ParseError>)
        requires
            token_at(old(self).tokens(), old(self).position()) == Some(TokenView::IF),
        ensures
            final(self).tokens() == old(self).tokens(),
            statement_outcome(r, final(self).position()) == grammar::if_statement(
                old(self).tokens(),
                old(self).position(),
            ),
            r is Ok ==> old(self).position() <= final(self).position(),
        decreases old(self).tokens().len() - old(self).position(), 6int,
    {
        self.fix();
        let condition = match self.parse_expr() {
            Ok(e) => e,
            Err(e) => {
                return Err(e);
            },
        };
        let then = match self.parse_block() {
            Ok(st) => st,
            Err(e) => {
                return Err(e);
            },
        };
        match self.confirm(Token::ELSE) {
            Ok(()) => {},
            Err(e) => {
                return Err(e);
            },
        }
        let els = match self.parse_block() {
            Ok(st) => st,
            Err(e) => {
                return Err(e);
            },
        };
        Ok(
            Statement::If {
                condition: Box::new(condition),
                then: Box::new(then),
                els: Box::new(els),
            },
        )
    }

    /// `ReturnStmt = 'return' Expr`
    fn parse_return(&mut self) -> (r: Result<Statement, ParseError>)
        requires
            token_at(old(self).tokens(), old(self).position()) == Some(TokenView::RETURN),
        ensures
            final(self).tokens() == old(self).tokens(),
            statement_outcome(r, final(self).position()) == grammar::return_statement(
                old(self).tokens(),
                old(self).position(),
            ),
            r is Ok ==> old(self).position() <= final(self).position(),
    {
        self.fix();
        match self.parse_expr() {
            Ok(e) => Ok(Statement::Return { expr: Box::new(e) }),
            Err(e) => Err(e),
        }
    }

    /// `FnDefStmt = 'fn' IDENT '(' [IDENT {',' IDENT}] ')' '{' Statement '}'`
    fn parse_functiondefine(&mut self) -> (r: Result<Statement, ParseError>)
        requires
            token_at(old(self).tokens(), old(self).position()) == Some(TokenView::FN),
        ensures
            final(self).tokens() == old(self).tokens(),
            statement_outcome(r, final(self).position()) == grammar::function_definition(
                old(self).tokens(),
                old(self).position(),
            ),
            r is Ok ==> old(self).position() <= final(self).position(),
        decreases old(self).tokens().len() - old(self).position(), 6int,
    {
        self.fix();
        let id = match self.current() {
            Some(Token::IDENT(s)) => s,
            found => {
                return Err(ParseError::ExpectedIdentifier { found, position: self.pos });
            },
        };
        self.fix();
        match self.confirm(Token::LPAR) {
            Ok(()) => {},
            Err(e) => {
                return Err(e);
            },
        }
        let arg = match self.parse_id_list() {
            Ok(list) => list,
            Err(e) => {
                return Err(e);
            },
        };
        match self.confirm(Token::RPAR) {
            Ok(()) => {},
            Err(e) => {
                return Err(e);
            },
        }
        match self.parse_block() {
            Ok(body) => Ok(Statement::FunctionDefine { id, arg, st: Box::new(body) }),
            Err(e) => Err(e),
        }
    }

    /// A statement that starts with the identifier `id`: an assignment before
    /// `=`, a call before `(`, else the empty statement, with the identifier
    /// left unread.
    fn parse_ident(&mut self, id: String) -> (r: Result<Statement, ParseError>)
        requires
            token_at(old(self).tokens(), old(self).position()) == Some(TokenView::IDENT(id@)),
        ensures
            final(self).tokens() == old(self).tokens(),
            statement_outcome(r, final(self).position()) == grammar::identifier_statement(
                old(self).tokens(),
                id@,
                old(self).position(),
            ),
            r is Ok ==> old(self).position() <= final(self).position(),
    {
        match self.next() {
            Some(Token::EQ) => {
                self.fix();
                self.fix();
                match self.parse_expr() {
                    Ok(e) => Ok(Statement::Assign { id, e: Box::new(e) }),
                    Err(e) => Err(e),
                }
            },
            Some(Token::LPAR) => match self.parse_expr() {
                Ok(e) => Ok(Statement::FunctionCall { expr: e }),
                Err(e) => Err(e),
            },
            _ => Ok(Statement::Null),
        }
    }

    /// `';' Statement`, behind the statement `st`.
    fn parse_compound(&mut self, st: Statement) -> (r: Result<Statement, ParseError>)
        requires
            token_at(old(self).tokens(), old(self).position()) == Some(TokenView::SEMICOLON),
        ensures
            final(self).tokens() == old(self).tokens(),
            match grammar::statement(old(self).tokens(), old(self).position() + 1) {
                Ok((rest, after)) => r matches Ok(whole) && whole@
                    == (StatementView::CompoundStatement {
                    st1: Box::new(st@),
                    st2: Box::new(rest),
                }) && final(self).position() == after,
                Err(e) => r matches Err(err) && err@ == e,
            },
            r is Ok ==> old(self).position() <= final(self).position(),
        decreases old(self).tokens().len() - old(self).position(), 0int,
    {
        self.fix();
        match self.parse_state() {
            Ok(rest) => Ok(
                Statement::CompoundStatement { st1: Box::new(st), st2: Box::new(rest) },
            ),
            Err(e) => Err(e),
        }
    }
}

/// The model of the outcome of parsing a program.
pub open spec fn syntax_outcome(r: Result<Syntax, ParseError>) -> Result<
    StatementView,
    ParseErrorView,
> {
    match r {
        Ok(syntax) => Ok(syntax@->Statement_0),
        Err(e) => Err(e@),
    }
}

/// Parses the program that `toks` holds: the statement at their start. Tokens
/// behind that statement are not read.
pub fn parser(toks: Vec<Token>) -> (r: Result<Syntax, ParseError>)
    ensures
        syntax_outcome(r) == grammar::program(tokens_view(toks@)),
{
    let mut parser = Parser::new(toks);
    match parser.parse_state() {
        Ok(st) => Ok(Syntax::Statement(st)),
        Err(e) => Err(e),
    }
}

} // verus!
