use vstd::prelude::*;
use crate::table::Table;
use crate::value::Value;

verus! {

/// The variable environment: each variable's name bound to its value.
pub type Env = Table<Value>;

/// The function table: each function's name bound to its declaration.
pub type FunctionTable = Table<Declaration>;

/// A lexical unit of the language.
#[derive(Debug, PartialEq)]
pub enum Token {
    PLUS,
    MINUS,
    STAR,
    SLASH,
    LPAR,
    RPAR,
    LBRACE,
    RBRACE,
    EQ,
    GT,
    LT,
    NUMBER(i32),
    IF,
    ELSE,
    IDENT(String),
    STR(String),
    SEMICOLON,
    COMMA,
    FN,
    RETURN,
}

/// The mathematical model of a [`Token`]: text payloads are character sequences.
pub enum TokenView {
    PLUS,
    MINUS,
    STAR,
    SLASH,
    LPAR,
    RPAR,
    LBRACE,
    RBRACE,
    EQ,
    GT,
    LT,
    NUMBER(i32),
    IF,
    ELSE,
    IDENT(Seq<char>),
    STR(Seq<char>),
    SEMICOLON,
    COMMA,
    FN,
    RETURN,
}

impl View for Token {
    type V = TokenView;

    open spec fn view(&self) -> TokenView {
        match self {
            Token::PLUS => TokenView::PLUS,
            Token::MINUS => TokenView::MINUS,
            Token::STAR => TokenView::STAR,
            Token::SLASH => TokenView::SLASH,
            Token::LPAR => TokenView::LPAR,
            Token::RPAR => TokenView::RPAR,
            Token::LBRACE => TokenView::LBRACE,
            Token::RBRACE => TokenView::RBRACE,
            Token::EQ => TokenView::EQ,
            Token::GT => TokenView::GT,
            Token::LT => TokenView::LT,
            Token::NUMBER(n) => TokenView::NUMBER(*n),
            Token::IF => TokenView::IF,
            Token::ELSE => TokenView::ELSE,
            Token::IDENT(s) => TokenView::IDENT(s@),
            Token::STR(s) => TokenView::STR(s@),
            Token::SEMICOLON => TokenView::SEMICOLON,
            Token::COMMA => TokenView::COMMA,
            Token::FN => TokenView::FN,
            Token::RETURN => TokenView::RETURN,
        }
    }
}

impl Token {
    /// Whether two tokens are the same: of one kind, with the same number or text.
    pub fn same(&self, other: &Token) -> (b: bool)
        ensures
            b == (self@ == other@),
    {
        match (self, other) {
            (Token::PLUS, Token::PLUS) => true,
            (Token::MINUS, Token::MINUS) => true,
            (Token::STAR, Token::STAR) => true,
            (Token::SLASH, Token::SLASH) => true,
            (Token::LPAR, Token::LPAR) => true,
            (Token::RPAR, Token::RPAR) => true,
            (Token::LBRACE, Token::LBRACE) => true,
            (Token::RBRACE, Token::RBRACE) => true,
            (Token::EQ, Token::EQ) => true,
            (Token::GT, Token::GT) => true,
            (Token::LT, Token::LT) => true,
            (Token::NUMBER(a), Token::NUMBER(b)) => *a == *b,
            (Token::IF, Token::IF) => true,
            (Token::ELSE, Token::ELSE) => true,
            (Token::IDENT(a), Token::IDENT(b)) => *a == *b,
            (Token::STR(a), Token::STR(b)) => *a == *b,
            (Token::SEMICOLON, Token::SEMICOLON) => true,
            (Token::COMMA, Token::COMMA) => true,
            (Token::FN, Token::FN) => true,
            (Token::RETURN, Token::RETURN) => true,
            _ => false,
        }
    }
}

impl Clone for Token {
    fn clone(&self) -> (r: Self)
        ensures
            r@ == self@,
    {
        match self {
            Token::PLUS => Token::PLUS,
            Token::MINUS => Token::MINUS,
            Token::STAR => Token::STAR,
            Token::SLASH => Token::SLASH,
            Token::LPAR => Token::LPAR,
            Token::RPAR => Token::RPAR,
            Token::LBRACE => Token::LBRACE,
            Token::RBRACE => Token::RBRACE,
            Token::EQ => Token::EQ,
            Token::GT => Token::GT,
            Token::LT => Token::LT,
            Token::NUMBER(n) => Token::NUMBER(*n),
            Token::IF => Token::IF,
            Token::ELSE => Token::ELSE,
            Token::IDENT(s) => Token::IDENT(s.clone()),
            Token::STR(s) => Token::STR(s.clone()),
            Token::SEMICOLON => Token::SEMICOLON,
            Token::COMMA => Token::COMMA,
            Token::FN => Token::FN,
            Token::RETURN => Token::RETURN,
        }
    }
}

/// The models of a sequence of tokens, in order.
pub open spec fn tokens_view(tokens: Seq<Token>) -> Seq<TokenView> {
    Seq::new(tokens.len(), |i: int| tokens[i]@)
}

/// An arithmetic operator.
#[derive(Debug, PartialEq, Eq, Clone, Copy)]
pub enum BinOp {
    Add,
    Sub,
    Mul,
    Div,
}

/// A comparison operator.
#[derive(Debug, PartialEq, Eq, Clone, Copy)]
pub enum ComparisonOp {
    Lt,
    Gt,
    Eq,
}

/// An expression of the syntax tree.
#[derive(Debug, PartialEq)]
#[allow(inconsistent_fields)]
pub enum Expr {
    Binary { op: BinOp, lhs: Box<Expr>, rhs: Box<Expr> },
    Comparison { op: ComparisonOp, lhs: Box<Expr>, rhs: Box<Expr> },
    Number(i32),
    Var(String),
    Str(String),
    FunctionCall { id: String, args: Vec<Expr> },
}

/// The mathematical model of an [`Expr`].
#[allow(inconsistent_fields)]
pub enum ExprView {
    Binary { op: BinOp, lhs: Box<ExprView>, rhs: Box<ExprView> },
    Comparison { op: ComparisonOp, lhs: Box<ExprView>, rhs: Box<ExprView> },
    Number(i32),
    Var(Seq<char>),
    Str(Seq<char>),
    FunctionCall { id: Seq<char>, args: Seq<ExprView> },
}

/// The model of an expression, by recursion on its structure.
pub open spec fn expr_view(e: Expr) -> ExprView
    decreases e,
{
    match e {
        Expr::Binary { op, lhs, rhs } => ExprView::Binary {
            op,
            lhs: Box::new(expr_view(*lhs)),
            rhs: Box::new(expr_view(*rhs)),
        },
        Expr::Comparison { op, lhs, rhs } => ExprView::Comparison {
            op,
            lhs: Box::new(expr_view(*lhs)),
            rhs: Box::new(expr_view(*rhs)),
        },
        Expr::Number(n) => ExprView::Number(n),
        Expr::Var(s) => ExprView::Var(s@),
        Expr::Str(s) => ExprView::Str(s@),
        Expr::FunctionCall { id, args } => ExprView::FunctionCall {
            id: id@,
            args: Seq::new(
                args@.len(),
                |i: int|
                    if 0 <= i < args@.len() {
                        expr_view(args@[i])
                    } else {
                        ExprView::Number(0)
                    },
            ),
        },
    }
}

impl View for Expr {
    type V = ExprView;

    open spec fn view(&self) -> ExprView {
        expr_view(*self)
    }
}

impl Clone for Expr {
    fn clone(&self) -> (r: Self)
        ensures
            r@ == self@,
        decreases self,
    {
        match self {
            Expr::Binary { op, lhs, rhs } => Expr::Binary {
                op: *op,
                lhs: Box::new((**lhs).clone()),
                rhs: Box::new((**rhs).clone()),
            },
            Expr::Comparison { op, lhs, rhs } => Expr::Comparison {
                op: *op,
                lhs: Box::new((**lhs).clone()),
                rhs: Box::new((**rhs).clone()),
            },
            Expr::Number(n) => Expr::Number(*n),
            Expr::Var(s) => Expr::Var(s.clone()),
            Expr::Str(s) => Expr::Str(s.clone()),
            Expr::FunctionCall { id, args } => {
                let mut copies: Vec<Expr> = Vec::new();
                let mut i: usize = 0;
                while i < args.len()
                    invariant
                        i <= args.len(),
                        copies.len() == i,
                        *self matches Expr::FunctionCall { args: a, .. } && a == args,
                        forall|j: int| 0 <= j < i ==> copies[j]@ == args[j]@,
                    decreases args.len() - i,
                {
                    copies.push(args[i].clone());
                    i += 1;
                }
                assert(exprs_view(copies@) =~= exprs_view(args@));
                assert(self@->FunctionCall_args =~= exprs_view(args@));
                let r = Expr::FunctionCall { id: id.clone(), args: copies };
                assert(r@->FunctionCall_args =~= exprs_view(copies@));
                r
            },
        }
    }
}

/// The models of a sequence of expressions, in order.
pub open spec fn exprs_view(exprs: Seq<Expr>) -> Seq<ExprView> {
    Seq::new(exprs.len(), |i: int| exprs[i]@)
}

/// The models of a sequence of strings, in order.
pub open spec fn strings_view(strings: Seq<String>) -> Seq<Seq<char>> {
    Seq::new(strings.len(), |i: int| strings[i]@)
}

/// A statement of the syntax tree.
#[derive(Debug, PartialEq)]
#[allow(inconsistent_fields)]
pub enum Statement {
    CompoundStatement { st1: Box<Statement>, st2: Box<Statement> },
    Assign { id: String, e: Box<Expr> },
    If { condition: Box<Expr>, then: Box<Statement>, els: Box<Statement> },
    Return { expr: Box<Expr> },
    FunctionDefine { id: String, arg: Vec<String>, st: Box<Statement> },
    FunctionCall { expr: Expr },
    Null,
}

/// The mathematical model of a [`Statement`].
#[allow(inconsistent_fields)]
pub enum StatementView {
    CompoundStatement { st1: Box<StatementView>, st2: Box<StatementView> },
    Assign { id: Seq<char>, e: ExprView },
    If { condition: ExprView, then: Box<StatementView>, els: Box<StatementView> },
    Return { expr: ExprView },
    FunctionDefine { id: Seq<char>, arg: Seq<Seq<char>>, st: Box<StatementView> },
    FunctionCall { expr: ExprView },
    Null,
}

/// The model of a statement, by recursion on its structure.
pub open spec fn statement_view(st: Statement) -> StatementView
    decreases st,
{
    match st {
        Statement::CompoundStatement { st1, st2 } => StatementView::CompoundStatement {
            st1: Box::new(statement_view(*st1)),
            st2: Box::new(statement_view(*st2)),
        },
        Statement::Assign { id, e } => StatementView::Assign { id: id@, e: e@ },
        Statement::If { condition, then, els } => StatementView::If {
            condition: condition@,
            then: Box::new(statement_view(*then)),
            els: Box::new(statement_view(*els)),
        },
        Statement::Return { expr } => StatementView::Return { expr: expr@ },
        Statement::FunctionDefine { id, arg, st } => StatementView::FunctionDefine {
            id: id@,
            arg: strings_view(arg@),
            st: Box::new(statement_view(*st)),
        },
        Statement::FunctionCall { expr } => StatementView::FunctionCall { expr: expr@ },
        Statement::Null => StatementView::Null,
    }
}

impl View for Statement {
    type V = StatementView;

    open spec fn view(&self) -> StatementView {
        statement_view(*self)
    }
}

/// Copies a list of names.
pub fn clone_names(names: &Vec<String>) -> (r: Vec<String>)
    ensures
        strings_view(r@) == strings_view(names@),
{
    let mut copies: Vec<String> = Vec::new();
    let mut i: usize = 0;
    while i < names.len()
        invariant
            i <= names.len(),
            copies.len() == i,
            forall|j: int| 0 <= j < i ==> copies[j]@ == names[j]@,
        decreases names.len() - i,
    {
        copies.push(names[i].clone());
        i += 1;
    }
    assert(strings_view(copies@) =~= strings_view(names@));
    copies
}

impl Clone for Statement {
    fn clone(&self) -> (r: Self)
        ensures
            r@ == self@,
        decreases self,
    {
        match self {
            Statement::CompoundStatement { st1, st2 } => Statement::CompoundStatement {
                st1: Box::new((**st1).clone()),
                st2: Box::new((**st2).clone()),
            },
            Statement::Assign { id, e } => Statement::Assign {
                id: id.clone(),
                e: Box::new((**e).clone()),
            },
            Statement::If { condition, then, els } => Statement::If {
                condition: Box::new((**condition).clone()),
                then: Box::new((**then).clone()),
                els: Box::new((**els).clone()),
            },
            Statement::Return { expr } => Statement::Return { expr: Box::new((**expr).clone()) },
            Statement::FunctionDefine { id, arg, st } => Statement::FunctionDefine {
                id: id.clone(),
                arg: clone_names(arg),
                st: Box::new((**st).clone()),
            },
            Statement::FunctionCall { expr } => Statement::FunctionCall { expr: expr.clone() },
            Statement::Null => Statement::Null,
        }
    }
}

/// A function that the host provides.
#[derive(Debug, PartialEq, Eq, Clone, Copy, Structural)]
pub enum Native {
    /// Writes a line: its first argument is a text in which each `{}`, from the
    /// left, gives way to the next argument.
    Print,
}

/// What a function name stands for.
#[derive(Debug, PartialEq)]
pub enum Declaration {
    /// A function of the program: its parameter names and its body.
    Function { arg: Vec<String>, st: Box<Statement> },
    /// A function of the host, under the name it was registered with.
    BuiltinFunction { id: String, native: Native },
}

/// The mathematical model of a [`Declaration`].
pub enum DeclarationView {
    Function { arg: Seq<Seq<char>>, st: StatementView },
    BuiltinFunction { id: Seq<char>, native: Native },
}

impl View for Declaration {
    type V = DeclarationView;

    open spec fn view(&self) -> DeclarationView {
        match self {
            Declaration::Function { arg, st } => DeclarationView::Function {
                arg: strings_view(arg@),
                st: st@,
            },
            Declaration::BuiltinFunction { id, native } => DeclarationView::BuiltinFunction {
                id: id@,
                native: *native,
            },
        }
    }
}

impl Clone for Declaration {
    fn clone(&self) -> (r: Self)
        ensures
            r@ == self@,
    {
        match self {
            Declaration::Function { arg, st } => Declaration::Function {
                arg: clone_names(arg),
                st: Box::new((**st).clone()),
            },
            Declaration::BuiltinFunction { id, native } => Declaration::BuiltinFunction {
                id: id.clone(),
                native: *native,
            },
        }
    }
}

/// The root of a parsed program.
#[derive(Debug, PartialEq)]
pub enum Syntax {
    Statement(Statement),
}

/// The mathematical model of a [`Syntax`].
pub enum SyntaxView {
    Statement(StatementView),
}

impl View for Syntax {
    type V = SyntaxView;

    open spec fn view(&self) -> SyntaxView {
        match self {
            Syntax::Statement(st) => SyntaxView::Statement(st@),
        }
    }
}

impl Clone for Syntax {
    fn clone(&self) -> (r: Self)
        ensures
            r@ == self@,
    {
        match self {
            Syntax::Statement(st) => Syntax::Statement(st.clone()),
        }
    }
}

} // verus!
