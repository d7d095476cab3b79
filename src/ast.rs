use vstd::prelude::*;
use crate::token::{Token, TokenView};

verus! {

/// A literal as written in the source. A number keeps the text it was written
/// with; turning it into a 64-bit float is left to the caller of the
/// interpreter.
#[derive(Debug, Clone)]
pub enum Literal {
    Nil,
    Bool(bool),
    Number(String),
    String(String),
}

pub enum LiteralView {
    Nil,
    Bool(bool),
    Number(Seq<char>),
    String(Seq<char>),
}

impl View for Literal {
    type V = LiteralView;

    open spec fn view(&self) -> LiteralView {
        match self {
            Literal::Nil => LiteralView::Nil,
            Literal::Bool(b) => LiteralView::Bool(*b),
            Literal::Number(t) => LiteralView::Number(t@),
            Literal::String(t) => LiteralView::String(t@),
        }
    }
}

/// `left op right`.
#[derive(Debug)]
pub struct Binary {
    pub left: Box<Expr>,
    pub op: Token,
    pub right: Box<Expr>,
}

/// A parenthesised expression.
#[derive(Debug)]
pub struct Grouping {
    pub expr: Box<Expr>,
}

/// `op right`.
#[derive(Debug)]
pub struct Unary {
    pub op: Token,
    pub right: Box<Expr>,
}

/// An expression: a tree in which each node owns its children.
#[derive(Debug)]
pub enum Expr {
    Binary(Binary),
    Grouping(Grouping),
    Literal(Literal),
    Unary(Unary),
}

/// The mathematical model of an expression.
pub enum ExprView {
    Binary(Box<ExprView>, TokenView, Box<ExprView>),
    Grouping(Box<ExprView>),
    Literal(LiteralView),
    Unary(TokenView, Box<ExprView>),
}

pub open spec fn expr_view(e: &Expr) -> ExprView
    decreases e,
{
    match e {
        Expr::Binary(b) => ExprView::Binary(
            Box::new(expr_view(&*b.left)),
            b.op@,
            Box::new(expr_view(&*b.right)),
        ),
        Expr::Grouping(g) => ExprView::Grouping(Box::new(expr_view(&*g.expr))),
        Expr::Literal(l) => ExprView::Literal(l@),
        Expr::Unary(u) => ExprView::Unary(u.op@, Box::new(expr_view(&*u.right))),
    }
}

impl View for Expr {
    type V = ExprView;

    open spec fn view(&self) -> ExprView {
        expr_view(self)
    }
}

impl Binary {
    pub fn new(left: Box<Expr>, op: Token, right: Box<Expr>) -> (r: Self)
        ensures
            r.left == left,
            r.op == op,
            r.right == right,
    {
        Binary { left, op, right }
    }
}

impl Grouping {
    pub fn new(expr: Box<Expr>) -> (r: Self)
        ensures
            r.expr == expr,
    {
        Grouping { expr }
    }
}

impl Unary {
    pub fn new(op: Token, right: Box<Expr>) -> (r: Self)
        ensures
            r.op == op,
            r.right == right,
    {
        Unary { op, right }
    }
}

/// `expr;`
#[derive(Debug)]
pub struct Expression {
    pub expr: Expr,
}

/// `print expr;`
#[derive(Debug)]
pub struct Print {
    pub expr: Expr,
}

impl Expression {
    pub fn new(expr: Expr) -> (r: Self)
        ensures
            r.expr == expr,
    {
        Expression { expr }
    }
}

impl Print {
    pub fn new(expr: Expr) -> (r: Self)
        ensures
            r.expr == expr,
    {
        Print { expr }
    }
}

/// A statement; a program is a sequence of them, run in order.
#[derive(Debug)]
pub enum Statement {
    Expression(Expression),
    Print(Print),
}

pub enum StatementView {
    Expression(ExprView),
    Print(ExprView),
}

impl View for Statement {
    type V = StatementView;

    open spec fn view(&self) -> StatementView {
        match self {
            Statement::Expression(s) => StatementView::Expression(s.expr@),
            Statement::Print(s) => StatementView::Print(s.expr@),
        }
    }
}

pub open spec fn statements_view(s: Seq<Statement>) -> Seq<StatementView> {
    s.map_values(|st: Statement| st@)
}

} // verus!
