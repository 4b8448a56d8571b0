use vstd::prelude::*;

verus! {

/// A declared type annotation.
#[derive(Debug, PartialEq)]
pub enum Type {
    String,
    Number,
    Boolean,
    Array(Box<Type>),
}

/// A statement of the source language; blocks own their statements.
#[derive(Debug, PartialEq)]
pub enum Statement {
    ConsoleLog(Vec<Expression>),
    VariableDeclaration { name: String, type_annotation: Type, value: Option<Expression> },
    IfStatement {
        condition: Expression,
        then_branch: Vec<Statement>,
        else_branch: Option<Vec<Statement>>,
    },
    WhileStatement { condition: Expression, body: Vec<Statement> },
    Assignment { name: String, value: Expression },
}

/// An expression of the source language.
#[derive(Debug, PartialEq)]
pub enum Expression {
    StringLiteral(String),
    NumberLiteral(i32),
    Identifier(String),
    BinaryOp { left: Box<Expression>, op: BinaryOperator, right: Box<Expression> },
    Assignment { name: String, value: Box<Expression> },
    ArrayLiteral(Vec<Expression>),
}

/// The binary operators; all of them bind equally and fold left to right.
#[derive(Debug, Clone, Copy, PartialEq, Eq)]
pub enum BinaryOperator {
    Add,
    Subtract,
    Multiply,
    Divide,
    LessThan,
    GreaterThan,
}

/// An expression as a mathematical tree: text as character sequences,
/// lists as sequences.
pub enum ExprView {
    Str(Seq<char>),
    Num(i32),
    Ident(Seq<char>),
    Binary(Box<ExprView>, BinaryOperator, Box<ExprView>),
    Assign(Seq<char>, Box<ExprView>),
    Array(Seq<ExprView>),
}

/// A statement as a mathematical tree.
pub enum StmtView {
    Log(Seq<ExprView>),
    Decl(Seq<char>, Type, Option<ExprView>),
    If(ExprView, Seq<StmtView>, Option<Seq<StmtView>>),
    While(ExprView, Seq<StmtView>),
    Assign(Seq<char>, ExprView),
}

/// The tree that an expression stands for.
pub open spec fn expr_view(e: Expression) -> ExprView
    decreases e,
{
    match e {
        Expression::StringLiteral(s) => ExprView::Str(s@),
        Expression::NumberLiteral(n) => ExprView::Num(n),
        Expression::Identifier(x) => ExprView::Ident(x@),
        Expression::BinaryOp { left, op, right } => ExprView::Binary(
            Box::new(expr_view(*left)),
            op,
            Box::new(expr_view(*right)),
        ),
        Expression::Assignment { name, value } => ExprView::Assign(name@, Box::new(expr_view(*value))),
        Expression::ArrayLiteral(elems) => ExprView::Array(exprs_view(elems@)),
    }
}

/// The trees of a list of expressions, in order.
pub open spec fn exprs_view(es: Seq<Expression>) -> Seq<ExprView>
    decreases es,
{
    if es.len() == 0 {
        Seq::empty()
    } else {
        exprs_view(es.drop_last()).push(expr_view(es.last()))
    }
}

/// The tree that a statement stands for.
pub open spec fn stmt_view(s: Statement) -> StmtView
    decreases s,
{
    match s {
        Statement::ConsoleLog(args) => StmtView::Log(exprs_view(args@)),
        Statement::VariableDeclaration { name, type_annotation, value } => StmtView::Decl(
            name@,
            type_annotation,
            match value {
                Some(e) => Some(expr_view(e)),
                None => None,
            },
        ),
        Statement::IfStatement { condition, then_branch, else_branch } => StmtView::If(
            expr_view(condition),
            stmts_view(then_branch@),
            match else_branch {
                Some(b) => Some(stmts_view(b@)),
                None => None,
            },
        ),
        Statement::WhileStatement { condition, body } => StmtView::While(
            expr_view(condition),
            stmts_view(body@),
        ),
        Statement::Assignment { name, value } => StmtView::Assign(name@, expr_view(value)),
    }
}

/// The trees of a list of statements, in order.
pub open spec fn stmts_view(ss: Seq<Statement>) -> Seq<StmtView>
    decreases ss,
{
    if ss.len() == 0 {
        Seq::empty()
    } else {
        stmts_view(ss.drop_last()).push(stmt_view(ss.last()))
    }
}

} // verus!
