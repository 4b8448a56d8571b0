use vstd::prelude::*;
use crate::ast::{BinaryOperator, ExprView, Expression, StmtView, Statement, Type};
use crate::generator::{block_text, expr_text, literal_body, op_text, stmt_text, type_text};
use crate::grammar::{
    args_at, assignment_at, base_type, binary_at, declaration_at, expression_at, fold_at,
    log_at, op_at, primary_at, program_at, statement_at, type_at,
};
use crate::generator::is_interpolation;
use crate::token::Token;

verus! {

/// Operators bind equally and fold strictly left to right: `a o1 b o2 c`
/// reads as `(a o1 b) o2 c`, whatever the operators are.
pub proof fn lemma_left_to_right(
    t: Seq<Token>,
    a: i32,
    b: i32,
    c: i32,
    o1: BinaryOperator,
    o2: BinaryOperator,
)
    requires
        t.len() == 5,
        t[0] == Token::Number(a),
        t[2] == Token::Number(b),
        t[4] == Token::Number(c),
        op_at(t, 1) == Some(o1),
        op_at(t, 3) == Some(o2),
    ensures
        expression_at(t, 0) == (Some(ExprView::Binary(
            Box::new(ExprView::Binary(Box::new(ExprView::Num(a)), o1, Box::new(ExprView::Num(b)))),
            o2,
            Box::new(ExprView::Num(c)),
        )), 5nat),
{
    let ab = ExprView::Binary(Box::new(ExprView::Num(a)), o1, Box::new(ExprView::Num(b)));
    let abc = ExprView::Binary(Box::new(ab), o2, Box::new(ExprView::Num(c)));
    assert(primary_at(t, 0) == (Some(ExprView::Num(a)), 1nat));
    assert(primary_at(t, 2) == (Some(ExprView::Num(b)), 3nat));
    assert(primary_at(t, 4) == (Some(ExprView::Num(c)), 5nat));
    assert(fold_at(t, 5, abc) == (Some(abc), 5nat));
    assert(fold_at(t, 3, ab) == fold_at(t, 5, abc));
    assert(fold_at(t, 1, ExprView::Num(a)) == fold_at(t, 3, ab));
    assert(binary_at(t, 0) == (Some(abc), 5nat));
}

/// A block of one statement translates to that statement's text.
pub proof fn lemma_single_block(x: Statement)
    ensures
        block_text(seq![x]) == stmt_text(x),
{
    assert(seq![x].drop_last() =~= Seq::<Statement>::empty());
    assert(block_text(Seq::<Statement>::empty()) + stmt_text(x) =~= stmt_text(x));
}

/// A loop holding a conditional that holds a log call translates to the
/// same nesting: the loop's braces enclose the conditional's, which
/// enclose the call, and each condition is the translated condition exactly.
pub proof fn lemma_nested_translation(
    w: Statement,
    inner: Statement,
    log: Statement,
    c1: Expression,
    c2: Expression,
)
    requires
        w matches Statement::WhileStatement { condition, body } && condition == c1 && body@ == seq![inner],
        inner matches Statement::IfStatement { condition, then_branch, else_branch }
            && condition == c2 && then_branch@ == seq![log] && else_branch is None,
        log is ConsoleLog,
    ensures
        stmt_text(w) == "    while "@ + expr_text(c1) + " {\n"@
            + ("    if "@ + expr_text(c2) + " {\n"@
                + stmt_text(log)
            + "    }"@ + "\n"@)
            + "    }\n"@,
{
    lemma_single_block(inner);
    lemma_single_block(log);
    assert(stmt_text(inner) =~= "    if "@ + expr_text(c2) + " {\n"@
        + stmt_text(log) + "    }"@ + "\n"@);
}

/// A string literal added to a name or a number translates to an
/// interpolation: the literal's body becomes the template, with one
/// placeholder for the right operand.
pub proof fn lemma_interpolation(e: Expression, lit: Expression, right: Expression)
    requires
        e matches Expression::BinaryOp { left, op, right: r }
            && *left == lit && op == BinaryOperator::Add && *r == right,
        lit is StringLiteral,
        right is Identifier || right is NumberLiteral,
    ensures
        expr_text(e) == "format!(\""@ + literal_body(lit->StringLiteral_0@) + "{}\", "@
            + expr_text(right) + ")"@,
{
}

/// Every other binary expression translates to its operands around the
/// operator's symbol.
pub proof fn lemma_plain_operator(e: Expression, l: Expression, o: BinaryOperator, r: Expression)
    requires
        e matches Expression::BinaryOp { left, op, right } && *left == l && op == o && *right == r,
        !is_interpolation(l, o, r),
    ensures
        expr_text(e) == expr_text(l) + " "@ + op_text(o) + " "@ + expr_text(r),
{
}

/// The first character of a type's target text.
pub open spec fn type_head(t: Type) -> char {
    match t {
        Type::String => 'S',
        Type::Number => 'i',
        Type::Boolean => 'b',
        Type::Array(_) => 'V',
    }
}

proof fn lemma_type_text_head(t: Type)
    ensures
        type_text(t).len() >= 3,
        type_text(t)[0] == type_head(t),
{
    reveal_strlit("String");
    reveal_strlit("i32");
    reveal_strlit("bool");
    reveal_strlit("Vec<");
    reveal_strlit(">");
}

/// Each type maps to one target type, and distinct types to distinct
/// texts; an array maps to a vector of its element's target type.
pub proof fn lemma_type_text_injective(a: Type, b: Type)
    requires
        type_text(a) == type_text(b),
    ensures
        a == b,
    decreases a,
{
    lemma_type_text_head(a);
    lemma_type_text_head(b);
    reveal_strlit("Vec<");
    reveal_strlit(">");
    match (a, b) {
        (Type::Array(x), Type::Array(y)) => {
            let ta = type_text(a);
            assert(ta.subrange(4, ta.len() - 1) =~= type_text(*x));
            assert(ta.subrange(4, ta.len() - 1) =~= type_text(*y));
            lemma_type_text_injective(*x, *y);
        },
        _ => {},
    }
}

/// An array type translates to a vector of its element's translation.
pub proof fn lemma_array_type(elem: Type)
    ensures
        type_text(Type::Array(Box::new(elem))) == "Vec<"@ + type_text(elem) + ">"@,
{
}

/// A token that begins no statement is passed over: parsing resumes at
/// the next token, so the statements around it are kept, in order.
pub proof fn lemma_junk_skipped(t: Seq<Token>, p: nat)
    requires
        p < t.len(),
        !(t[p as int] is ConsoleLog || t[p as int] is Let || t[p as int] is Const
            || t[p as int] is If || t[p as int] is While || t[p as int] is Identifier),
    ensures
        program_at(t, p) == program_at(t, p + 1),
{
    assert(statement_at(t, p) == (None::<StmtView>, p + 1));
}

/// A declaration `let name: type = number;` (or `const`) alone parses to
/// one declaration with those fields.
pub proof fn lemma_declaration(t: Seq<Token>, name: String, ty: String, n: i32)
    requires
        t.len() == 7,
        t[0] is Let || t[0] is Const,
        t[1] == Token::Identifier(name),
        t[2] == Token::Colon,
        t[3] == Token::Identifier(ty),
        t[4] == Token::Equal,
        t[5] == Token::Number(n),
        t[6] == Token::Semicolon,
        base_type(ty@) is Some,
    ensures
        program_at(t, 0) == seq![StmtView::Decl(name@, base_type(ty@)->0, Some(ExprView::Num(n)))],
{
    let d = StmtView::Decl(name@, base_type(ty@)->0, Some(ExprView::Num(n)));
    assert(type_at(t, 3) == (Some(base_type(ty@)->0), 4nat));
    assert(primary_at(t, 5) == (Some(ExprView::Num(n)), 6nat));
    assert(fold_at(t, 6, ExprView::Num(n)) == (Some(ExprView::Num(n)), 6nat));
    assert(binary_at(t, 5) == (Some(ExprView::Num(n)), 6nat));
    assert(expression_at(t, 5) == (Some(ExprView::Num(n)), 6nat));
    assert(declaration_at(t, 0) == (Some(d), 7nat));
    assert(statement_at(t, 0) == (Some(d), 7nat));
    assert(program_at(t, 7) == Seq::<StmtView>::empty());
    assert(seq![d] + Seq::<StmtView>::empty() =~= seq![d]);
}

/// A name alone is an expression that ends at the next token.
proof fn lemma_name_expression(t: Seq<Token>, p: nat, x: String)
    requires
        p + 1 < t.len(),
        t[p as int] == Token::Identifier(x),
        op_at(t, p + 1) is None,
        !(t[p + 1 as int] is Equal),
    ensures
        expression_at(t, p) == (Some(ExprView::Ident(x@)), p + 1),
{
    assert(primary_at(t, p) == (Some(ExprView::Ident(x@)), p + 1));
    assert(fold_at(t, p + 1, ExprView::Ident(x@)) == (Some(ExprView::Ident(x@)), p + 1));
    assert(binary_at(t, p) == (Some(ExprView::Ident(x@)), p + 1));
}

/// An assignment `name = value;` alone, with a name as the value, parses
/// to one assignment with those fields.
pub proof fn lemma_assignment(t: Seq<Token>, name: String, value: String)
    requires
        t.len() == 4,
        t[0] == Token::Identifier(name),
        t[1] == Token::Equal,
        t[2] == Token::Identifier(value),
        t[3] == Token::Semicolon,
    ensures
        program_at(t, 0) == seq![StmtView::Assign(name@, ExprView::Ident(value@))],
{
    let a = StmtView::Assign(name@, ExprView::Ident(value@));
    lemma_name_expression(t, 2, value);
    assert(assignment_at(t, 0) == (Some(a), 4nat));
    assert(statement_at(t, 0) == (Some(a), 4nat));
    assert(program_at(t, 4) == Seq::<StmtView>::empty());
    assert(seq![a] + Seq::<StmtView>::empty() =~= seq![a]);
}

/// A log call `console.log(name);` alone parses to one log call of that name.
pub proof fn lemma_single_log(t: Seq<Token>, x: String)
    requires
        t.len() == 5,
        t[0] == Token::ConsoleLog,
        t[1] == Token::OpenParen,
        t[2] == Token::Identifier(x),
        t[3] == Token::CloseParen,
        t[4] == Token::Semicolon,
    ensures
        program_at(t, 0) == seq![StmtView::Log(seq![ExprView::Ident(x@)])],
{
    let l = StmtView::Log(seq![ExprView::Ident(x@)]);
    lemma_name_expression(t, 2, x);
    assert(Seq::<ExprView>::empty().push(ExprView::Ident(x@)) =~= seq![ExprView::Ident(x@)]);
    assert(args_at(t, 2, Seq::empty()) == (Some(seq![ExprView::Ident(x@)]), 3nat));
    assert(log_at(t, 0) == (Some(l), 5nat));
    assert(statement_at(t, 0) == (Some(l), 5nat));
    assert(program_at(t, 5) == Seq::<StmtView>::empty());
    assert(seq![l] + Seq::<StmtView>::empty() =~= seq![l]);
}

} // verus!
