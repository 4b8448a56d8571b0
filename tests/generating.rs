use transpiler::ast::{BinaryOperator, Expression, Statement, Type};
use transpiler::generator::CodeGenerator;
use transpiler::lexer::tokenize;
use transpiler::parser::Parser;

fn gen() -> CodeGenerator {
    CodeGenerator::new("out")
}

fn num(n: i32) -> Expression {
    Expression::NumberLiteral(n)
}

fn ident(x: &str) -> Expression {
    Expression::Identifier(x.to_string())
}

fn bin(l: Expression, op: BinaryOperator, r: Expression) -> Expression {
    Expression::BinaryOp { left: Box::new(l), op, right: Box::new(r) }
}

fn decl(name: &str, t: Type) -> Statement {
    Statement::VariableDeclaration { name: name.to_string(), type_annotation: t, value: None }
}

#[test]
fn generator_keeps_output_dir() {
    assert_eq!(gen().output_dir, "out");
}

#[test]
fn type_mapping() {
    let g = gen();
    assert_eq!(g.generate_statement(&decl("a", Type::String)), "    let a: String;\n");
    assert_eq!(g.generate_statement(&decl("a", Type::Number)), "    let a: i32;\n");
    assert_eq!(g.generate_statement(&decl("a", Type::Boolean)), "    let a: bool;\n");
    assert_eq!(
        g.generate_statement(&decl("a", Type::Array(Box::new(Type::Number)))),
        "    let a: Vec<i32>;\n"
    );
    assert_eq!(
        g.generate_statement(&decl("a", Type::Array(Box::new(Type::Array(Box::new(Type::Boolean)))))),
        "    let a: Vec<Vec<bool>>;\n"
    );
}

#[test]
fn string_plus_name_is_interpolated() {
    let e = bin(Expression::StringLiteral("x=".to_string()), BinaryOperator::Add, ident("n"));
    assert_eq!(gen().generate_expression(&e), "format!(\"x={}\", n)");
    let quoted = bin(Expression::StringLiteral("\"x=\"".to_string()), BinaryOperator::Add, num(4));
    assert_eq!(gen().generate_expression(&quoted), "format!(\"x={}\", 4)");
}

#[test]
fn number_plus_number_is_literal() {
    let e = bin(num(1), BinaryOperator::Add, num(2));
    assert_eq!(gen().generate_expression(&e), "1 + 2");
}

#[test]
fn string_minus_name_is_literal() {
    let e = bin(Expression::StringLiteral("a".to_string()), BinaryOperator::Subtract, ident("n"));
    assert_eq!(gen().generate_expression(&e), "String::from(\"a\") - n");
}

#[test]
fn every_operator_symbol() {
    let g = gen();
    let ops = [
        (BinaryOperator::Add, "a + b"),
        (BinaryOperator::Subtract, "a - b"),
        (BinaryOperator::Multiply, "a * b"),
        (BinaryOperator::Divide, "a / b"),
        (BinaryOperator::LessThan, "a < b"),
        (BinaryOperator::GreaterThan, "a > b"),
    ];
    for (op, text) in ops {
        assert_eq!(g.generate_expression(&bin(ident("a"), op, ident("b"))), text);
    }
}

#[test]
fn numbers_in_decimal() {
    let g = gen();
    assert_eq!(g.generate_expression(&num(0)), "0");
    assert_eq!(g.generate_expression(&num(1234)), "1234");
    assert_eq!(g.generate_expression(&num(-56)), "-56");
    assert_eq!(g.generate_expression(&num(i32::MIN)), "-2147483648");
    assert_eq!(g.generate_expression(&num(i32::MAX)), "2147483647");
}

#[test]
fn string_literal_quotes_stripped_and_escaped() {
    let g = gen();
    assert_eq!(
        g.generate_expression(&Expression::StringLiteral("\"hi\"".to_string())),
        "String::from(\"hi\")"
    );
    assert_eq!(
        g.generate_expression(&Expression::StringLiteral("a\"b".to_string())),
        "String::from(\"a\\\"b\")"
    );
    assert_eq!(g.generate_expression(&Expression::StringLiteral("\"\"".to_string())), "String::from(\"\")");
}

#[test]
fn array_and_assignment_expressions() {
    let g = gen();
    assert_eq!(
        g.generate_expression(&Expression::ArrayLiteral(vec![num(1), ident("x"), num(3)])),
        "vec![1, x, 3]"
    );
    assert_eq!(g.generate_expression(&Expression::ArrayLiteral(vec![])), "vec![]");
    assert_eq!(
        g.generate_expression(&Expression::Assignment { name: "a".to_string(), value: Box::new(num(2)) }),
        "a = 2"
    );
}

#[test]
fn log_has_one_placeholder_per_argument() {
    let g = gen();
    assert_eq!(
        g.generate_statement(&Statement::ConsoleLog(vec![ident("a"), num(2)])),
        "    println!(\"{:?} {:?}\", a, 2);\n"
    );
    assert_eq!(g.generate_statement(&Statement::ConsoleLog(vec![])), "    println!(\"\");\n");
}

#[test]
fn only_the_sentinel_name_is_mutable() {
    let g = gen();
    let s = Statement::VariableDeclaration {
        name: "contador".to_string(),
        type_annotation: Type::Number,
        value: Some(num(0)),
    };
    assert_eq!(g.generate_statement(&s), "    let mut contador: i32 = 0;\n");
    let t = Statement::VariableDeclaration {
        name: "count".to_string(),
        type_annotation: Type::Number,
        value: Some(num(0)),
    };
    assert_eq!(g.generate_statement(&t), "    let count: i32 = 0;\n");
}

#[test]
fn if_with_else() {
    let s = Statement::IfStatement {
        condition: ident("c"),
        then_branch: vec![Statement::Assignment { name: "x".to_string(), value: num(1) }],
        else_branch: Some(vec![]),
    };
    assert_eq!(gen().generate_statement(&s), "    if c {\n    x = 1;\n    } else {\n    }\n");
}

#[test]
fn while_if_log_nesting() {
    let cond = bin(ident("i"), BinaryOperator::LessThan, num(5));
    let s = Statement::WhileStatement {
        condition: cond,
        body: vec![Statement::IfStatement {
            condition: ident("ok"),
            then_branch: vec![Statement::ConsoleLog(vec![ident("i")])],
            else_branch: None,
        }],
    };
    assert_eq!(
        gen().generate_statement(&s),
        "    while i < 5 {\n    if ok {\n    println!(\"{:?}\", i);\n    }\n    }\n"
    );
}

#[test]
fn end_to_end_program() {
    let stmts = Parser::new(tokenize("let n: number = 3; console.log(n);")).parse();
    assert_eq!(stmts.len(), 2);
    let g = gen();
    assert_eq!(
        g.generate_source(&stmts),
        "fn main() {\n    let n: i32 = 3;\n    println!(\"{:?}\", n);\n}\n"
    );
    assert_eq!(g.generate_block(&stmts), "    let n: i32 = 3;\n    println!(\"{:?}\", n);\n");
}
