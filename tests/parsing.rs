use transpiler::ast::{BinaryOperator, Expression, Statement, Type};
use transpiler::lexer::tokenize;
use transpiler::parser::Parser;

fn parse(source: &str) -> Vec<Statement> {
    Parser::new(tokenize(source)).parse()
}

fn num(n: i32) -> Expression {
    Expression::NumberLiteral(n)
}

fn ident(x: &str) -> Expression {
    Expression::Identifier(x.to_string())
}

fn bin(l: Expression, op: BinaryOperator, r: Expression) -> Expression {
    Expression::BinaryOp { left: Box::new(l), op, right: Box::new(r) }
}

#[test]
fn declaration_with_number() {
    assert_eq!(
        parse("let x: number = 5;"),
        vec![Statement::VariableDeclaration {
            name: "x".to_string(),
            type_annotation: Type::Number,
            value: Some(num(5)),
        }]
    );
}

#[test]
fn declaration_without_value_and_array_type() {
    assert_eq!(
        parse("const xs: string[]; let b: boolean;"),
        vec![
            Statement::VariableDeclaration {
                name: "xs".to_string(),
                type_annotation: Type::Array(Box::new(Type::String)),
                value: None,
            },
            Statement::VariableDeclaration {
                name: "b".to_string(),
                type_annotation: Type::Boolean,
                value: None,
            },
        ]
    );
}

#[test]
fn unknown_type_drops_the_declaration() {
    assert_eq!(
        parse("let x: foo = 1; let y: number = 2;"),
        vec![Statement::VariableDeclaration {
            name: "y".to_string(),
            type_annotation: Type::Number,
            value: Some(num(2)),
        }]
    );
}

#[test]
fn binary_operators_fold_left_to_right() {
    assert_eq!(
        parse("let r: number = 1 + 2 * 3;"),
        vec![Statement::VariableDeclaration {
            name: "r".to_string(),
            type_annotation: Type::Number,
            value: Some(bin(
                bin(num(1), BinaryOperator::Add, num(2)),
                BinaryOperator::Multiply,
                num(3)
            )),
        }]
    );
}

#[test]
fn comparison_has_no_lower_precedence() {
    assert_eq!(
        parse("x = a < b - 1;"),
        vec![Statement::Assignment {
            name: "x".to_string(),
            value: bin(
                bin(ident("a"), BinaryOperator::LessThan, ident("b")),
                BinaryOperator::Subtract,
                num(1)
            ),
        }]
    );
}

#[test]
fn malformed_statement_is_dropped() {
    assert_eq!(
        parse("@@@; let a: number = 1;"),
        vec![Statement::VariableDeclaration {
            name: "a".to_string(),
            type_annotation: Type::Number,
            value: Some(num(1)),
        }]
    );
}

#[test]
fn malformed_statement_between_two_keeps_order() {
    assert_eq!(
        parse("a = 1; ; 5 ) b; b = 2;"),
        vec![
            Statement::Assignment { name: "a".to_string(), value: num(1) },
            Statement::Assignment { name: "b".to_string(), value: num(2) },
        ]
    );
}

#[test]
fn log_with_several_arguments() {
    assert_eq!(
        parse("console.log(\"n:\", n, [1, 2]); console.log();"),
        vec![
            Statement::ConsoleLog(vec![
                Expression::StringLiteral("\"n:\"".to_string()),
                ident("n"),
                Expression::ArrayLiteral(vec![num(1), num(2)]),
            ]),
            Statement::ConsoleLog(vec![]),
        ]
    );
}

#[test]
fn chained_assignment_groups_right() {
    assert_eq!(
        parse("console.log(a = b = 1);"),
        vec![Statement::ConsoleLog(vec![Expression::Assignment {
            name: "a".to_string(),
            value: Box::new(Expression::Assignment {
                name: "b".to_string(),
                value: Box::new(num(1)),
            }),
        }])]
    );
}

#[test]
fn assignment_to_non_name_fails() {
    assert_eq!(parse("console.log(1 = 2);"), vec![]);
}

#[test]
fn if_else_and_while() {
    assert_eq!(
        parse("if (a) { x = 1; } else { x = 2; } while (x < 3) { x = x + 1; }"),
        vec![
            Statement::IfStatement {
                condition: ident("a"),
                then_branch: vec![Statement::Assignment { name: "x".to_string(), value: num(1) }],
                else_branch: Some(vec![Statement::Assignment {
                    name: "x".to_string(),
                    value: num(2),
                }]),
            },
            Statement::WhileStatement {
                condition: bin(ident("x"), BinaryOperator::LessThan, num(3)),
                body: vec![Statement::Assignment {
                    name: "x".to_string(),
                    value: bin(ident("x"), BinaryOperator::Add, num(1)),
                }],
            },
        ]
    );
}

#[test]
fn nested_blocks() {
    assert_eq!(
        parse("while (i) { if (j) { console.log(k); } }"),
        vec![Statement::WhileStatement {
            condition: ident("i"),
            body: vec![Statement::IfStatement {
                condition: ident("j"),
                then_branch: vec![Statement::ConsoleLog(vec![ident("k")])],
                else_branch: None,
            }],
        }]
    );
}

#[test]
fn unclosed_block_fails() {
    assert_eq!(parse("if (a) { x = 1;"), vec![]);
}

#[test]
fn empty_program() {
    assert_eq!(parse(""), vec![]);
}
