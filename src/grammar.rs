use vstd::prelude::*;
use crate::ast::{BinaryOperator, ExprView, StmtView, Type};
use crate::token::{kind, Span, Token};

verus! {

/// The tokens of a spanned token list.
pub open spec fn token_seq(v: Seq<(Token, Span)>) -> Seq<Token> {
    v.map_values(|p: (Token, Span)| p.0)
}

/// Whether the token at `p` is of the same variant as `k`.
pub open spec fn check(t: Seq<Token>, p: nat, k: Token) -> bool {
    p < t.len() && kind(t[p as int]) == kind(k)
}

/// The cursor after advancing once from `p`; it never moves past the end.
pub open spec fn next(t: Seq<Token>, p: nat) -> nat {
    if p < t.len() { p + 1 } else { p }
}

/// The token that advancing from `p` hands back: the one just passed, or the
/// last one when already at the end, or a semicolon when there is none.
pub open spec fn taken(t: Seq<Token>, p: nat) -> Token {
    let q = next(t, p);
    if q == 0 || q > t.len() { Token::Semicolon } else { t[q - 1] }
}

/// Whether the cursor has moved forward from `p` to `q` without passing the end.
pub open spec fn moved(t: Seq<Token>, p: nat, q: nat) -> bool {
    p <= q <= t.len()
}

/// The binary operator that the token at `p` stands for, if any.
pub open spec fn op_at(t: Seq<Token>, p: nat) -> Option<BinaryOperator> {
    if p < t.len() {
        match t[p as int] {
            Token::Plus => Some(BinaryOperator::Add),
            Token::Minus => Some(BinaryOperator::Subtract),
            Token::Star => Some(BinaryOperator::Multiply),
            Token::Slash => Some(BinaryOperator::Divide),
            Token::LessThan => Some(BinaryOperator::LessThan),
            Token::GreaterThan => Some(BinaryOperator::GreaterThan),
            _ => None,
        }
    } else {
        None
    }
}

/// The base type that a type name denotes.
pub open spec fn base_type(name: Seq<char>) -> Option<Type> {
    if name == "string"@ {
        Some(Type::String)
    } else if name == "number"@ {
        Some(Type::Number)
    } else if name == "boolean"@ {
        Some(Type::Boolean)
    } else {
        None
    }
}

/// A type annotation: a type name, optionally followed by `[` `]`.
pub open spec fn type_at(t: Seq<Token>, p: nat) -> (Option<Type>, nat) {
    let q = next(t, p);
    match taken(t, p) {
        Token::Identifier(name) => match base_type(name@) {
            Some(base) => if check(t, q, Token::OpenBracket) {
                if check(t, q + 1, Token::CloseBracket) {
                    (Some(Type::Array(Box::new(base))), q + 2)
                } else {
                    (None, q + 1)
                }
            } else {
                (Some(base), q)
            },
            None => (None, q),
        },
        _ => (None, q),
    }
}

/// A primary expression: a literal, a name, or a bracketed list.
pub open spec fn primary_at(t: Seq<Token>, p: nat) -> (Option<ExprView>, nat)
    decreases t.len() - p, 1nat,
{
    let q = next(t, p);
    match taken(t, p) {
        Token::StringLiteral(s) => (Some(ExprView::Str(s@)), q),
        Token::Number(n) => (Some(ExprView::Num(n)), q),
        Token::Identifier(x) => (Some(ExprView::Ident(x@)), q),
        Token::OpenBracket => if p < t.len() {
            let (elems, r) = elems_at(t, q, Seq::empty());
            if check(t, r, Token::CloseBracket) {
                (Some(ExprView::Array(elems)), r + 1)
            } else {
                (None, r)
            }
        } else {
            (None, q)
        },
        _ => (None, q),
    }
}

/// The elements of a bracketed list after `acc`: expressions separated by
/// commas, up to the first one that fails or is not followed by a comma.
pub open spec fn elems_at(t: Seq<Token>, p: nat, acc: Seq<ExprView>) -> (Seq<ExprView>, nat)
    decreases t.len() - p, 4nat,
{
    if p >= t.len() || check(t, p, Token::CloseBracket) {
        (acc, p)
    } else {
        let (e, q) = expression_at(t, p);
        match e {
            Some(e) => if check(t, q, Token::Comma) && moved(t, p, q) {
                elems_at(t, q + 1, acc.push(e))
            } else {
                (acc.push(e), q)
            },
            None => (acc, q),
        }
    }
}

/// The operator and operand pairs that follow `left`, folded strictly left to right.
pub open spec fn fold_at(t: Seq<Token>, p: nat, left: ExprView) -> (Option<ExprView>, nat)
    decreases t.len() - p, 1nat,
{
    match op_at(t, p) {
        Some(op) => {
            let (right, q) = primary_at(t, p + 1);
            match right {
                Some(right) => if moved(t, p + 1, q) {
                    fold_at(t, q, ExprView::Binary(Box::new(left), op, Box::new(right)))
                } else {
                    (None, q)
                },
                None => (None, q),
            }
        },
        None => (Some(left), p),
    }
}

/// A binary expression: a primary followed by operator and operand pairs.
pub open spec fn binary_at(t: Seq<Token>, p: nat) -> (Option<ExprView>, nat)
    decreases t.len() - p, 2nat,
{
    let (left, q) = primary_at(t, p);
    match left {
        Some(left) => if moved(t, p, q) {
            fold_at(t, q, left)
        } else {
            (None, q)
        },
        None => (None, q),
    }
}

/// An expression: a binary expression, or a name followed by `=` and an
/// expression (assignment groups to the right).
pub open spec fn expression_at(t: Seq<Token>, p: nat) -> (Option<ExprView>, nat)
    decreases t.len() - p, 3nat,
{
    let (e, q) = binary_at(t, p);
    match e {
        Some(e) => if check(t, q, Token::Equal) && moved(t, p, q) {
            match e {
                ExprView::Ident(name) => {
                    let (v, r) = expression_at(t, q + 1);
                    match v {
                        Some(v) => (Some(ExprView::Assign(name, Box::new(v))), r),
                        None => (None, r),
                    }
                },
                _ => (None, q),
            }
        } else {
            (Some(e), q)
        },
        None => (None, q),
    }
}

/// The arguments of a log call after `acc`: expressions separated by commas,
/// up to a closing parenthesis or the first one not followed by a comma.
/// An argument that fails makes the whole list fail.
pub open spec fn args_at(t: Seq<Token>, p: nat, acc: Seq<ExprView>) -> (Option<Seq<ExprView>>, nat)
    decreases t.len() - p, 4nat,
{
    if check(t, p, Token::CloseParen) {
        (Some(acc), p)
    } else {
        let (e, q) = expression_at(t, p);
        match e {
            Some(e) => if check(t, q, Token::Comma) && moved(t, p, q) {
                args_at(t, q + 1, acc.push(e))
            } else {
                (Some(acc.push(e)), q)
            },
            None => (None, q),
        }
    }
}

/// `console.log` `(` arguments `)` `;`
pub open spec fn log_at(t: Seq<Token>, p: nat) -> (Option<StmtView>, nat)
    decreases t.len() - p, 1nat,
{
    let q = next(t, p);
    if !check(t, q, Token::OpenParen) || !moved(t, p, q) {
        (None, q)
    } else {
        let (args, r) = args_at(t, q + 1, Seq::empty());
        match args {
            Some(args) => if !check(t, r, Token::CloseParen) {
                (None, r)
            } else if !check(t, r + 1, Token::Semicolon) {
                (None, r + 1)
            } else {
                (Some(StmtView::Log(args)), r + 2)
            },
            None => (None, r),
        }
    }
}

/// `let` or `const`, a name, `:` and a type, optionally `=` and an expression, then `;`.
pub open spec fn declaration_at(t: Seq<Token>, p: nat) -> (Option<StmtView>, nat)
    decreases t.len() - p, 1nat,
{
    let q = next(t, p);
    let r = next(t, q);
    match taken(t, q) {
        Token::Identifier(name) => if !check(t, r, Token::Colon) {
            (None, r)
        } else {
            let (ty, u) = type_at(t, r + 1);
            match ty {
                Some(ty) => if check(t, u, Token::Equal) && moved(t, p, u) {
                    let (e, w) = expression_at(t, u + 1);
                    match e {
                        Some(e) => if check(t, w, Token::Semicolon) {
                            (Some(StmtView::Decl(name@, ty, Some(e))), w + 1)
                        } else {
                            (None, w)
                        },
                        None => (None, w),
                    }
                } else if check(t, u, Token::Semicolon) {
                    (Some(StmtView::Decl(name@, ty, None)), u + 1)
                } else {
                    (None, u)
                },
                None => (None, u),
            }
        },
        _ => (None, r),
    }
}

/// `(` condition `)` `{` statements `}` after a keyword at `p`; the
/// condition, the body and the cursor after the closing brace.
pub open spec fn guarded_block_at(t: Seq<Token>, p: nat) -> (Option<(ExprView, Seq<StmtView>)>, nat)
    decreases t.len() - p, 1nat,
{
    let q = next(t, p);
    if !check(t, q, Token::OpenParen) || !moved(t, p, q) {
        (None, q)
    } else {
        let (c, r) = expression_at(t, q + 1);
        match c {
            Some(c) => if !check(t, r, Token::CloseParen) {
                (None, r)
            } else if !check(t, r + 1, Token::OpenBrace) || !moved(t, p, r) {
                (None, r + 1)
            } else {
                let (body, u) = block_at(t, r + 2);
                if check(t, u, Token::CloseBrace) {
                    (Some((c, body)), u + 1)
                } else {
                    (None, u)
                }
            },
            None => (None, r),
        }
    }
}

/// `if` `(` condition `)` `{` statements `}`, optionally `else` `{` statements `}`.
pub open spec fn if_at(t: Seq<Token>, p: nat) -> (Option<StmtView>, nat)
    decreases t.len() - p, 2nat,
{
    let (head, q) = guarded_block_at(t, p);
    match head {
        Some((c, body)) => if check(t, q, Token::Else) {
            if !check(t, q + 1, Token::OpenBrace) || !moved(t, p, q) {
                (None, q + 1)
            } else {
                let (alt, r) = block_at(t, q + 2);
                if check(t, r, Token::CloseBrace) {
                    (Some(StmtView::If(c, body, Some(alt))), r + 1)
                } else {
                    (None, r)
                }
            }
        } else {
            (Some(StmtView::If(c, body, None)), q)
        },
        None => (None, q),
    }
}

/// `while` `(` condition `)` `{` statements `}`.
pub open spec fn while_at(t: Seq<Token>, p: nat) -> (Option<StmtView>, nat)
    decreases t.len() - p, 2nat,
{
    let (head, q) = guarded_block_at(t, p);
    match head {
        Some((c, body)) => (Some(StmtView::While(c, body)), q),
        None => (None, q),
    }
}

/// A name, `=`, an expression and `;`.
pub open spec fn assignment_at(t: Seq<Token>, p: nat) -> (Option<StmtView>, nat)
    decreases t.len() - p, 1nat,
{
    let q = next(t, p);
    match taken(t, p) {
        Token::Identifier(name) => if !check(t, q, Token::Equal) || !moved(t, p, q) {
            (None, q)
        } else {
            let (e, r) = expression_at(t, q + 1);
            match e {
                Some(e) => if check(t, r, Token::Semicolon) {
                    (Some(StmtView::Assign(name@, e)), r + 1)
                } else {
                    (None, r)
                },
                None => (None, r),
            }
        },
        _ => (None, q),
    }
}

/// One statement, chosen by its first token; a token that begins no
/// statement is passed over and yields nothing.
pub open spec fn statement_at(t: Seq<Token>, p: nat) -> (Option<StmtView>, nat)
    decreases t.len() - p, 3nat,
{
    if p >= t.len() {
        (None, p)
    } else {
        match t[p as int] {
            Token::ConsoleLog => log_at(t, p),
            Token::Let => declaration_at(t, p),
            Token::Const => declaration_at(t, p),
            Token::If => if_at(t, p),
            Token::While => while_at(t, p),
            Token::Identifier(_) => if check(t, p + 1, Token::Equal) {
                assignment_at(t, p)
            } else {
                (None, p + 1)
            },
            _ => (None, p + 1),
        }
    }
}

/// The statements from `p` up to a closing brace or the end; those that fail
/// are left out.
pub open spec fn block_at(t: Seq<Token>, p: nat) -> (Seq<StmtView>, nat)
    decreases t.len() - p, 4nat,
{
    if p >= t.len() || check(t, p, Token::CloseBrace) {
        (Seq::empty(), p)
    } else {
        let (s, q) = statement_at(t, p);
        if p < q <= t.len() {
            let (rest, r) = block_at(t, q);
            match s {
                Some(s) => (seq![s] + rest, r),
                None => (rest, r),
            }
        } else {
            (Seq::empty(), q)
        }
    }
}

/// The statements from `p` to the end; those that fail are left out.
pub open spec fn program_at(t: Seq<Token>, p: nat) -> Seq<StmtView>
    decreases t.len() - p,
{
    if p >= t.len() {
        Seq::empty()
    } else {
        let (s, q) = statement_at(t, p);
        if p < q <= t.len() {
            let rest = program_at(t, q);
            match s {
                Some(s) => seq![s] + rest,
                None => rest,
            }
        } else {
            Seq::empty()
        }
    }
}

} // verus!
