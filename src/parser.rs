use vstd::prelude::*;
use crate::ast::{
    expr_view, exprs_view, stmt_view, stmts_view, BinaryOperator, ExprView, Expression,
    StmtView, Statement, Type,
};
use crate::grammar::{
    base_type, args_at, binary_at, block_at, check, declaration_at, elems_at, expression_at,
    fold_at, guarded_block_at, if_at, log_at, moved, next, op_at, primary_at, program_at,
    statement_at, token_seq, type_at, while_at, assignment_at,
};
use crate::lexer::str_equals;
use crate::token::{Span, Token};

verus! {

/// The view of an optional expression.
pub open spec fn opt_expr_view(o: Option<Expression>) -> Option<ExprView> {
    match o {
        Some(e) => Some(expr_view(e)),
        None => None,
    }
}

/// The view of an optional statement.
pub open spec fn opt_stmt_view(o: Option<Statement>) -> Option<StmtView> {
    match o {
        Some(s) => Some(stmt_view(s)),
        None => None,
    }
}

/// Appending an expression appends its tree.
pub proof fn lemma_exprs_view_push(s: Seq<Expression>, e: Expression)
    ensures
        exprs_view(s.push(e)) == exprs_view(s).push(expr_view(e)),
{
    assert(s.push(e).drop_last() =~= s);
}

/// Appending a statement appends its tree.
pub proof fn lemma_stmts_view_push(s: Seq<Statement>, x: Statement)
    ensures
        stmts_view(s.push(x)) == stmts_view(s).push(stmt_view(x)),
{
    assert(s.push(x).drop_last() =~= s);
}

/// A recursive-descent parser over a token list, with a cursor.
pub struct Parser {
    tokens: Vec<(Token, Span)>,
    current: usize,
}

impl Parser {
    /// The tokens being parsed.
    pub closed spec fn tokens_view(&self) -> Seq<Token> {
        token_seq(self.tokens@)
    }

    /// The cursor: the index of the next token to read.
    pub closed spec fn position(&self) -> nat {
        self.current as nat
    }

    /// A parser at the start of the given tokens.
    pub fn new(tokens: Vec<(Token, Span)>) -> (r: Self)
        ensures
            r.tokens_view() == token_seq(tokens@),
            r.position() == 0,
    {
        Parser { tokens, current: 0 }
    }

    /// Parses every statement from the cursor to the end; statements that
    /// fail to parse are left out, and the rest keep their order.
    pub fn parse(&mut self) -> (r: Vec<Statement>)
        ensures
            stmts_view(r@) == program_at(old(self).tokens_view(), old(self).position()),
            final(self).tokens_view() == old(self).tokens_view(),
            final(self).position() >= final(self).tokens_view().len(),
    {
        let ghost t = self.tokens_view();
        let ghost p0 = self.position();
        let mut statements: Vec<Statement> = Vec::new();
        while !self.is_at_end(self.current)
            invariant
                t == self.tokens_view(),
                program_at(t, p0) == stmts_view(statements@) + program_at(t, self.current as nat),
            decreases self.tokens.len() - self.current,
        {
            let (stmt, q) = self.parse_statement(self.current);
            let ghost rest = program_at(t, q as nat);
            let ghost before = statements@;
            match stmt {
                Some(s) => {
                    statements.push(s);
                    proof {
                        lemma_stmts_view_push(before, s);
                        assert(stmts_view(before) + (seq![stmt_view(s)] + rest)
                            =~= stmts_view(statements@) + rest);
                    }
                },
                None => {},
            }
            self.current = q;
        }
        assert(stmts_view(statements@) + program_at(t, self.current as nat) =~= stmts_view(statements@));
        statements
    }

    fn is_at_end(&self, pos: usize) -> (r: bool)
        ensures
            r == (pos >= self.tokens_view().len()),
            self.tokens_view().len() == self.tokens.len(),
    {
        pos >= self.tokens.len()
    }

    /// The token at `pos`, which must exist.
    fn peek(&self, pos: usize) -> (r: &Token)
        requires
            pos < self.tokens_view().len(),
        ensures
            *r == self.tokens_view()[pos as int],
    {
        &self.tokens[pos].0
    }

    /// The cursor after advancing once from `pos`.
    fn advance(&self, pos: usize) -> (r: usize)
        requires
            pos <= self.tokens_view().len(),
        ensures
            r == next(self.tokens_view(), pos as nat),
            self.tokens_view().len() == self.tokens.len(),
    {
        if pos < self.tokens.len() {
            pos + 1
        } else {
            pos
        }
    }

    /// The token before the cursor `pos`, if there is one.
    fn previous(&self, pos: usize) -> (r: Option<&Token>)
        ensures
            match r {
                Some(tok) => 0 < pos <= self.tokens_view().len() && *tok == self.tokens_view()[pos - 1],
                None => pos == 0 || pos > self.tokens_view().len(),
            },
    {
        if pos == 0 || pos > self.tokens.len() {
            None
        } else {
            Some(&self.tokens[pos - 1].0)
        }
    }

    /// Whether the token at `pos` is of the same variant as `token`.
    fn check(&self, pos: usize, token: &Token) -> (r: bool)
        ensures
            r == check(self.tokens_view(), pos as nat, *token),
            self.tokens_view().len() == self.tokens.len(),
    {
        if pos >= self.tokens.len() {
            false
        } else {
            self.tokens[pos].0.kind() == token.kind()
        }
    }

    /// Whether the token after the one at `pos` is of the same variant as `token`.
    fn lookahead_is(&self, pos: usize, token: &Token) -> (r: bool)
        ensures
            r == check(self.tokens_view(), pos as nat + 1, *token),
    {
        if pos >= self.tokens.len() || self.tokens.len() - pos < 2 {
            false
        } else {
            self.tokens[pos + 1].0.kind() == token.kind()
        }
    }

    /// The binary operator that the token at `pos` stands for, if any.
    fn parse_binary_operator(&self, pos: usize) -> (r: Option<BinaryOperator>)
        ensures
            r == op_at(self.tokens_view(), pos as nat),
            r is Some ==> pos < self.tokens.len(),
    {
        if pos >= self.tokens.len() {
            return None;
        }
        match self.peek(pos) {
            Token::Plus => Some(BinaryOperator::Add),
            Token::Minus => Some(BinaryOperator::Subtract),
            Token::Star => Some(BinaryOperator::Multiply),
            Token::Slash => Some(BinaryOperator::Divide),
            Token::LessThan => Some(BinaryOperator::LessThan),
            Token::GreaterThan => Some(BinaryOperator::GreaterThan),
            _ => None,
        }
    }

    /// A type annotation: a type name, optionally followed by `[` `]`.
    fn parse_type(&self, pos: usize) -> (r: (Option<Type>, usize))
        requires
            pos <= self.tokens_view().len(),
        ensures
            r.0 == type_at(self.tokens_view(), pos as nat).0,
            r.1 == type_at(self.tokens_view(), pos as nat).1,
            moved(self.tokens_view(), pos as nat, r.1 as nat),
    {
        let q = self.advance(pos);
        match self.previous(q) {
            Some(Token::Identifier(name)) => {
                let base = match annotation_type(name.as_str()) {
                    Some(b) => b,
                    None => return (None, q),
                };
                if self.check(q, &Token::OpenBracket) {
                    if self.check(q + 1, &Token::CloseBracket) {
                        (Some(Type::Array(Box::new(base))), q + 2)
                    } else {
                        (None, q + 1)
                    }
                } else {
                    (Some(base), q)
                }
            },
            _ => (None, q),
        }
    }

    /// A primary expression: a literal, a name, or a bracketed list.
    fn parse_primary(&self, pos: usize) -> (r: (Option<Expression>, usize))
        requires
            pos <= self.tokens_view().len(),
        ensures
            opt_expr_view(r.0) == primary_at(self.tokens_view(), pos as nat).0,
            r.1 == primary_at(self.tokens_view(), pos as nat).1,
            moved(self.tokens_view(), pos as nat, r.1 as nat),
        decreases self.tokens_view().len() - pos, 1nat,
    {
        let q = self.advance(pos);
        match self.previous(q) {
            Some(Token::StringLiteral(s)) => (Some(Expression::StringLiteral(s.clone())), q),
            Some(Token::Number(n)) => (Some(Expression::NumberLiteral(*n)), q),
            Some(Token::Identifier(x)) => (Some(Expression::Identifier(x.clone())), q),
            Some(Token::OpenBracket) => {
                if pos < self.tokens.len() {
                    let (elements, r) = self.parse_elements(q);
                    if self.check(r, &Token::CloseBracket) {
                        (Some(Expression::ArrayLiteral(elements)), r + 1)
                    } else {
                        (None, r)
                    }
                } else {
                    (None, q)
                }
            },
            _ => (None, q),
        }
    }

    /// The elements of a bracketed list: expressions separated by commas.
    fn parse_elements(&self, pos: usize) -> (r: (Vec<Expression>, usize))
        requires
            pos <= self.tokens_view().len(),
        ensures
            exprs_view(r.0@) == elems_at(self.tokens_view(), pos as nat, Seq::empty()).0,
            r.1 == elems_at(self.tokens_view(), pos as nat, Seq::empty()).1,
            moved(self.tokens_view(), pos as nat, r.1 as nat),
        decreases self.tokens_view().len() - pos, 5nat,
    {
        let ghost t = self.tokens_view();
        let mut elements: Vec<Expression> = Vec::new();
        let mut cur = pos;
        loop
            invariant
                t == self.tokens_view(),
                moved(t, pos as nat, cur as nat),
                elems_at(t, pos as nat, Seq::empty()) == elems_at(t, cur as nat, exprs_view(elements@)),
            decreases t.len() - cur,
        {
            if self.is_at_end(cur) || self.check(cur, &Token::CloseBracket) {
                return (elements, cur);
            }
            let (e, q) = self.parse_expression(cur);
            match e {
                Some(e) => {
                    let ghost before = elements@;
                    elements.push(e);
                    proof {
                        lemma_exprs_view_push(before, e);
                    }
                    if self.check(q, &Token::Comma) {
                        cur = q + 1;
                    } else {
                        return (elements, q);
                    }
                },
                None => {
                    return (elements, q);
                },
            }
        }
    }

    /// A binary expression: a primary followed by operator and operand
    /// pairs, folded strictly left to right.
    fn parse_binary_expression(&self, pos: usize) -> (r: (Option<Expression>, usize))
        requires
            pos <= self.tokens_view().len(),
        ensures
            opt_expr_view(r.0) == binary_at(self.tokens_view(), pos as nat).0,
            r.1 == binary_at(self.tokens_view(), pos as nat).1,
            moved(self.tokens_view(), pos as nat, r.1 as nat),
        decreases self.tokens_view().len() - pos, 2nat,
    {
        let ghost t = self.tokens_view();
        let (first, q) = self.parse_primary(pos);
        let mut left = match first {
            Some(e) => e,
            None => return (None, q),
        };
        let mut cur = q;
        loop
            invariant
                t == self.tokens_view(),
                moved(t, pos as nat, cur as nat),
                binary_at(t, pos as nat) == fold_at(t, cur as nat, expr_view(left)),
            decreases t.len() - cur,
        {
            let op = match self.parse_binary_operator(cur) {
                Some(op) => op,
                None => return (Some(left), cur),
            };
            let (right, r) = self.parse_primary(cur + 1);
            match right {
                Some(right) => {
                    left = Expression::BinaryOp { left: Box::new(left), op, right: Box::new(right) };
                    cur = r;
                },
                None => return (None, r),
            }
        }
    }

    /// An expression, with assignment grouping to the right.
    fn parse_assignment_expression(&self, pos: usize) -> (r: (Option<Expression>, usize))
        requires
            pos <= self.tokens_view().len(),
        ensures
            opt_expr_view(r.0) == expression_at(self.tokens_view(), pos as nat).0,
            r.1 == expression_at(self.tokens_view(), pos as nat).1,
            moved(self.tokens_view(), pos as nat, r.1 as nat),
        decreases self.tokens_view().len() - pos, 3nat,
    {
        let (e, q) = self.parse_binary_expression(pos);
        let e = match e {
            Some(e) => e,
            None => return (None, q),
        };
        if !self.check(q, &Token::Equal) {
            return (Some(e), q);
        }
        match e {
            Expression::Identifier(name) => {
                let (value, r) = self.parse_assignment_expression(q + 1);
                match value {
                    Some(v) => (Some(Expression::Assignment { name, value: Box::new(v) }), r),
                    None => (None, r),
                }
            },
            _ => (None, q),
        }
    }

    /// The arguments of a log call: expressions separated by commas, up to
    /// a closing parenthesis or the first one not followed by a comma.
    fn parse_arguments(&self, pos: usize) -> (r: (Option<Vec<Expression>>, usize))
        requires
            pos <= self.tokens_view().len(),
        ensures
            r.1 == args_at(self.tokens_view(), pos as nat, Seq::empty()).1,
            moved(self.tokens_view(), pos as nat, r.1 as nat),
            match r.0 {
                Some(v) => args_at(self.tokens_view(), pos as nat, Seq::empty()).0 == Some(exprs_view(v@)),
                None => args_at(self.tokens_view(), pos as nat, Seq::empty()).0 is None,
            },
        decreases self.tokens_view().len() - pos, 5nat,
    {
        let ghost t = self.tokens_view();
        let mut args: Vec<Expression> = Vec::new();
        let mut cur = pos;
        loop
            invariant
                t == self.tokens_view(),
                moved(t, pos as nat, cur as nat),
                args_at(t, pos as nat, Seq::empty()) == args_at(t, cur as nat, exprs_view(args@)),
            decreases t.len() - cur,
        {
            if self.check(cur, &Token::CloseParen) {
                return (Some(args), cur);
            }
            let (e, q) = self.parse_expression(cur);
            match e {
                Some(e) => {
                    let ghost before = args@;
                    args.push(e);
                    proof {
                        lemma_exprs_view_push(before, e);
                    }
                    if self.check(q, &Token::Comma) {
                        cur = q + 1;
                    } else {
                        return (Some(args), q);
                    }
                },
                None => {
                    return (None, q);
                },
            }
        }
    }

    /// `console.log` `(` arguments `)` `;`
    fn parse_console_log(&self, pos: usize) -> (r: (Option<Statement>, usize))
        requires
            pos <= self.tokens_view().len(),
        ensures
            opt_stmt_view(r.0) == log_at(self.tokens_view(), pos as nat).0,
            r.1 == log_at(self.tokens_view(), pos as nat).1,
            moved(self.tokens_view(), pos as nat, r.1 as nat),
            pos < self.tokens_view().len() ==> r.1 > pos,
        decreases self.tokens_view().len() - pos, 1nat,
    {
        let q = self.advance(pos);
        if !self.check(q, &Token::OpenParen) {
            return (None, q);
        }
        let (args, r) = self.parse_arguments(q + 1);
        let args = match args {
            Some(a) => a,
            None => return (None, r),
        };
        if !self.check(r, &Token::CloseParen) {
            return (None, r);
        }
        if !self.check(r + 1, &Token::Semicolon) {
            return (None, r + 1);
        }
        (Some(Statement::ConsoleLog(args)), r + 2)
    }

    /// `let` or `const`, a name, `:` and a type, optionally `=` and an
    /// expression, then `;`. Whether the name was declared constant is not kept.
    fn parse_variable_declaration(&self, pos: usize) -> (r: (Option<Statement>, usize))
        requires
            pos <= self.tokens_view().len(),
        ensures
            opt_stmt_view(r.0) == declaration_at(self.tokens_view(), pos as nat).0,
            r.1 == declaration_at(self.tokens_view(), pos as nat).1,
            moved(self.tokens_view(), pos as nat, r.1 as nat),
            pos < self.tokens_view().len() ==> r.1 > pos,
        decreases self.tokens_view().len() - pos, 1nat,
    {
        let q = self.advance(pos);
        let r = self.advance(q);
        let name = match self.previous(r) {
            Some(Token::Identifier(name)) => name.clone(),
            _ => return (None, r),
        };
        if !self.check(r, &Token::Colon) {
            return (None, r);
        }
        let (ty, u) = self.parse_type(r + 1);
        let type_annotation = match ty {
            Some(ty) => ty,
            None => return (None, u),
        };
        if self.check(u, &Token::Equal) {
            let (e, w) = self.parse_expression(u + 1);
            let value = match e {
                Some(e) => e,
                None => return (None, w),
            };
            if !self.check(w, &Token::Semicolon) {
                return (None, w);
            }
            (Some(Statement::VariableDeclaration { name, type_annotation, value: Some(value) }), w + 1)
        } else if self.check(u, &Token::Semicolon) {
            (Some(Statement::VariableDeclaration { name, type_annotation, value: None }), u + 1)
        } else {
            (None, u)
        }
    }

    /// The statements from `pos` up to a closing brace or the end; those
    /// that fail are left out.
    fn parse_block(&self, pos: usize) -> (r: (Vec<Statement>, usize))
        requires
            pos <= self.tokens_view().len(),
        ensures
            stmts_view(r.0@) == block_at(self.tokens_view(), pos as nat).0,
            r.1 == block_at(self.tokens_view(), pos as nat).1,
            moved(self.tokens_view(), pos as nat, r.1 as nat),
        decreases self.tokens_view().len() - pos, 4nat,
    {
        let ghost t = self.tokens_view();
        let mut body: Vec<Statement> = Vec::new();
        let mut cur = pos;
        while !self.check(cur, &Token::CloseBrace) && !self.is_at_end(cur)
            invariant
                t == self.tokens_view(),
                moved(t, pos as nat, cur as nat),
                block_at(t, pos as nat).0 == stmts_view(body@) + block_at(t, cur as nat).0,
                block_at(t, pos as nat).1 == block_at(t, cur as nat).1,
            decreases t.len() - cur,
        {
            let (stmt, q) = self.parse_statement(cur);
            let ghost rest = block_at(t, q as nat).0;
            let ghost before = body@;
            match stmt {
                Some(s) => {
                    body.push(s);
                    proof {
                        lemma_stmts_view_push(before, s);
                        assert(stmts_view(before) + (seq![stmt_view(s)] + rest)
                            =~= stmts_view(body@) + rest);
                    }
                },
                None => {},
            }
            cur = q;
        }
        assert(stmts_view(body@) + block_at(t, cur as nat).0 =~= stmts_view(body@));
        (body, cur)
    }

    /// `(` condition `)` `{` statements `}` after a keyword at `pos`.
    fn parse_guarded_block(&self, pos: usize) -> (r: (Option<(Expression, Vec<Statement>)>, usize))
        requires
            pos <= self.tokens_view().len(),
        ensures
            r.1 == guarded_block_at(self.tokens_view(), pos as nat).1,
            moved(self.tokens_view(), pos as nat, r.1 as nat),
            pos < self.tokens_view().len() ==> r.1 > pos,
            match r.0 {
                Some((c, b)) => guarded_block_at(self.tokens_view(), pos as nat).0
                    == Some((expr_view(c), stmts_view(b@))),
                None => guarded_block_at(self.tokens_view(), pos as nat).0 is None,
            },
        decreases self.tokens_view().len() - pos, 1nat,
    {
        let q = self.advance(pos);
        if !self.check(q, &Token::OpenParen) {
            return (None, q);
        }
        let (c, r) = self.parse_expression(q + 1);
        let condition = match c {
            Some(c) => c,
            None => return (None, r),
        };
        if !self.check(r, &Token::CloseParen) {
            return (None, r);
        }
        if !self.check(r + 1, &Token::OpenBrace) {
            return (None, r + 1);
        }
        let (body, u) = self.parse_block(r + 2);
        if self.check(u, &Token::CloseBrace) {
            (Some((condition, body)), u + 1)
        } else {
            (None, u)
        }
    }

    /// `if` `(` condition `)` `{` statements `}`, optionally `else` `{` statements `}`.
    fn parse_if_statement(&self, pos: usize) -> (r: (Option<Statement>, usize))
        requires
            pos <= self.tokens_view().len(),
        ensures
            opt_stmt_view(r.0) == if_at(self.tokens_view(), pos as nat).0,
            r.1 == if_at(self.tokens_view(), pos as nat).1,
            moved(self.tokens_view(), pos as nat, r.1 as nat),
            pos < self.tokens_view().len() ==> r.1 > pos,
        decreases self.tokens_view().len() - pos, 2nat,
    {
        let (head, q) = self.parse_guarded_block(pos);
        let (condition, then_branch) = match head {
            Some(h) => h,
            None => return (None, q),
        };
        if !self.check(q, &Token::Else) {
            return (Some(Statement::IfStatement { condition, then_branch, else_branch: None }), q);
        }
        if !self.check(q + 1, &Token::OpenBrace) {
            return (None, q + 1);
        }
        let (else_body, r) = self.parse_block(q + 2);
        if self.check(r, &Token::CloseBrace) {
            (Some(Statement::IfStatement { condition, then_branch, else_branch: Some(else_body) }), r + 1)
        } else {
            (None, r)
        }
    }

    /// `while` `(` condition `)` `{` statements `}`.
    fn parse_while_statement(&self, pos: usize) -> (r: (Option<Statement>, usize))
        requires
            pos <= self.tokens_view().len(),
        ensures
            opt_stmt_view(r.0) == while_at(self.tokens_view(), pos as nat).0,
            r.1 == while_at(self.tokens_view(), pos as nat).1,
            moved(self.tokens_view(), pos as nat, r.1 as nat),
            pos < self.tokens_view().len() ==> r.1 > pos,
        decreases self.tokens_view().len() - pos, 2nat,
    {
        let (head, q) = self.parse_guarded_block(pos);
        match head {
            Some((condition, body)) => (Some(Statement::WhileStatement { condition, body }), q),
            None => (None, q),
        }
    }

    /// A name, `=`, an expression and `;`.
    fn parse_assignment(&self, pos: usize) -> (r: (Option<Statement>, usize))
        requires
            pos <= self.tokens_view().len(),
        ensures
            opt_stmt_view(r.0) == assignment_at(self.tokens_view(), pos as nat).0,
            r.1 == assignment_at(self.tokens_view(), pos as nat).1,
            moved(self.tokens_view(), pos as nat, r.1 as nat),
            pos < self.tokens_view().len() ==> r.1 > pos,
        decreases self.tokens_view().len() - pos, 1nat,
    {
        let q = self.advance(pos);
        let name = match self.previous(q) {
            Some(Token::Identifier(name)) => name.clone(),
            _ => return (None, q),
        };
        if !self.check(q, &Token::Equal) {
            return (None, q);
        }
        let (e, r) = self.parse_expression(q + 1);
        let value = match e {
            Some(e) => e,
            None => return (None, r),
        };
        if !self.check(r, &Token::Semicolon) {
            return (None, r);
        }
        (Some(Statement::Assignment { name, value }), r + 1)
    }

    /// One statement, chosen by its first token; a token that begins no
    /// statement is passed over and yields nothing.
    fn parse_statement(&self, pos: usize) -> (r: (Option<Statement>, usize))
        requires
            pos <= self.tokens_view().len(),
        ensures
            opt_stmt_view(r.0) == statement_at(self.tokens_view(), pos as nat).0,
            r.1 == statement_at(self.tokens_view(), pos as nat).1,
            moved(self.tokens_view(), pos as nat, r.1 as nat),
            pos < self.tokens_view().len() ==> r.1 > pos,
        decreases self.tokens_view().len() - pos, 3nat,
    {
        if self.is_at_end(pos) {
            return (None, pos);
        }
        match self.peek(pos) {
            Token::ConsoleLog => self.parse_console_log(pos),
            Token::Let => self.parse_variable_declaration(pos),
            Token::Const => self.parse_variable_declaration(pos),
            Token::If => self.parse_if_statement(pos),
            Token::While => self.parse_while_statement(pos),
            Token::Identifier(_) => {
                if self.lookahead_is(pos, &Token::Equal) {
                    self.parse_assignment(pos)
                } else {
                    (None, pos + 1)
                }
            },
            _ => (None, pos + 1),
        }
    }

    /// An expression.
    fn parse_expression(&self, pos: usize) -> (r: (Option<Expression>, usize))
        requires
            pos <= self.tokens_view().len(),
        ensures
            opt_expr_view(r.0) == expression_at(self.tokens_view(), pos as nat).0,
            r.1 == expression_at(self.tokens_view(), pos as nat).1,
            moved(self.tokens_view(), pos as nat, r.1 as nat),
        decreases self.tokens_view().len() - pos, 4nat,
    {
        self.parse_assignment_expression(pos)
    }
}

/// The base type that a type name denotes, if any.
fn annotation_type(name: &str) -> (r: Option<Type>)
    ensures
        r == base_type(name@),
{
    if str_equals(name, "string") {
        Some(Type::String)
    } else if str_equals(name, "number") {
        Some(Type::Number)
    } else if str_equals(name, "boolean") {
        Some(Type::Boolean)
    } else {
        None
    }
}

} // verus!
