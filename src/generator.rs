use vstd::prelude::*;
use vstd::string::*;
use crate::ast::{BinaryOperator, Expression, Statement, Type};

verus! {

/// The name of the one variable that the translation declares mutable.
pub open spec fn mutable_name() -> Seq<char> {
    "contador"@
}

/// The target type that a declared type maps to.
pub open spec fn type_text(t: Type) -> Seq<char>
    decreases t,
{
    match t {
        Type::String => "String"@,
        Type::Number => "i32"@,
        Type::Boolean => "bool"@,
        Type::Array(elem) => "Vec<"@ + type_text(*elem) + ">"@,
    }
}

/// The symbol written for a binary operator.
pub open spec fn op_text(op: BinaryOperator) -> Seq<char> {
    match op {
        BinaryOperator::Add => "+"@,
        BinaryOperator::Subtract => "-"@,
        BinaryOperator::Multiply => "*"@,
        BinaryOperator::Divide => "/"@,
        BinaryOperator::LessThan => "<"@,
        BinaryOperator::GreaterThan => ">"@,
    }
}

/// The text of one decimal digit.
pub open spec fn digit_text(d: nat) -> Seq<char> {
    if d == 0 { "0"@ }
    else if d == 1 { "1"@ }
    else if d == 2 { "2"@ }
    else if d == 3 { "3"@ }
    else if d == 4 { "4"@ }
    else if d == 5 { "5"@ }
    else if d == 6 { "6"@ }
    else if d == 7 { "7"@ }
    else if d == 8 { "8"@ }
    else { "9"@ }
}

/// Decimal digits of a natural number, most significant first.
pub open spec fn digits_text(n: nat) -> Seq<char>
    decreases n,
{
    if n < 10 {
        digit_text(n)
    } else {
        digits_text(n / 10) + digit_text(n % 10)
    }
}

/// Decimal text of an integer, with a leading minus sign when negative.
pub open spec fn decimal_text(n: int) -> Seq<char> {
    if n < 0 {
        "-"@ + digits_text((-n) as nat)
    } else {
        digits_text(n as nat)
    }
}

/// The text with every leading double quote removed.
pub open spec fn trim_leading_quotes(s: Seq<char>) -> Seq<char>
    decreases s.len(),
{
    if s.len() > 0 && s[0] == '"' {
        trim_leading_quotes(s.drop_first())
    } else {
        s
    }
}

/// The text with every trailing double quote removed.
pub open spec fn trim_trailing_quotes(s: Seq<char>) -> Seq<char>
    decreases s.len(),
{
    if s.len() > 0 && s.last() == '"' {
        trim_trailing_quotes(s.drop_last())
    } else {
        s
    }
}

/// The text with every double quote preceded by a backslash.
pub open spec fn escape_quotes(s: Seq<char>) -> Seq<char>
    decreases s.len(),
{
    if s.len() == 0 {
        s
    } else if s.last() == '"' {
        escape_quotes(s.drop_last()) + "\\\""@
    } else {
        escape_quotes(s.drop_last()) + seq![s.last()]
    }
}

/// The body of a string literal as it goes into a target string: the
/// surrounding quotes stripped and inner quotes escaped.
pub open spec fn literal_body(s: Seq<char>) -> Seq<char> {
    escape_quotes(trim_trailing_quotes(trim_leading_quotes(s)))
}

/// Whether a binary expression is translated as a string interpolation:
/// a string literal added to an identifier or a number.
pub open spec fn is_interpolation(left: Expression, op: BinaryOperator, right: Expression) -> bool {
    op == BinaryOperator::Add && left is StringLiteral && (right is Identifier || right is NumberLiteral)
}

/// The target text of an expression.
pub open spec fn expr_text(e: Expression) -> Seq<char>
    decreases e,
{
    match e {
        Expression::StringLiteral(s) => "String::from(\""@ + literal_body(s@) + "\")"@,
        Expression::NumberLiteral(n) => decimal_text(n as int),
        Expression::Identifier(name) => name@,
        Expression::BinaryOp { left, op, right } => {
            if is_interpolation(*left, op, *right) {
                "format!(\""@ + literal_body(left->StringLiteral_0@) + "{}\", "@ + expr_text(*right) + ")"@
            } else {
                expr_text(*left) + " "@ + op_text(op) + " "@ + expr_text(*right)
            }
        },
        Expression::Assignment { name, value } => name@ + " = "@ + expr_text(*value),
        Expression::ArrayLiteral(elems) => "vec!["@ + elems_text(elems@) + "]"@,
    }
}

/// Expressions translated and separated by commas.
pub open spec fn elems_text(es: Seq<Expression>) -> Seq<char>
    decreases es,
{
    if es.len() == 0 {
        Seq::empty()
    } else if es.len() == 1 {
        expr_text(es[0])
    } else {
        elems_text(es.drop_last()) + ", "@ + expr_text(es.last())
    }
}

/// One debug placeholder per argument, separated by spaces.
pub open spec fn placeholders(n: nat) -> Seq<char>
    decreases n,
{
    if n == 0 {
        Seq::empty()
    } else if n == 1 {
        "{:?}"@
    } else {
        placeholders((n - 1) as nat) + " {:?}"@
    }
}

/// Each argument translated and preceded by a comma.
pub open spec fn args_text(es: Seq<Expression>) -> Seq<char>
    decreases es,
{
    if es.len() == 0 {
        Seq::empty()
    } else {
        args_text(es.drop_last()) + ", "@ + expr_text(es.last())
    }
}

/// The target text of a statement, one line per simple statement.
pub open spec fn stmt_text(s: Statement) -> Seq<char>
    decreases s,
{
    match s {
        Statement::ConsoleLog(args) => "    println!(\""@ + placeholders(args@.len()) + "\""@
            + args_text(args@) + ");\n"@,
        Statement::VariableDeclaration { name, type_annotation, value } => {
            "    let "@ + (if name@ == mutable_name() { "mut "@ } else { Seq::empty() }) + name@
                + ": "@ + type_text(type_annotation) + match value {
                Some(e) => " = "@ + expr_text(e),
                None => Seq::empty(),
            } + ";\n"@
        },
        Statement::IfStatement { condition, then_branch, else_branch } => {
            "    if "@ + expr_text(condition) + " {\n"@ + block_text(then_branch@) + "    }"@
                + match else_branch {
                Some(b) => " else {\n"@ + block_text(b@) + "    }"@,
                None => Seq::empty(),
            } + "\n"@
        },
        Statement::WhileStatement { condition, body } => "    while "@ + expr_text(condition)
            + " {\n"@ + block_text(body@) + "    }\n"@,
        Statement::Assignment { name, value } => "    "@ + name@ + " = "@ + expr_text(value)
            + ";\n"@,
    }
}

/// The statements translated one after another.
pub open spec fn block_text(ss: Seq<Statement>) -> Seq<char>
    decreases ss,
{
    if ss.len() == 0 {
        Seq::empty()
    } else {
        block_text(ss.drop_last()) + stmt_text(ss.last())
    }
}

/// The whole target program: the statements inside the entry function.
pub open spec fn program_text(ss: Seq<Statement>) -> Seq<char> {
    "fn main() {\n"@ + block_text(ss) + "}\n"@
}

/// The manifest written beside the generated program: a package with no
/// dependencies.
pub open spec fn manifest_text() -> Seq<char> {
    "[package]\nname = \"generated-code\"\nversion = \"0.1.0\"\nedition = \"2021\"\n\n[dependencies]\n"@
}

/// The manifest written beside the generated program.
pub fn manifest() -> (r: &'static str)
    ensures
        r@ == manifest_text(),
{
    "[package]\nname = \"generated-code\"\nversion = \"0.1.0\"\nedition = \"2021\"\n\n[dependencies]\n"
}

/// Translates a parsed program into target source text.
pub struct CodeGenerator {
    pub output_dir: String,
}

fn digit_str(d: u32) -> (r: &'static str)
    requires
        d < 10,
    ensures
        r@ == digit_text(d as nat),
{
    match d {
        0 => "0",
        1 => "1",
        2 => "2",
        3 => "3",
        4 => "4",
        5 => "5",
        6 => "6",
        7 => "7",
        8 => "8",
        _ => "9",
    }
}

fn push_digits(out: &mut String, n: u32)
    ensures
        final(out)@ == old(out)@ + digits_text(n as nat),
    decreases n,
{
    if n >= 10 {
        push_digits(out, n / 10);
    }
    out.append(digit_str(n % 10));
    proof {
        if n < 10 {
            assert(n % 10 == n);
        }
    }
    assert(final(out)@ =~= old(out)@ + digits_text(n as nat));
}

/// The decimal text of a number.
fn decimal(n: i32) -> (r: String)
    ensures
        r@ == decimal_text(n as int),
{
    let mut out = String::new();
    if n < 0 {
        out.append("-");
        let m: u32 = (0i64 - n as i64) as u32;
        push_digits(&mut out, m);
    } else {
        push_digits(&mut out, n as u32);
    }
    assert(out@ =~= decimal_text(n as int));
    out
}

/// The body of a string literal: surrounding quotes stripped, inner quotes escaped.
fn quoted_body(text: &String) -> (r: String)
    ensures
        r@ == literal_body(text@),
{
    let s: &str = text.as_str();
    let len = s.unicode_len();
    let mut from: usize = 0;
    assert(s@.subrange(0, len as int) =~= s@);
    while from < len && s.get_char(from) == '"'
        invariant
            from <= len == s@.len(),
            s@ == text@,
            trim_leading_quotes(s@) == trim_leading_quotes(s@.subrange(from as int, len as int)),
        decreases len - from,
    {
        assert(s@.subrange(from as int, len as int).drop_first() =~= s@.subrange(from + 1, len as int));
        from = from + 1;
    }
    let mut to: usize = len;
    while to > from && s.get_char(to - 1) == '"'
        invariant
            from <= to <= len == s@.len(),
            s@ == text@,
            trim_trailing_quotes(trim_leading_quotes(s@)) == trim_trailing_quotes(s@.subrange(from as int, to as int)),
        decreases to,
    {
        assert(s@.subrange(from as int, to as int).drop_last() =~= s@.subrange(from as int, to - 1));
        to = to - 1;
    }
    let mut out = String::new();
    let mut i: usize = from;
    while i < to
        invariant
            from <= i <= to <= len == s@.len(),
            s@ == text@,
            trim_trailing_quotes(trim_leading_quotes(s@)) == s@.subrange(from as int, to as int),
            out@ == escape_quotes(s@.subrange(from as int, i as int)),
        decreases to - i,
    {
        let piece = s.substring_char(i, i + 1);
        assert(s@.subrange(from as int, i + 1).drop_last() =~= s@.subrange(from as int, i as int));
        if s.get_char(i) == '"' {
            out.append("\\\"");
        } else {
            assert(piece@ =~= seq![s@.subrange(from as int, i + 1).last()]);
            out.append(piece);
        }
        i = i + 1;
    }
    out
}

impl CodeGenerator {
    /// A generator whose output goes under the given directory.
    pub fn new(output_dir: &str) -> (r: Self)
        ensures
            r.output_dir@ == output_dir@,
    {
        CodeGenerator { output_dir: String::from_str(output_dir) }
    }

    /// The target text of an expression.
    pub fn generate_expression(&self, expr: &Expression) -> (r: String)
        ensures
            r@ == expr_text(*expr),
        decreases expr,
    {
        match expr {
            Expression::StringLiteral(s) => {
                let mut out = String::from_str("String::from(\"");
                out.append(quoted_body(s).as_str());
                out.append("\")");
                out
            },
            Expression::NumberLiteral(n) => decimal(*n),
            Expression::Identifier(name) => name.clone(),
            Expression::BinaryOp { left, op, right } => {
                let interpolated = match (&**left, &**right) {
                    (Expression::StringLiteral(_), Expression::Identifier(_)) => true,
                    (Expression::StringLiteral(_), Expression::NumberLiteral(_)) => true,
                    _ => false,
                };
                if interpolated && matches!(op, BinaryOperator::Add) {
                    if let Expression::StringLiteral(lit) = &**left {
                        let mut out = String::from_str("format!(\"");
                        out.append(quoted_body(lit).as_str());
                        out.append("{}\", ");
                        out.append(self.generate_expression(right).as_str());
                        out.append(")");
                        return out;
                    }
                }
                let mut out = self.generate_expression(left);
                out.append(" ");
                out.append(op_str(*op));
                out.append(" ");
                out.append(self.generate_expression(right).as_str());
                out
            },
            Expression::Assignment { name, value } => {
                let mut out = name.clone();
                out.append(" = ");
                out.append(self.generate_expression(value).as_str());
                out
            },
            Expression::ArrayLiteral(elems) => {
                let mut out = String::from_str("vec![");
                let mut i: usize = 0;
                while i < elems.len()
                    invariant
                        i <= elems@.len(),
                        forall|k: int| 0 <= k < elems@.len() ==> decreases_to!(*expr => elems@[k]),
                        out@ == "vec!["@ + elems_text(elems@.subrange(0, i as int)),
                    decreases elems.len() - i,
                {
                    let ghost pre = elems@.subrange(0, i as int);
                    assert(elems@.subrange(0, i + 1).drop_last() =~= pre);
                    if i > 0 {
                        out.append(", ");
                    }
                    assert(decreases_to!(*expr => elems@[i as int]));
                    out.append(self.generate_expression(&elems[i]).as_str());
                    i = i + 1;
                }
                assert(elems@.subrange(0, elems@.len() as int) =~= elems@);
                out.append("]");
                out
            },
        }
    }
}

impl CodeGenerator {
    /// The target text of a statement; nested blocks are translated in place.
    pub fn generate_statement(&self, stmt: &Statement) -> (r: String)
        ensures
            r@ == stmt_text(*stmt),
        decreases stmt,
    {
        match stmt {
            Statement::ConsoleLog(args) => {
                let mut out = String::from_str("    println!(\"");
                let mut i: usize = 0;
                while i < args.len()
                    invariant
                        i <= args@.len(),
                        out@ == "    println!(\""@ + placeholders(i as nat),
                    decreases args.len() - i,
                {
                    if i == 0 {
                        out.append("{:?}");
                        assert(out@ =~= "    println!(\""@ + placeholders(1));
                    } else {
                        out.append(" {:?}");
                    }
                    i = i + 1;
                }
                out.append("\"");
                assert(out@ =~= "    println!(\""@ + placeholders(args@.len()) + "\""@
                    + args_text(args@.subrange(0, 0)));
                let mut j: usize = 0;
                while j < args.len()
                    invariant
                        j <= args@.len(),
                        out@ == "    println!(\""@ + placeholders(args@.len()) + "\""@
                            + args_text(args@.subrange(0, j as int)),
                    decreases args.len() - j,
                {
                    assert(args@.subrange(0, j + 1).drop_last() =~= args@.subrange(0, j as int));
                    out.append(", ");
                    out.append(self.generate_expression(&args[j]).as_str());
                    j = j + 1;
                }
                assert(args@.subrange(0, args@.len() as int) =~= args@);
                out.append(");\n");
                out
            },
            Statement::VariableDeclaration { name, type_annotation, value } => {
                let mut out = String::from_str("    let ");
                if is_mutable_name(name.as_str()) {
                    out.append("mut ");
                }
                out.append(name.as_str());
                out.append(": ");
                out.append(type_string(type_annotation).as_str());
                if let Some(e) = value {
                    out.append(" = ");
                    out.append(self.generate_expression(e).as_str());
                }
                out.append(";\n");
                out
            },
            Statement::IfStatement { condition, then_branch, else_branch } => {
                let mut out = String::from_str("    if ");
                out.append(self.generate_expression(condition).as_str());
                out.append(" {\n");
                out.append(self.generate_block(then_branch).as_str());
                out.append("    }");
                if let Some(b) = else_branch {
                    out.append(" else {\n");
                    out.append(self.generate_block(b).as_str());
                    out.append("    }");
                }
                out.append("\n");
                out
            },
            Statement::WhileStatement { condition, body } => {
                let mut out = String::from_str("    while ");
                out.append(self.generate_expression(condition).as_str());
                out.append(" {\n");
                out.append(self.generate_block(body).as_str());
                out.append("    }\n");
                out
            },
            Statement::Assignment { name, value } => {
                let mut out = String::from_str("    ");
                out.append(name.as_str());
                out.append(" = ");
                out.append(self.generate_expression(value).as_str());
                out.append(";\n");
                out
            },
        }
    }

    /// The target text of a sequence of statements, in order.
    pub fn generate_block(&self, stmts: &Vec<Statement>) -> (r: String)
        ensures
            r@ == block_text(stmts@),
        decreases stmts,
    {
        let mut out = String::new();
        let mut i: usize = 0;
        while i < stmts.len()
            invariant
                i <= stmts@.len(),
                out@ == block_text(stmts@.subrange(0, i as int)),
            decreases stmts.len() - i,
        {
            assert(stmts@.subrange(0, i + 1).drop_last() =~= stmts@.subrange(0, i as int));
            out.append(self.generate_statement(&stmts[i]).as_str());
            i = i + 1;
        }
        assert(stmts@.subrange(0, stmts@.len() as int) =~= stmts@);
        out
    }

    /// The target program: every statement, in order, inside the entry function.
    pub fn generate_source(&self, stmts: &Vec<Statement>) -> (r: String)
        ensures
            r@ == program_text(stmts@),
    {
        let mut out = String::from_str("fn main() {\n");
        out.append(self.generate_block(stmts).as_str());
        out.append("}\n");
        out
    }
}

/// Whether a name is the one that the translation declares mutable.
fn is_mutable_name(name: &str) -> (r: bool)
    ensures
        r == (name@ == mutable_name()),
{
    let target = "contador";
    proof {
        reveal_strlit("contador");
        assert(target@ == mutable_name());
    }
    let len = name.unicode_len();
    if len != 8 {
        return false;
    }
    let mut i: usize = 0;
    while i < 8
        invariant
            i <= 8,
            len == 8 == name@.len() == target@.len(),
            target@ == mutable_name(),
            forall|k: int| 0 <= k < i ==> name@[k] == target@[k],
        decreases 8 - i,
    {
        if name.get_char(i) != target.get_char(i) {
            assert(name@[i as int] != target@[i as int]);
            return false;
        }
        i = i + 1;
    }
    assert(name@ =~= target@);
    true
}

/// The target type of a declared type.
fn type_string(t: &Type) -> (r: String)
    ensures
        r@ == type_text(*t),
    decreases t,
{
    match t {
        Type::String => String::from_str("String"),
        Type::Number => String::from_str("i32"),
        Type::Boolean => String::from_str("bool"),
        Type::Array(elem) => {
            let mut out = String::from_str("Vec<");
            out.append(type_string(elem).as_str());
            out.append(">");
            out
        },
    }
}

fn op_str(op: BinaryOperator) -> (r: &'static str)
    ensures
        r@ == op_text(op),
{
    match op {
        BinaryOperator::Add => "+",
        BinaryOperator::Subtract => "-",
        BinaryOperator::Multiply => "*",
        BinaryOperator::Divide => "/",
        BinaryOperator::LessThan => "<",
        BinaryOperator::GreaterThan => ">",
    }
}

} // verus!
