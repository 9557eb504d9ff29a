//! What the transpiler produces for each C construct.
//!
//! Transpilation threads an environment (variable name to the term text last
//! assigned to it) through the tree from left to right.  Each construct
//! yields its term text, the names it assigns (in order), and the environment
//! after it.  A read of a bound variable yields the bound text, which is how
//! assignments are substituted into later uses.
use vstd::prelude::*;

use crate::ast::{
    BinaryOperator, BlockItem, Constant, Declaration, DeclaratorKind, Expression, ForInitializer,
    InitDeclarator, Initializer, IntegerBase, Label, LabeledStatement, Statement, UnaryOperator,
};
use crate::text::{i64_from_radix, int_decimal, join};

verus! {

/// Variable names to the term text last assigned to them.
pub type Env = Map<Seq<char>, Seq<char>>;

/// The result of transpiling one construct.
pub struct Emitted {
    pub text: Seq<char>,
    pub mutated: Seq<Seq<char>>,
    pub env: Env,
}

/// The results of transpiling a list of constructs one after the other.
pub struct Pieces {
    pub texts: Seq<Seq<char>>,
    pub mutated: Seq<Seq<char>>,
    pub env: Env,
}

pub open spec fn emitted(text: Seq<char>, mutated: Seq<Seq<char>>, env: Env) -> Emitted {
    Emitted { text, mutated, env }
}

/// `(ignore)`, assigning nothing.
pub open spec fn ignored(env: Env) -> Emitted {
    emitted("(ignore)"@, Seq::empty(), env)
}

/// `(head a)`
pub open spec fn form1(head: Seq<char>, a: Seq<char>) -> Seq<char> {
    "("@ + head + " "@ + a + ")"@
}

/// `(head a b)`
pub open spec fn form2(head: Seq<char>, a: Seq<char>, b: Seq<char>) -> Seq<char> {
    "("@ + head + " "@ + a + " "@ + b + ")"@
}

/// `(head a b c)`
pub open spec fn form3(head: Seq<char>, a: Seq<char>, b: Seq<char>, c: Seq<char>) -> Seq<char> {
    "("@ + head + " "@ + a + " "@ + b + " "@ + c + ")"@
}

/// `(head a b c d)`
pub open spec fn form4(
    head: Seq<char>,
    a: Seq<char>,
    b: Seq<char>,
    c: Seq<char>,
    d: Seq<char>,
) -> Seq<char> {
    "("@ + head + " "@ + a + " "@ + b + " "@ + c + " "@ + d + ")"@
}

/// The decimal text of the number `digits` denote in `radix`, `0` when they denote none.
pub open spec fn radix_text(digits: Seq<char>, radix: int) -> Seq<char> {
    match i64_from_radix(digits, radix) {
        Some(v) => int_decimal(v),
        None => "0"@,
    }
}

/// The term text of a constant.
pub open spec fn constant_text(c: Constant) -> Seq<char> {
    match c {
        Constant::Integer { base, number } => match base {
            IntegerBase::Decimal => number@,
            IntegerBase::Octal => radix_text(number@, 8),
            IntegerBase::Hexadecimal => radix_text(number@, 16),
            IntegerBase::Binary => radix_text(number@, 2),
        },
        Constant::Float { number, .. } => number@,
        Constant::Character(ch) => "'"@ + ch@ + "'"@,
    }
}

/// The operator of the term for a unary operator.
pub open spec fn unary_symbol(op: UnaryOperator) -> Seq<char> {
    match op {
        UnaryOperator::PostIncrement => "+"@,
        UnaryOperator::PostDecrement => "-"@,
        UnaryOperator::PreIncrement => "+"@,
        UnaryOperator::PreDecrement => "-"@,
        UnaryOperator::Address => "&"@,
        UnaryOperator::Indirection => "*"@,
        UnaryOperator::Plus => "+"@,
        UnaryOperator::Minus => "-"@,
        UnaryOperator::Complement => "~"@,
        UnaryOperator::Negate => "!"@,
    }
}

/// Unary operators that assign to their operand.
pub open spec fn unary_assigns(op: UnaryOperator) -> bool {
    match op {
        UnaryOperator::PostIncrement => true,
        UnaryOperator::PostDecrement => true,
        UnaryOperator::PreIncrement => true,
        UnaryOperator::PreDecrement => true,
        _ => false,
    }
}

/// The operator of the term for a binary operator (for `=`, unused).
pub open spec fn binary_symbol(op: BinaryOperator) -> Seq<char> {
    match op {
        BinaryOperator::Index => "index"@,
        BinaryOperator::Multiply => "*"@,
        BinaryOperator::Divide => "/"@,
        BinaryOperator::Modulo => "%"@,
        BinaryOperator::Plus => "+"@,
        BinaryOperator::Minus => "-"@,
        BinaryOperator::ShiftLeft => "<<"@,
        BinaryOperator::ShiftRight => ">>"@,
        BinaryOperator::Less => "<"@,
        BinaryOperator::Greater => ">"@,
        BinaryOperator::LessOrEqual => "<="@,
        BinaryOperator::GreaterOrEqual => ">="@,
        BinaryOperator::Equals => "=="@,
        BinaryOperator::NotEquals => "!="@,
        BinaryOperator::BitwiseAnd => "&"@,
        BinaryOperator::BitwiseXor => "^"@,
        BinaryOperator::BitwiseOr => "|"@,
        BinaryOperator::LogicalAnd => "&&"@,
        BinaryOperator::LogicalOr => "||"@,
        BinaryOperator::Assign => "="@,
        BinaryOperator::AssignMultiply => "*"@,
        BinaryOperator::AssignDivide => "/"@,
        BinaryOperator::AssignModulo => "%"@,
        BinaryOperator::AssignPlus => "+"@,
        BinaryOperator::AssignMinus => "-"@,
        BinaryOperator::AssignShiftLeft => "<<"@,
        BinaryOperator::AssignShiftRight => ">>"@,
        BinaryOperator::AssignBitwiseAnd => "&"@,
        BinaryOperator::AssignBitwiseXor => "^"@,
        BinaryOperator::AssignBitwiseOr => "|"@,
    }
}

/// Binary operators transpiled as an assignment to their left operand.
pub open spec fn binary_assigns(op: BinaryOperator) -> bool {
    match op {
        BinaryOperator::Assign => true,
        BinaryOperator::AssignMultiply => true,
        BinaryOperator::AssignDivide => true,
        BinaryOperator::AssignModulo => true,
        BinaryOperator::AssignPlus => true,
        BinaryOperator::AssignMinus => true,
        BinaryOperator::AssignShiftLeft => true,
        BinaryOperator::AssignShiftRight => true,
        BinaryOperator::AssignBitwiseAnd => true,
        BinaryOperator::AssignBitwiseXor => true,
        BinaryOperator::AssignBitwiseOr => true,
        _ => false,
    }
}

/// The variable an assignment to `target` updates: its name when it is an
/// identifier, otherwise the target's own term text.
pub open spec fn target_name(target: Expression, text: Seq<char>) -> Seq<char> {
    match target {
        Expression::Identifier(n) => n@,
        _ => text,
    }
}

/// An assignment of `value` to `var`: the term `(= var value)`, `var` added to
/// the assigned names and bound to `value`.
pub open spec fn assignment(
    var: Seq<char>,
    value: Seq<char>,
    mutated: Seq<Seq<char>>,
    env: Env,
) -> Emitted {
    emitted(form2("="@, var, value), mutated.push(var), env.insert(var, value))
}

/// A construct with branches or a loop body: the names assigned anywhere in it
/// are unbound after it.
pub open spec fn forgetting(text: Seq<char>, mutated: Seq<Seq<char>>, env: Env) -> Emitted {
    emitted(text, mutated, env.remove_keys(mutated.to_set()))
}

pub open spec fn tr_unary(op: UnaryOperator, operand: Expression, r: Emitted) -> Emitted {
    if unary_assigns(op) {
        let var = target_name(operand, r.text);
        assignment(var, form2(unary_symbol(op), r.text, "1"@), r.mutated, r.env)
    } else {
        emitted(form1(unary_symbol(op), r.text), r.mutated, r.env)
    }
}

pub open spec fn tr_binary(op: BinaryOperator, lhs: Expression, l: Emitted, r: Emitted) -> Emitted {
    let mutated = l.mutated + r.mutated;
    if binary_assigns(op) {
        let var = target_name(lhs, l.text);
        let value = if op == BinaryOperator::Assign {
            r.text
        } else {
            form2(binary_symbol(op), l.text, r.text)
        };
        assignment(var, value, mutated, r.env)
    } else {
        emitted(form2(binary_symbol(op), l.text, r.text), mutated, r.env)
    }
}

/// The transpilation of an expression in environment `env`.
pub open spec fn tr_expr(e: Expression, env: Env) -> Emitted
    decreases e,
{
    match e {
        Expression::Identifier(n) => {
            let text = if env.contains_key(n@) {
                env[n@]
            } else {
                n@
            };
            emitted(text, Seq::empty(), env)
        },
        Expression::Constant(c) => emitted(constant_text(c), Seq::empty(), env),
        Expression::StringLiteral(parts) => emitted(
            form1("string"@, join(crate::bindings::names(parts@), " "@)),
            Seq::empty(),
            env,
        ),
        Expression::Member { expression, identifier } => {
            let r = tr_expr(*expression, env);
            emitted(form2("member"@, r.text, identifier@), r.mutated, r.env)
        },
        Expression::Call => emitted("(call)"@, Seq::empty(), env),
        Expression::SizeOfTy => emitted("(sizeoftype)"@, Seq::empty(), env),
        Expression::SizeOfVal => emitted("(sizeofexpr)"@, Seq::empty(), env),
        Expression::UnaryOperator { operator, operand } => tr_unary(
            operator,
            *operand,
            tr_expr(*operand, env),
        ),
        Expression::Cast { expression } => {
            let r = tr_expr(*expression, env);
            emitted(form2("cast"@, "temp"@, r.text), r.mutated, r.env)
        },
        Expression::BinaryOperator { operator, lhs, rhs } => {
            let l = tr_expr(*lhs, env);
            let r = tr_expr(*rhs, l.env);
            tr_binary(operator, *lhs, l, r)
        },
        Expression::Conditional { condition, then_expression, else_expression } => {
            let c = tr_expr(*condition, env);
            let t = tr_expr(*then_expression, c.env);
            let f = tr_expr(*else_expression, t.env);
            forgetting(
                form3("if"@, c.text, t.text, f.text),
                c.mutated + t.mutated + f.mutated,
                f.env,
            )
        },
        Expression::Comma(v) => {
            if v.len() == 0 {
                ignored(env)
            } else {
                let p = tr_exprs(v@, env);
                emitted(form1("compound"@, join(p.texts, " "@)), p.mutated, p.env)
            }
        },
        Expression::Statement(s) => tr_stmt(*s, env),
        // Not handled by the transpiler (`expr_supported` rules these out).
        _ => ignored(env),
    }
}

/// The transpilations of expressions one after the other.
pub open spec fn tr_exprs(s: Seq<Expression>, env: Env) -> Pieces
    decreases s,
{
    if s.len() == 0 {
        Pieces { texts: Seq::empty(), mutated: Seq::empty(), env }
    } else {
        let p = tr_exprs(s.drop_last(), env);
        let r = tr_expr(s.last(), p.env);
        Pieces { texts: p.texts.push(r.text), mutated: p.mutated + r.mutated, env: r.env }
    }
}

/// An optional expression; `(ignore)` when absent.
pub open spec fn tr_opt_expr(e: Option<Box<Expression>>, env: Env) -> Emitted
    decreases e,
{
    match e {
        Some(b) => tr_expr(*b, env),
        None => ignored(env),
    }
}

/// An initializer.
pub open spec fn tr_init(i: Initializer, env: Env) -> Emitted
    decreases i,
{
    match i {
        Initializer::Expression(e) => tr_expr(*e, env),
        Initializer::List(v) => {
            let p = tr_inits(v@, env);
            emitted(form1("list"@, join(p.texts, " "@)), p.mutated, p.env)
        },
    }
}

pub open spec fn tr_inits(s: Seq<Initializer>, env: Env) -> Pieces
    decreases s,
{
    if s.len() == 0 {
        Pieces { texts: Seq::empty(), mutated: Seq::empty(), env }
    } else {
        let p = tr_inits(s.drop_last(), env);
        let r = tr_init(s.last(), p.env);
        Pieces { texts: p.texts.push(r.text), mutated: p.mutated + r.mutated, env: r.env }
    }
}

/// The name a declarator declares.
pub open spec fn declared_name(k: DeclaratorKind) -> Seq<char> {
    match k {
        DeclaratorKind::Identifier(n) => n@,
        _ => Seq::empty(),
    }
}

/// The value a declarator binds its name to, `null` without initializer.
pub open spec fn tr_declarator_value(d: InitDeclarator, env: Env) -> Emitted
    decreases d,
{
    match d.initializer {
        Some(i) => tr_init(i, env),
        None => emitted("null"@, Seq::empty(), env),
    }
}

/// Declarators one after the other: each yields `(declaration name value)`
/// and binds the name to the value; the names assigned inside initializers
/// are reported, the declared names are not.
pub open spec fn tr_declarators(s: Seq<InitDeclarator>, env: Env) -> Pieces
    decreases s,
{
    if s.len() == 0 {
        Pieces { texts: Seq::empty(), mutated: Seq::empty(), env }
    } else {
        let p = tr_declarators(s.drop_last(), env);
        let name = declared_name(s.last().kind);
        let x = tr_declarator_value(s.last(), p.env);
        Pieces {
            texts: p.texts.push(form2("declaration"@, name, x.text)),
            mutated: p.mutated + x.mutated,
            env: x.env.insert(name, x.text),
        }
    }
}

/// A declaration: its declarators' terms separated by spaces.
pub open spec fn tr_decl(d: Declaration, env: Env) -> Emitted
    decreases d,
{
    let p = tr_declarators(d.declarators@, env);
    emitted(join(p.texts, " "@), p.mutated, p.env)
}

/// The first element of a `for` statement.
pub open spec fn tr_for_init(f: ForInitializer, env: Env) -> Emitted
    decreases f,
{
    match f {
        ForInitializer::Empty => ignored(env),
        ForInitializer::Expression(e) => tr_expr(*e, env),
        ForInitializer::Declaration(d) => tr_decl(d, env),
        ForInitializer::StaticAssert => ignored(env),
    }
}

/// An element of a compound statement.
pub open spec fn tr_item(b: BlockItem, env: Env) -> Emitted
    decreases b,
{
    match b {
        BlockItem::Declaration(d) => tr_decl(d, env),
        BlockItem::Statement(s) => tr_stmt(s, env),
        BlockItem::StaticAssert => ignored(env),
    }
}

pub open spec fn tr_items(s: Seq<BlockItem>, env: Env) -> Pieces
    decreases s,
{
    if s.len() == 0 {
        Pieces { texts: Seq::empty(), mutated: Seq::empty(), env }
    } else {
        let p = tr_items(s.drop_last(), env);
        let r = tr_item(s.last(), p.env);
        Pieces { texts: p.texts.push(r.text), mutated: p.mutated + r.mutated, env: r.env }
    }
}

/// A labeled statement.  A `case` label is transpiled after its statement.
pub open spec fn tr_label(l: LabeledStatement, env: Env) -> Emitted
    decreases l,
{
    let r = tr_stmt(*l.statement, env);
    match l.label {
        Label::Identifier(n) => emitted(form2("label"@, n@, r.text), r.mutated, r.env),
        Label::Case(e) => {
            let c = tr_expr(*e, r.env);
            emitted(form2("case"@, c.text, r.text), r.mutated, c.env)
        },
        Label::Default => emitted(form2("case"@, "default"@, r.text), r.mutated, r.env),
        Label::CaseRange => ignored(env),
    }
}

/// The transpilation of a statement in environment `env`.
pub open spec fn tr_stmt(s: Statement, env: Env) -> Emitted
    decreases s,
{
    match s {
        Statement::Labeled(l) => tr_label(l, env),
        Statement::Compound(v) => {
            if v.len() == 0 {
                ignored(env)
            } else {
                let p = tr_items(v@, env);
                emitted(form1("compound"@, join(p.texts, " "@)), p.mutated, p.env)
            }
        },
        Statement::Expression(e) => tr_opt_expr(e, env),
        Statement::If { condition, then_statement, else_statement } => {
            let c = tr_expr(*condition, env);
            let t = tr_stmt(*then_statement, c.env);
            let f = match else_statement {
                Some(b) => tr_stmt(*b, t.env),
                None => ignored(t.env),
            };
            forgetting(
                form3("if"@, c.text, t.text, f.text),
                c.mutated + t.mutated + f.mutated,
                f.env,
            )
        },
        Statement::Switch { expression, statement } => {
            let c = tr_expr(*expression, env);
            let b = tr_stmt(*statement, c.env);
            forgetting(form2("switch"@, c.text, b.text), c.mutated + b.mutated, b.env)
        },
        Statement::While { expression, statement } => {
            let c = tr_expr(*expression, env);
            let b = tr_stmt(*statement, c.env);
            forgetting(form2("while"@, c.text, b.text), c.mutated + b.mutated, b.env)
        },
        Statement::DoWhile { statement, expression } => {
            let c = tr_expr(*expression, env);
            let b = tr_stmt(*statement, c.env);
            forgetting(form2("do-while"@, c.text, b.text), c.mutated + b.mutated, b.env)
        },
        Statement::For { initializer, condition, step, statement } => {
            let i = tr_for_init(initializer, env);
            let c = tr_opt_expr(condition, i.env);
            let st = tr_opt_expr(step, c.env);
            let b = tr_stmt(*statement, st.env.remove_keys(st.mutated.to_set()));
            forgetting(
                form4("for"@, i.text, c.text, st.text, b.text),
                i.mutated + c.mutated + b.mutated + st.mutated,
                b.env,
            )
        },
        Statement::Goto(n) => emitted(form1("goto"@, n@), Seq::empty(), Map::empty()),
        Statement::Continue => emitted("(continue)"@, Seq::empty(), env),
        Statement::Break => emitted("(break)"@, Seq::empty(), env),
        Statement::Return(None) => emitted("(return null)"@, Seq::empty(), env),
        Statement::Return(Some(e)) => {
            let r = tr_expr(*e, env);
            emitted(form1("return"@, r.text), r.mutated, r.env)
        },
        Statement::Asm => emitted("(asm)"@, Seq::empty(), env),
    }
}

/// The term of a function body, transpiled in an empty environment.
pub open spec fn function_term(body: Statement) -> Seq<char> {
    tr_stmt(body, Map::empty()).text
}

} // verus!
