//! Transpiles a C function body into a term of the optimiser's language.
//!
//! Every function here computes exactly what `crate::semantics` says of the
//! construct it is given.
use vstd::prelude::*;

use crate::ast::{
    BinaryOperator, BlockItem, Constant, Declaration, DeclaratorKind, Expression, ForInitializer,
    Initializer, IntegerBase, Label, LabeledStatement, Statement, UnaryOperator,
    constant_supported, decl_supported, declarators_supported, expr_supported, exprs_supported, for_init_supported, init_supported, inits_supported,
    item_supported, items_supported, label_supported, opt_expr_supported, stmt_supported,
};
use crate::bindings::{Bindings, names};
use crate::semantics::{
    Emitted, binary_assigns, binary_symbol, constant_text, declared_name, form1, form2, form3, form4, radix_text, tr_binary, tr_decl, tr_declarator_value, tr_declarators,
    tr_expr, tr_exprs, tr_for_init, tr_init, tr_inits, tr_item, tr_items, tr_label, tr_opt_expr,
    tr_stmt, unary_assigns, unary_symbol,
};
use crate::text::{i64_parse_radix, i64_to_decimal, join_strings};

verus! {

/// `r` holds the text and the assigned names of `e`, and `b` its environment.
pub open spec fn yields(r: (String, Vec<String>), b: Bindings, e: Emitted) -> bool {
    &&& r.0@ == e.text
    &&& names(r.1@) == e.mutated
    &&& b.wf()
    &&& b.view() == e.env
}

/// Transpiles the body of a C function, starting with no variable bound.
pub fn transpile(function: &Statement) -> (r: String)
    requires
        stmt_supported(*function),
    ensures
        r@ == tr_stmt(*function, Map::empty()).text,
{
    let mut variable_map = Bindings::new();
    let transpiled = transpile_statment(function, &mut variable_map);
    transpiled.0
}

fn form1_exec(head: &str, a: &str) -> (r: String)
    ensures
        r@ == form1(head@, a@),
{
    let mut r = String::from_str("(");
    r.append(head);
    r.append(" ");
    r.append(a);
    r.append(")");
    r
}

fn form2_exec(head: &str, a: &str, b: &str) -> (r: String)
    ensures
        r@ == form2(head@, a@, b@),
{
    let mut r = String::from_str("(");
    r.append(head);
    r.append(" ");
    r.append(a);
    r.append(" ");
    r.append(b);
    r.append(")");
    r
}

fn form3_exec(head: &str, a: &str, b: &str, c: &str) -> (r: String)
    ensures
        r@ == form3(head@, a@, b@, c@),
{
    let mut r = String::from_str("(");
    r.append(head);
    r.append(" ");
    r.append(a);
    r.append(" ");
    r.append(b);
    r.append(" ");
    r.append(c);
    r.append(")");
    r
}

fn form4_exec(head: &str, a: &str, b: &str, c: &str, d: &str) -> (r: String)
    ensures
        r@ == form4(head@, a@, b@, c@, d@),
{
    let mut r = String::from_str("(");
    r.append(head);
    r.append(" ");
    r.append(a);
    r.append(" ");
    r.append(b);
    r.append(" ");
    r.append(c);
    r.append(" ");
    r.append(d);
    r.append(")");
    r
}

fn ignore_exec() -> (r: (String, Vec<String>))
    ensures
        r.0@ == "(ignore)"@,
        names(r.1@) == Seq::<Seq<char>>::empty(),
{
    let v: Vec<String> = Vec::new();
    assert(names(v@) =~= Seq::<Seq<char>>::empty());
    (String::from_str("(ignore)"), v)
}

fn no_names() -> (v: Vec<String>)
    ensures
        names(v@) == Seq::<Seq<char>>::empty(),
{
    let v: Vec<String> = Vec::new();
    assert(names(v@) =~= Seq::<Seq<char>>::empty());
    v
}

/// Appends `b` to `a`, as names.
fn append_names(a: &mut Vec<String>, b: Vec<String>)
    ensures
        names(final(a)@) == names(old(a)@) + names(b@),
{
    let mut b = b;
    let ghost bv = b@;
    a.append(&mut b);
    assert(names(final(a)@) =~= names(old(a)@) + names(bv));
}

fn push_name(a: &mut Vec<String>, n: String)
    ensures
        names(final(a)@) == names(old(a)@).push(n@),
{
    a.push(n);
    assert(names(final(a)@) =~= names(old(a)@).push(n@));
}

fn radix_text_exec(digits: &String, radix: u32) -> (r: String)
    requires
        2 <= radix <= 36,
    ensures
        r@ == radix_text(digits@, radix as int),
{
    match i64_parse_radix(digits.as_str(), radix) {
        Some(v) => i64_to_decimal(v),
        None => String::from_str("0"),
    }
}

fn transpile_constant(c: &Constant) -> (r: String)
    requires
        constant_supported(*c),
    ensures
        r@ == constant_text(*c),
{
    match c {
        Constant::Integer { base, number } => match base {
            IntegerBase::Decimal => number.clone(),
            IntegerBase::Octal => radix_text_exec(number, 8),
            IntegerBase::Hexadecimal => radix_text_exec(number, 16),
            IntegerBase::Binary => radix_text_exec(number, 2),
        },
        Constant::Float { base: _, number } => number.clone(),
        Constant::Character(ch) => {
            let mut r = String::from_str("'");
            r.append(ch.as_str());
            r.append("'");
            r
        },
    }
}

fn unary_symbol_exec(op: UnaryOperator) -> (r: &'static str)
    ensures
        r@ == unary_symbol(op),
{
    match op {
        UnaryOperator::PostIncrement => "+",
        UnaryOperator::PostDecrement => "-",
        UnaryOperator::PreIncrement => "+",
        UnaryOperator::PreDecrement => "-",
        UnaryOperator::Address => "&",
        UnaryOperator::Indirection => "*",
        UnaryOperator::Plus => "+",
        UnaryOperator::Minus => "-",
        UnaryOperator::Complement => "~",
        UnaryOperator::Negate => "!",
    }
}

fn binary_symbol_exec(op: BinaryOperator) -> (r: &'static str)
    ensures
        r@ == binary_symbol(op),
{
    match op {
        BinaryOperator::Index => "index",
        BinaryOperator::Multiply => "*",
        BinaryOperator::Divide => "/",
        BinaryOperator::Modulo => "%",
        BinaryOperator::Plus => "+",
        BinaryOperator::Minus => "-",
        BinaryOperator::ShiftLeft => "<<",
        BinaryOperator::ShiftRight => ">>",
        BinaryOperator::Less => "<",
        BinaryOperator::Greater => ">",
        BinaryOperator::LessOrEqual => "<=",
        BinaryOperator::GreaterOrEqual => ">=",
        BinaryOperator::Equals => "==",
        BinaryOperator::NotEquals => "!=",
        BinaryOperator::BitwiseAnd => "&",
        BinaryOperator::BitwiseXor => "^",
        BinaryOperator::BitwiseOr => "|",
        BinaryOperator::LogicalAnd => "&&",
        BinaryOperator::LogicalOr => "||",
        BinaryOperator::Assign => "=",
        BinaryOperator::AssignMultiply => "*",
        BinaryOperator::AssignDivide => "/",
        BinaryOperator::AssignModulo => "%",
        BinaryOperator::AssignPlus => "+",
        BinaryOperator::AssignMinus => "-",
        BinaryOperator::AssignShiftLeft => "<<",
        BinaryOperator::AssignShiftRight => ">>",
        BinaryOperator::AssignBitwiseAnd => "&",
        BinaryOperator::AssignBitwiseXor => "^",
        BinaryOperator::AssignBitwiseOr => "|",
    }
}

fn unary_assigns_exec(op: UnaryOperator) -> (r: bool)
    ensures
        r == unary_assigns(op),
{
    match op {
        UnaryOperator::PostIncrement => true,
        UnaryOperator::PostDecrement => true,
        UnaryOperator::PreIncrement => true,
        UnaryOperator::PreDecrement => true,
        _ => false,
    }
}

fn binary_assigns_exec(op: BinaryOperator) -> (r: bool)
    ensures
        r == binary_assigns(op),
{
    match op {
        BinaryOperator::Assign => true,
        BinaryOperator::AssignMultiply => true,
        BinaryOperator::AssignDivide => true,
        BinaryOperator::AssignModulo => true,
        BinaryOperator::AssignPlus => true,
        BinaryOperator::AssignMinus => true,
        BinaryOperator::AssignShiftLeft => true,
        BinaryOperator::AssignShiftRight => true,
        BinaryOperator::AssignBitwiseAnd => true,
        BinaryOperator::AssignBitwiseXor => true,
        BinaryOperator::AssignBitwiseOr => true,
        _ => false,
    }
}

/// The variable an assignment to `target` updates.
fn target_name_exec(target: &Expression, text: &String) -> (r: String)
    ensures
        r@ == crate::semantics::target_name(*target, text@),
{
    match target {
        Expression::Identifier(n) => n.clone(),
        _ => text.clone(),
    }
}

/// Performs an assignment of `value` to `var` in `binding_map`.
fn assign_exec(
    var: String,
    value: String,
    mutated: Vec<String>,
    binding_map: &mut Bindings,
) -> (r: (String, Vec<String>))
    requires
        old(binding_map).wf(),
    ensures
        yields(
            r,
            *final(binding_map),
            crate::semantics::assignment(var@, value@, names(mutated@), old(binding_map).view()),
        ),
{
    let text = form2_exec("=", var.as_str(), value.as_str());
    binding_map.insert(var.clone(), value);
    let mut mutated = mutated;
    push_name(&mut mutated, var);
    (text, mutated)
}

fn transpile_unary(node: &Expression, binding_map: &mut Bindings) -> (r: (String, Vec<String>))
    requires
        old(binding_map).wf(),
        expr_supported(*node),
        node is UnaryOperator,
    ensures
        yields(r, *final(binding_map), tr_expr(*node, old(binding_map).view())),
    decreases node, 0int,
{
    match node {
        Expression::UnaryOperator { operator, operand } => {
            let statement = transpile_expr(operand, binding_map);
            let symbol = unary_symbol_exec(*operator);
            if unary_assigns_exec(*operator) {
                let var = target_name_exec(operand, &statement.0);
                let expr = form2_exec(symbol, statement.0.as_str(), "1");
                assign_exec(var, expr, statement.1, binding_map)
            } else {
                (form1_exec(symbol, statement.0.as_str()), statement.1)
            }
        },
        _ => {
            proof {
                assert(false);
            }
            ignore_exec()
        },
    }
}

fn transpile_binary(node: &Expression, binding_map: &mut Bindings) -> (r: (String, Vec<String>))
    requires
        old(binding_map).wf(),
        expr_supported(*node),
        node is BinaryOperator,
    ensures
        yields(r, *final(binding_map), tr_expr(*node, old(binding_map).view())),
    decreases node, 0int,
{
    match node {
        Expression::BinaryOperator { operator, lhs, rhs } => {
            let ghost env0 = binding_map.view();
            let lhs_t = transpile_expr(lhs, binding_map);
            let rhs_t = transpile_expr(rhs, binding_map);
            let ghost l = tr_expr(**lhs, env0);
            let ghost r = tr_expr(**rhs, l.env);
            let var_l = target_name_exec(lhs, &lhs_t.0);
            let mut mutated_vars = lhs_t.1;
            append_names(&mut mutated_vars, rhs_t.1);
            let op = *operator;
            if binary_assigns_exec(op) {
                let expr = if op == BinaryOperator::Assign {
                    rhs_t.0
                } else {
                    form2_exec(binary_symbol_exec(op), lhs_t.0.as_str(), rhs_t.0.as_str())
                };
                let res = assign_exec(var_l, expr, mutated_vars, binding_map);
                assert(tr_expr(*node, env0) == tr_binary(op, **lhs, l, r));
                res
            } else {
                (
                    form2_exec(binary_symbol_exec(op), lhs_t.0.as_str(), rhs_t.0.as_str()),
                    mutated_vars,
                )
            }
        },
        _ => {
            proof {
                assert(false);
            }
            ignore_exec()
        },
    }
}

/// The names assigned by `a`, `b` and `c`, in that order, forgotten by `binding_map`.
fn forget3(
    a: Vec<String>,
    b: Vec<String>,
    c: Vec<String>,
    binding_map: &mut Bindings,
) -> (r: Vec<String>)
    requires
        old(binding_map).wf(),
    ensures
        names(r@) == names(a@) + names(b@) + names(c@),
        final(binding_map).wf(),
        final(binding_map).view() == old(binding_map).view().remove_keys(names(r@).to_set()),
{
    let mut r = a;
    append_names(&mut r, b);
    append_names(&mut r, c);
    binding_map.remove_all(&r);
    r
}

fn transpile_conditional(node: &Expression, binding_map: &mut Bindings) -> (r: (
    String,
    Vec<String>,
))
    requires
        old(binding_map).wf(),
        expr_supported(*node),
        node is Conditional,
    ensures
        yields(r, *final(binding_map), tr_expr(*node, old(binding_map).view())),
    decreases node, 0int,
{
    match node {
        Expression::Conditional { condition, then_expression, else_expression } => {
            let cond = transpile_expr(condition, binding_map);
            let if_clause = transpile_expr(then_expression, binding_map);
            let else_clause = transpile_expr(else_expression, binding_map);
            let expr = form3_exec(
                "if",
                cond.0.as_str(),
                if_clause.0.as_str(),
                else_clause.0.as_str(),
            );
            let mutated_vars = forget3(cond.1, if_clause.1, else_clause.1, binding_map);
            (expr, mutated_vars)
        },
        _ => {
            proof {
                assert(false);
            }
            ignore_exec()
        },
    }
}

fn transpile_comma(node: &Expression, binding_map: &mut Bindings) -> (r: (String, Vec<String>))
    requires
        old(binding_map).wf(),
        expr_supported(*node),
        node is Comma,
    ensures
        yields(r, *final(binding_map), tr_expr(*node, old(binding_map).view())),
    decreases node, 0int,
{
    match node {
        Expression::Comma(exprs) => {
            if exprs.len() == 0 {
                return ignore_exec();
            }
            let ghost env0 = binding_map.view();
            let mut statements: Vec<String> = Vec::new();
            let mut mutated_vars = no_names();
            let mut i: usize = 0;
            while i < exprs.len()
                invariant
                    *node == Expression::Comma(*exprs),
                    exprs_supported(exprs@),
                    i <= exprs@.len(),
                    binding_map.wf(),
                    ({
                        let p = tr_exprs(exprs@.take(i as int), env0);
                        &&& names(statements@) == p.texts
                        &&& names(mutated_vars@) == p.mutated
                        &&& binding_map.view() == p.env
                    }),
                decreases exprs@.len() - i,
            {
                assert(exprs@.take(i + 1).drop_last() =~= exprs@.take(i as int));
                proof {
                    crate::ast::lemma_exprs_supported_at(exprs@, i as int);
                }
                assert(decreases_to!(*node => (*node)->Comma_0));
                assert(decreases_to!(*exprs => exprs@));
                assert(decreases_to!(exprs@ => exprs@[i as int]));
                let expr = transpile_expr(&exprs[i], binding_map);
                push_name(&mut statements, expr.0);
                append_names(&mut mutated_vars, expr.1);
                i = i + 1;
            }
            assert(exprs@.take(exprs@.len() as int) =~= exprs@);
            (form1_exec("compound", join_strings(&statements, " ").as_str()), mutated_vars)
        },
        _ => {
            proof {
                assert(false);
            }
            ignore_exec()
        },
    }
}

fn transpile_expr(node: &Expression, binding_map: &mut Bindings) -> (r: (String, Vec<String>))
    requires
        old(binding_map).wf(),
        expr_supported(*node),
    ensures
        yields(r, *final(binding_map), tr_expr(*node, old(binding_map).view())),
    decreases node, 1int,
{
    match node {
        Expression::Identifier(name) => {
            let text = match binding_map.get(name) {
                Some(v) => v,
                None => name.clone(),
            };
            (text, no_names())
        },
        Expression::Constant(c) => (transpile_constant(c), no_names()),
        Expression::StringLiteral(l) => (
            form1_exec("string", join_strings(l, " ").as_str()),
            no_names(),
        ),
        Expression::Member { expression, identifier } => {
            let struct_name = transpile_expr(expression, binding_map);
            (form2_exec("member", struct_name.0.as_str(), identifier.as_str()), struct_name.1)
        },
        Expression::Call => (String::from_str("(call)"), no_names()),
        Expression::SizeOfTy => (String::from_str("(sizeoftype)"), no_names()),
        Expression::SizeOfVal => (String::from_str("(sizeofexpr)"), no_names()),
        Expression::UnaryOperator { .. } => transpile_unary(node, binding_map),
        Expression::Cast { expression } => {
            let statement = transpile_expr(expression, binding_map);
            (form2_exec("cast", "temp", statement.0.as_str()), statement.1)
        },
        Expression::BinaryOperator { .. } => transpile_binary(node, binding_map),
        Expression::Conditional { .. } => transpile_conditional(node, binding_map),
        Expression::Comma(_) => transpile_comma(node, binding_map),
        Expression::Statement(s) => transpile_statment(s, binding_map),
        _ => {
            proof {
                assert(false);
            }
            ignore_exec()
        },
    }
}

fn transpile_opt_expr(node: &Option<Box<Expression>>, binding_map: &mut Bindings) -> (r: (
    String,
    Vec<String>,
))
    requires
        old(binding_map).wf(),
        opt_expr_supported(*node),
    ensures
        yields(r, *final(binding_map), tr_opt_expr(*node, old(binding_map).view())),
    decreases node, 1int,
{
    match node {
        Some(e) => transpile_expr(e, binding_map),
        None => ignore_exec(),
    }
}

fn transpile_statment(node: &Statement, binding_map: &mut Bindings) -> (r: (String, Vec<String>))
    requires
        old(binding_map).wf(),
        stmt_supported(*node),
    ensures
        yields(r, *final(binding_map), tr_stmt(*node, old(binding_map).view())),
    decreases node, 1int,
{
    match node {
        Statement::Labeled(l) => transpile_label(l, binding_map),
        Statement::Compound(_) => transpile_compound(node, binding_map),
        Statement::Expression(e) => transpile_opt_expr(e, binding_map),
        Statement::If { condition, then_statement, else_statement } => {
            let cond = transpile_expr(condition, binding_map);
            let if_clause = transpile_statment(then_statement, binding_map);
            let else_clause = match else_statement {
                Some(s) => transpile_statment(s, binding_map),
                None => ignore_exec(),
            };
            let expr = form3_exec(
                "if",
                cond.0.as_str(),
                if_clause.0.as_str(),
                else_clause.0.as_str(),
            );
            let mutated_vars = forget3(cond.1, if_clause.1, else_clause.1, binding_map);
            (expr, mutated_vars)
        },
        Statement::Switch { expression, statement } => {
            let cond = transpile_expr(expression, binding_map);
            let body = transpile_statment(statement, binding_map);
            let expr = form2_exec("switch", cond.0.as_str(), body.0.as_str());
            let mutated_vars = forget3(cond.1, body.1, no_names(), binding_map);
            (expr, mutated_vars)
        },
        Statement::While { expression, statement } => {
            let cond = transpile_expr(expression, binding_map);
            let body = transpile_statment(statement, binding_map);
            let expr = form2_exec("while", cond.0.as_str(), body.0.as_str());
            let mutated_vars = forget3(cond.1, body.1, no_names(), binding_map);
            (expr, mutated_vars)
        },
        Statement::DoWhile { statement, expression } => {
            let cond = transpile_expr(expression, binding_map);
            let body = transpile_statment(statement, binding_map);
            let expr = form2_exec("do-while", cond.0.as_str(), body.0.as_str());
            let mutated_vars = forget3(cond.1, body.1, no_names(), binding_map);
            (expr, mutated_vars)
        },
        Statement::For { .. } => transpile_for(node, binding_map),
        Statement::Goto(id) => {
            let expr = form1_exec("goto", id.as_str());
            binding_map.clear();
            (expr, no_names())
        },
        Statement::Continue => (String::from_str("(continue)"), no_names()),
        Statement::Break => (String::from_str("(break)"), no_names()),
        Statement::Return(None) => (String::from_str("(return null)"), no_names()),
        Statement::Return(Some(b)) => {
            assert(opt_expr_supported(Some(*b)));
            let statement = transpile_expr(b, binding_map);
            (form1_exec("return", statement.0.as_str()), statement.1)
        },
        Statement::Asm => (String::from_str("(asm)"), no_names()),
    }
}

fn transpile_compound(node: &Statement, binding_map: &mut Bindings) -> (r: (String, Vec<String>))
    requires
        old(binding_map).wf(),
        stmt_supported(*node),
        node is Compound,
    ensures
        yields(r, *final(binding_map), tr_stmt(*node, old(binding_map).view())),
    decreases node, 0int,
{
    match node {
        Statement::Compound(items) => {
            if items.len() == 0 {
                return ignore_exec();
            }
            let ghost env0 = binding_map.view();
            let mut statements: Vec<String> = Vec::new();
            let mut mutated_vars = no_names();
            let mut i: usize = 0;
            while i < items.len()
                invariant
                    *node == Statement::Compound(*items),
                    items_supported(items@),
                    i <= items@.len(),
                    binding_map.wf(),
                    ({
                        let p = tr_items(items@.take(i as int), env0);
                        &&& names(statements@) == p.texts
                        &&& names(mutated_vars@) == p.mutated
                        &&& binding_map.view() == p.env
                    }),
                decreases items@.len() - i,
            {
                assert(items@.take(i + 1).drop_last() =~= items@.take(i as int));
                proof {
                    crate::ast::lemma_items_supported_at(items@, i as int);
                }
                assert(decreases_to!(*node => (*node)->Compound_0));
                assert(decreases_to!(*items => items@));
                assert(decreases_to!(items@ => items@[i as int]));
                let expr = transpile_block_item(&items[i], binding_map);
                push_name(&mut statements, expr.0);
                append_names(&mut mutated_vars, expr.1);
                i = i + 1;
            }
            assert(items@.take(items@.len() as int) =~= items@);
            (form1_exec("compound", join_strings(&statements, " ").as_str()), mutated_vars)
        },
        _ => {
            proof {
                assert(false);
            }
            ignore_exec()
        },
    }
}

fn transpile_for(node: &Statement, binding_map: &mut Bindings) -> (r: (String, Vec<String>))
    requires
        old(binding_map).wf(),
        stmt_supported(*node),
        node is For,
    ensures
        yields(r, *final(binding_map), tr_stmt(*node, old(binding_map).view())),
    decreases node, 0int,
{
    match node {
        Statement::For { initializer, condition, step, statement } => {
            let initialiser = transpile_for_initialiser(initializer, binding_map);
            let cond = transpile_opt_expr(condition, binding_map);
            let step = transpile_opt_expr(step, binding_map);
            binding_map.remove_all(&step.1);
            let body = transpile_statment(statement, binding_map);
            let expr = form4_exec(
                "for",
                initialiser.0.as_str(),
                cond.0.as_str(),
                step.0.as_str(),
                body.0.as_str(),
            );
            let mut mutated_vars = initialiser.1;
            append_names(&mut mutated_vars, cond.1);
            append_names(&mut mutated_vars, body.1);
            append_names(&mut mutated_vars, step.1);
            binding_map.remove_all(&mutated_vars);
            (expr, mutated_vars)
        },
        _ => {
            proof {
                assert(false);
            }
            ignore_exec()
        },
    }
}

fn transpile_label(node: &LabeledStatement, binding_map: &mut Bindings) -> (r: (
    String,
    Vec<String>,
))
    requires
        old(binding_map).wf(),
        label_supported(*node),
    ensures
        yields(r, *final(binding_map), tr_label(*node, old(binding_map).view())),
    decreases node, 1int,
{
    match &node.label {
        Label::Identifier(i) => {
            let expr = transpile_statment(&node.statement, binding_map);
            (form2_exec("label", i.as_str(), expr.0.as_str()), expr.1)
        },
        Label::Case(expr) => {
            let statement = transpile_statment(&node.statement, binding_map);
            let case = transpile_expr(expr, binding_map);
            (form2_exec("case", case.0.as_str(), statement.0.as_str()), statement.1)
        },
        Label::CaseRange => {
            proof {
                assert(false);
            }
            ignore_exec()
        },
        Label::Default => {
            let statement = transpile_statment(&node.statement, binding_map);
            (form2_exec("case", "default", statement.0.as_str()), statement.1)
        },
    }
}

fn transpile_block_item(node: &BlockItem, binding_map: &mut Bindings) -> (r: (String, Vec<String>))
    requires
        old(binding_map).wf(),
        item_supported(*node),
    ensures
        yields(r, *final(binding_map), tr_item(*node, old(binding_map).view())),
    decreases node, 1int,
{
    match node {
        BlockItem::Declaration(d) => transpile_declaration(d, binding_map),
        BlockItem::Statement(s) => transpile_statment(s, binding_map),
        BlockItem::StaticAssert => {
            proof {
                assert(false);
            }
            ignore_exec()
        },
    }
}

fn transpile_declaration(node: &Declaration, binding_map: &mut Bindings) -> (r: (
    String,
    Vec<String>,
))
    requires
        old(binding_map).wf(),
        decl_supported(*node),
    ensures
        yields(r, *final(binding_map), tr_decl(*node, old(binding_map).view())),
    decreases node, 1int,
{
    let ghost env0 = binding_map.view();
    let mut declarations: Vec<String> = Vec::new();
    let mut mutated_vars: Vec<String> = Vec::new();
    let mut i: usize = 0;
    while i < node.declarators.len()
        invariant
            declarators_supported(node.declarators@),
            i <= node.declarators@.len(),
            binding_map.wf(),
            ({
                let p = tr_declarators(node.declarators@.take(i as int), env0);
                &&& names(declarations@) == p.texts
                &&& names(mutated_vars@) == p.mutated
                &&& binding_map.view() == p.env
            }),
        decreases node.declarators@.len() - i,
    {
        let decl = &node.declarators[i];
        assert(node.declarators@.take(i + 1).drop_last() =~= node.declarators@.take(i as int));
        proof {
            crate::ast::lemma_declarators_supported_at(node.declarators@, i as int);
        }
        let name = transpile_declaration_kind(&decl.kind);
        let expression = match &decl.initializer {
            Some(init) => transpile_initialiser(init, binding_map),
            None => (String::from_str("null"), no_names()),
        };
        assert(expression.0@ == tr_declarator_value(*decl, tr_declarators(
            node.declarators@.take(i as int),
            env0,
        ).env).text);
        assert(names(expression.1@) == tr_declarator_value(*decl, tr_declarators(
            node.declarators@.take(i as int),
            env0,
        ).env).mutated);
        append_names(&mut mutated_vars, expression.1);
        binding_map.insert(name.clone(), expression.0.clone());
        push_name(&mut declarations, form2_exec("declaration", name.as_str(), expression.0.as_str()));
        i = i + 1;
    }
    assert(node.declarators@.take(node.declarators@.len() as int) =~= node.declarators@);
    (join_strings(&declarations, " "), mutated_vars)
}

fn transpile_declaration_kind(node: &DeclaratorKind) -> (r: String)
    requires
        node is Identifier,
    ensures
        r@ == declared_name(*node),
{
    match node {
        DeclaratorKind::Identifier(i) => i.clone(),
        _ => {
            proof {
                assert(false);
            }
            String::new()
        },
    }
}

fn transpile_initialiser(node: &Initializer, binding_map: &mut Bindings) -> (r: (
    String,
    Vec<String>,
))
    requires
        old(binding_map).wf(),
        init_supported(*node),
    ensures
        yields(r, *final(binding_map), tr_init(*node, old(binding_map).view())),
    decreases node, 1int,
{
    match node {
        Initializer::Expression(expr) => transpile_expr(expr, binding_map),
        Initializer::List(items) => {
            let ghost env0 = binding_map.view();
            let mut initialisers: Vec<String> = Vec::new();
            let mut mutated_vars = no_names();
            let mut i: usize = 0;
            while i < items.len()
                invariant
                    *node == Initializer::List(*items),
                    inits_supported(items@),
                    i <= items@.len(),
                    binding_map.wf(),
                    ({
                        let p = tr_inits(items@.take(i as int), env0);
                        &&& names(initialisers@) == p.texts
                        &&& names(mutated_vars@) == p.mutated
                        &&& binding_map.view() == p.env
                    }),
                decreases items@.len() - i,
            {
                assert(items@.take(i + 1).drop_last() =~= items@.take(i as int));
                proof {
                    crate::ast::lemma_inits_supported_at(items@, i as int);
                }
                assert(decreases_to!(*node => (*node)->List_0));
                assert(decreases_to!(*items => items@));
                assert(decreases_to!(items@ => items@[i as int]));
                let init = transpile_initialiser(&items[i], binding_map);
                push_name(&mut initialisers, init.0);
                append_names(&mut mutated_vars, init.1);
                i = i + 1;
            }
            assert(items@.take(items@.len() as int) =~= items@);
            (form1_exec("list", join_strings(&initialisers, " ").as_str()), mutated_vars)
        },
    }
}

fn transpile_for_initialiser(node: &ForInitializer, binding_map: &mut Bindings) -> (r: (
    String,
    Vec<String>,
))
    requires
        old(binding_map).wf(),
        for_init_supported(*node),
    ensures
        yields(r, *final(binding_map), tr_for_init(*node, old(binding_map).view())),
    decreases node, 1int,
{
    match node {
        ForInitializer::Empty => ignore_exec(),
        ForInitializer::Expression(expr) => transpile_expr(expr, binding_map),
        ForInitializer::Declaration(expr) => transpile_declaration(expr, binding_map),
        ForInitializer::StaticAssert => {
            proof {
                assert(false);
            }
            ignore_exec()
        },
    }
}

} // verus!
