//! The variables a piece of C code assigns, read off its syntax, and what the
//! transpiler does with them: every one is reported, and none stays bound
//! after a branch, a loop or a conditional expression that assigns it.
use vstd::prelude::*;

use crate::ast::{
    BinaryOperator, BlockItem, Declaration, Expression, ForInitializer, InitDeclarator,
    Initializer, Label, LabeledStatement, Statement, UnaryOperator,
};
use crate::semantics::{
    Env, tr_decl, tr_declarator_value, tr_declarators, tr_expr, tr_exprs, tr_for_init, tr_init,
    tr_inits, tr_item, tr_items, tr_label, tr_opt_expr, tr_stmt,
};

verus! {

/// `++` and `--`, prefix or postfix: the unary operators of C that assign.
pub open spec fn is_increment(op: UnaryOperator) -> bool {
    ||| op == UnaryOperator::PreIncrement
    ||| op == UnaryOperator::PreDecrement
    ||| op == UnaryOperator::PostIncrement
    ||| op == UnaryOperator::PostDecrement
}

/// `=` and the compound assignments `op=`: the binary operators of C that
/// assign.
pub open spec fn is_assignment(op: BinaryOperator) -> bool {
    ||| op == BinaryOperator::Assign
    ||| op == BinaryOperator::AssignMultiply
    ||| op == BinaryOperator::AssignDivide
    ||| op == BinaryOperator::AssignModulo
    ||| op == BinaryOperator::AssignPlus
    ||| op == BinaryOperator::AssignMinus
    ||| op == BinaryOperator::AssignShiftLeft
    ||| op == BinaryOperator::AssignShiftRight
    ||| op == BinaryOperator::AssignBitwiseAnd
    ||| op == BinaryOperator::AssignBitwiseXor
    ||| op == BinaryOperator::AssignBitwiseOr
}

/// `e` is the variable named `x`.
pub open spec fn names_variable(e: Expression, x: Seq<char>) -> bool {
    e is Identifier && e->Identifier_0@ == x
}

/// Somewhere in `e`, the variable `x` is assigned by `=`, `op=`, `++` or `--`.
pub open spec fn expr_assigns(e: Expression, x: Seq<char>) -> bool
    decreases e,
{
    match e {
        Expression::Member { expression, .. } => expr_assigns(*expression, x),
        Expression::UnaryOperator { operator, operand } => (is_increment(operator)
            && names_variable(*operand, x)) || expr_assigns(*operand, x),
        Expression::Cast { expression } => expr_assigns(*expression, x),
        Expression::BinaryOperator { operator, lhs, rhs } => (is_assignment(operator)
            && names_variable(*lhs, x)) || expr_assigns(*lhs, x) || expr_assigns(*rhs, x),
        Expression::Conditional { condition, then_expression, else_expression } => expr_assigns(
            *condition,
            x,
        ) || expr_assigns(*then_expression, x) || expr_assigns(*else_expression, x),
        Expression::Comma(v) => exprs_assign(v@, x),
        Expression::Statement(s) => stmt_assigns(*s, x),
        _ => false,
    }
}

pub open spec fn exprs_assign(s: Seq<Expression>, x: Seq<char>) -> bool
    decreases s,
{
    if s.len() == 0 {
        false
    } else {
        exprs_assign(s.drop_last(), x) || expr_assigns(s.last(), x)
    }
}

pub open spec fn opt_expr_assigns(e: Option<Box<Expression>>, x: Seq<char>) -> bool
    decreases e,
{
    match e {
        Some(b) => expr_assigns(*b, x),
        None => false,
    }
}

pub open spec fn init_assigns(i: Initializer, x: Seq<char>) -> bool
    decreases i,
{
    match i {
        Initializer::Expression(e) => expr_assigns(*e, x),
        Initializer::List(v) => inits_assign(v@, x),
    }
}

pub open spec fn inits_assign(s: Seq<Initializer>, x: Seq<char>) -> bool
    decreases s,
{
    if s.len() == 0 {
        false
    } else {
        inits_assign(s.drop_last(), x) || init_assigns(s.last(), x)
    }
}

/// An initializer of one of the declarators assigns `x` (a declaration itself
/// binds its names without assigning them).
pub open spec fn declarators_assign(s: Seq<InitDeclarator>, x: Seq<char>) -> bool
    decreases s,
{
    if s.len() == 0 {
        false
    } else {
        declarators_assign(s.drop_last(), x) || match s.last().initializer {
            Some(i) => init_assigns(i, x),
            None => false,
        }
    }
}

pub open spec fn decl_assigns(d: Declaration, x: Seq<char>) -> bool
    decreases d,
{
    declarators_assign(d.declarators@, x)
}

pub open spec fn for_init_assigns(f: ForInitializer, x: Seq<char>) -> bool
    decreases f,
{
    match f {
        ForInitializer::Expression(e) => expr_assigns(*e, x),
        ForInitializer::Declaration(d) => decl_assigns(d, x),
        _ => false,
    }
}

pub open spec fn item_assigns(b: BlockItem, x: Seq<char>) -> bool
    decreases b,
{
    match b {
        BlockItem::Declaration(d) => decl_assigns(d, x),
        BlockItem::Statement(s) => stmt_assigns(s, x),
        BlockItem::StaticAssert => false,
    }
}

pub open spec fn items_assign(s: Seq<BlockItem>, x: Seq<char>) -> bool
    decreases s,
{
    if s.len() == 0 {
        false
    } else {
        items_assign(s.drop_last(), x) || item_assigns(s.last(), x)
    }
}

/// The labeled statement assigns `x`.  The expression of a `case` label, which
/// C requires to be a constant, is not counted.
pub open spec fn label_assigns(l: LabeledStatement, x: Seq<char>) -> bool
    decreases l,
{
    match l.label {
        Label::CaseRange => false,
        _ => stmt_assigns(*l.statement, x),
    }
}

/// Somewhere in `s`, the variable `x` is assigned.
pub open spec fn stmt_assigns(s: Statement, x: Seq<char>) -> bool
    decreases s,
{
    match s {
        Statement::Labeled(l) => label_assigns(l, x),
        Statement::Compound(v) => items_assign(v@, x),
        Statement::Expression(e) => opt_expr_assigns(e, x),
        Statement::If { condition, then_statement, else_statement } => {
            ||| expr_assigns(*condition, x)
            ||| stmt_assigns(*then_statement, x)
            ||| match else_statement {
                Some(b) => stmt_assigns(*b, x),
                None => false,
            }
        },
        Statement::Switch { expression, statement } => expr_assigns(*expression, x)
            || stmt_assigns(*statement, x),
        Statement::While { expression, statement } => expr_assigns(*expression, x)
            || stmt_assigns(*statement, x),
        Statement::DoWhile { statement, expression } => expr_assigns(*expression, x)
            || stmt_assigns(*statement, x),
        Statement::For { initializer, condition, step, statement } => {
            ||| for_init_assigns(initializer, x)
            ||| opt_expr_assigns(condition, x)
            ||| opt_expr_assigns(step, x)
            ||| stmt_assigns(*statement, x)
        },
        Statement::Return(e) => opt_expr_assigns(e, x),
        _ => false,
    }
}

// ---------------------------------------------------------------------------
// Every assigned variable is reported
// ---------------------------------------------------------------------------

pub proof fn lemma_expr_reports(e: Expression, env: Env, x: Seq<char>)
    requires
        expr_assigns(e, x),
    ensures
        tr_expr(e, env).mutated.contains(x),
    decreases e,
{
    match e {
        Expression::Member { expression, .. } => {
            lemma_expr_reports(*expression, env, x);
        },
        Expression::UnaryOperator { operator, operand } => {
            let r = tr_expr(*operand, env);
            if expr_assigns(*operand, x) {
                lemma_expr_reports(*operand, env, x);
                let k = choose|k: int| 0 <= k < r.mutated.len() && r.mutated[k] == x;
                assert(tr_expr(e, env).mutated[k] == x);
            } else {
                assert(tr_expr(e, env).mutated.last() == x);
            }
        },
        Expression::Cast { expression } => {
            lemma_expr_reports(*expression, env, x);
        },
        Expression::BinaryOperator { operator, lhs, rhs } => {
            let l = tr_expr(*lhs, env);
            let r = tr_expr(*rhs, l.env);
            if expr_assigns(*lhs, x) {
                lemma_expr_reports(*lhs, env, x);
                let k = choose|k: int| 0 <= k < l.mutated.len() && l.mutated[k] == x;
                assert(tr_expr(e, env).mutated[k] == x);
            } else if expr_assigns(*rhs, x) {
                lemma_expr_reports(*rhs, l.env, x);
                let k = choose|k: int| 0 <= k < r.mutated.len() && r.mutated[k] == x;
                assert(tr_expr(e, env).mutated[l.mutated.len() + k] == x);
            } else {
                assert(tr_expr(e, env).mutated.last() == x);
            }
        },
        Expression::Conditional { condition, then_expression, else_expression } => {
            let c = tr_expr(*condition, env);
            let t = tr_expr(*then_expression, c.env);
            let f = tr_expr(*else_expression, t.env);
            let all = c.mutated + t.mutated + f.mutated;
            if expr_assigns(*condition, x) {
                lemma_expr_reports(*condition, env, x);
                let k = choose|k: int| 0 <= k < c.mutated.len() && c.mutated[k] == x;
                assert(all[k] == x);
            } else if expr_assigns(*then_expression, x) {
                lemma_expr_reports(*then_expression, c.env, x);
                let k = choose|k: int| 0 <= k < t.mutated.len() && t.mutated[k] == x;
                assert(all[c.mutated.len() + k] == x);
            } else {
                lemma_expr_reports(*else_expression, t.env, x);
                let k = choose|k: int| 0 <= k < f.mutated.len() && f.mutated[k] == x;
                assert(all[c.mutated.len() + t.mutated.len() + k] == x);
            }
        },
        Expression::Comma(v) => {
            lemma_exprs_report(v@, env, x);
        },
        Expression::Statement(s) => {
            lemma_stmt_reports(*s, env, x);
        },
        _ => {},
    }
}

pub proof fn lemma_exprs_report(s: Seq<Expression>, env: Env, x: Seq<char>)
    requires
        exprs_assign(s, x),
    ensures
        tr_exprs(s, env).mutated.contains(x),
    decreases s,
{
    let p = tr_exprs(s.drop_last(), env);
    let r = tr_expr(s.last(), p.env);
    if exprs_assign(s.drop_last(), x) {
        lemma_exprs_report(s.drop_last(), env, x);
        let k = choose|k: int| 0 <= k < p.mutated.len() && p.mutated[k] == x;
        assert((p.mutated + r.mutated)[k] == x);
    } else {
        lemma_expr_reports(s.last(), p.env, x);
        let k = choose|k: int| 0 <= k < r.mutated.len() && r.mutated[k] == x;
        assert((p.mutated + r.mutated)[p.mutated.len() + k] == x);
    }
}

pub proof fn lemma_opt_expr_reports(e: Option<Box<Expression>>, env: Env, x: Seq<char>)
    requires
        opt_expr_assigns(e, x),
    ensures
        tr_opt_expr(e, env).mutated.contains(x),
    decreases e,
{
    match e {
        Some(b) => lemma_expr_reports(*b, env, x),
        None => {},
    }
}

pub proof fn lemma_init_reports(i: Initializer, env: Env, x: Seq<char>)
    requires
        init_assigns(i, x),
    ensures
        tr_init(i, env).mutated.contains(x),
    decreases i,
{
    match i {
        Initializer::Expression(e) => lemma_expr_reports(*e, env, x),
        Initializer::List(v) => lemma_inits_report(v@, env, x),
    }
}

pub proof fn lemma_inits_report(s: Seq<Initializer>, env: Env, x: Seq<char>)
    requires
        inits_assign(s, x),
    ensures
        tr_inits(s, env).mutated.contains(x),
    decreases s,
{
    let p = tr_inits(s.drop_last(), env);
    let r = tr_init(s.last(), p.env);
    if inits_assign(s.drop_last(), x) {
        lemma_inits_report(s.drop_last(), env, x);
        let k = choose|k: int| 0 <= k < p.mutated.len() && p.mutated[k] == x;
        assert((p.mutated + r.mutated)[k] == x);
    } else {
        lemma_init_reports(s.last(), p.env, x);
        let k = choose|k: int| 0 <= k < r.mutated.len() && r.mutated[k] == x;
        assert((p.mutated + r.mutated)[p.mutated.len() + k] == x);
    }
}

pub proof fn lemma_declarators_report(s: Seq<InitDeclarator>, env: Env, x: Seq<char>)
    requires
        declarators_assign(s, x),
    ensures
        tr_declarators(s, env).mutated.contains(x),
    decreases s,
{
    let p = tr_declarators(s.drop_last(), env);
    let r = tr_declarator_value(s.last(), p.env);
    if declarators_assign(s.drop_last(), x) {
        lemma_declarators_report(s.drop_last(), env, x);
        let k = choose|k: int| 0 <= k < p.mutated.len() && p.mutated[k] == x;
        assert((p.mutated + r.mutated)[k] == x);
    } else {
        let i = s.last().initializer->Some_0;
        lemma_init_reports(i, p.env, x);
        let k = choose|k: int| 0 <= k < r.mutated.len() && r.mutated[k] == x;
        assert((p.mutated + r.mutated)[p.mutated.len() + k] == x);
    }
}

pub proof fn lemma_decl_reports(d: Declaration, env: Env, x: Seq<char>)
    requires
        decl_assigns(d, x),
    ensures
        tr_decl(d, env).mutated.contains(x),
    decreases d,
{
    lemma_declarators_report(d.declarators@, env, x);
}

pub proof fn lemma_for_init_reports(f: ForInitializer, env: Env, x: Seq<char>)
    requires
        for_init_assigns(f, x),
    ensures
        tr_for_init(f, env).mutated.contains(x),
    decreases f,
{
    match f {
        ForInitializer::Expression(e) => lemma_expr_reports(*e, env, x),
        ForInitializer::Declaration(d) => lemma_decl_reports(d, env, x),
        _ => {},
    }
}

pub proof fn lemma_item_reports(b: BlockItem, env: Env, x: Seq<char>)
    requires
        item_assigns(b, x),
    ensures
        tr_item(b, env).mutated.contains(x),
    decreases b,
{
    match b {
        BlockItem::Declaration(d) => lemma_decl_reports(d, env, x),
        BlockItem::Statement(s) => lemma_stmt_reports(s, env, x),
        BlockItem::StaticAssert => {},
    }
}

pub proof fn lemma_items_report(s: Seq<BlockItem>, env: Env, x: Seq<char>)
    requires
        items_assign(s, x),
    ensures
        tr_items(s, env).mutated.contains(x),
    decreases s,
{
    let p = tr_items(s.drop_last(), env);
    let r = tr_item(s.last(), p.env);
    if items_assign(s.drop_last(), x) {
        lemma_items_report(s.drop_last(), env, x);
        let k = choose|k: int| 0 <= k < p.mutated.len() && p.mutated[k] == x;
        assert((p.mutated + r.mutated)[k] == x);
    } else {
        lemma_item_reports(s.last(), p.env, x);
        let k = choose|k: int| 0 <= k < r.mutated.len() && r.mutated[k] == x;
        assert((p.mutated + r.mutated)[p.mutated.len() + k] == x);
    }
}

pub proof fn lemma_label_reports(l: LabeledStatement, env: Env, x: Seq<char>)
    requires
        label_assigns(l, x),
    ensures
        tr_label(l, env).mutated.contains(x),
    decreases l,
{
    lemma_stmt_reports(*l.statement, env, x);
}

pub proof fn lemma_stmt_reports(s: Statement, env: Env, x: Seq<char>)
    requires
        stmt_assigns(s, x),
    ensures
        tr_stmt(s, env).mutated.contains(x),
    decreases s,
{
    match s {
        Statement::Labeled(l) => lemma_label_reports(l, env, x),
        Statement::Compound(v) => {
            if v.len() == 0 {
                assert(v@ =~= Seq::<BlockItem>::empty());
            }
            lemma_items_report(v@, env, x);
        },
        Statement::Expression(e) => lemma_opt_expr_reports(e, env, x),
        Statement::If { condition, then_statement, else_statement } => {
            let c = tr_expr(*condition, env);
            let t = tr_stmt(*then_statement, c.env);
            let f = match else_statement {
                Some(b) => tr_stmt(*b, t.env),
                None => crate::semantics::ignored(t.env),
            };
            let all = c.mutated + t.mutated + f.mutated;
            if expr_assigns(*condition, x) {
                lemma_expr_reports(*condition, env, x);
                let k = choose|k: int| 0 <= k < c.mutated.len() && c.mutated[k] == x;
                assert(all[k] == x);
            } else if stmt_assigns(*then_statement, x) {
                lemma_stmt_reports(*then_statement, c.env, x);
                let k = choose|k: int| 0 <= k < t.mutated.len() && t.mutated[k] == x;
                assert(all[c.mutated.len() + k] == x);
            } else {
                lemma_stmt_reports(*else_statement->Some_0, t.env, x);
                let k = choose|k: int| 0 <= k < f.mutated.len() && f.mutated[k] == x;
                assert(all[c.mutated.len() + t.mutated.len() + k] == x);
            }
        },
        Statement::Switch { expression, statement } => {
            let r = tr_expr(*expression, env);
            if expr_assigns(*expression, x) {
                lemma_expr_reports(*expression, env, x);
            } else {
                lemma_stmt_reports(*statement, r.env, x);
            }
            lemma_concat_contains(r.mutated, tr_stmt(*statement, r.env).mutated, x);
        },
        Statement::While { expression, statement } => {
            let r = tr_expr(*expression, env);
            if expr_assigns(*expression, x) {
                lemma_expr_reports(*expression, env, x);
            } else {
                lemma_stmt_reports(*statement, r.env, x);
            }
            lemma_concat_contains(r.mutated, tr_stmt(*statement, r.env).mutated, x);
        },
        Statement::DoWhile { statement, expression } => {
            let r = tr_expr(*expression, env);
            if expr_assigns(*expression, x) {
                lemma_expr_reports(*expression, env, x);
            } else {
                lemma_stmt_reports(*statement, r.env, x);
            }
            lemma_concat_contains(r.mutated, tr_stmt(*statement, r.env).mutated, x);
        },
        Statement::For { initializer, condition, step, statement } => {
            let i = tr_for_init(initializer, env);
            let c = tr_opt_expr(condition, i.env);
            let st = tr_opt_expr(step, c.env);
            let benv = st.env.remove_keys(st.mutated.to_set());
            let b = tr_stmt(*statement, benv);
            let all = i.mutated + c.mutated + b.mutated + st.mutated;
            if for_init_assigns(initializer, x) {
                lemma_for_init_reports(initializer, env, x);
                let k = choose|k: int| 0 <= k < i.mutated.len() && i.mutated[k] == x;
                assert(all[k] == x);
            } else if opt_expr_assigns(condition, x) {
                lemma_opt_expr_reports(condition, i.env, x);
                let k = choose|k: int| 0 <= k < c.mutated.len() && c.mutated[k] == x;
                assert(all[i.mutated.len() + k] == x);
            } else if opt_expr_assigns(step, x) {
                lemma_opt_expr_reports(step, c.env, x);
                let k = choose|k: int| 0 <= k < st.mutated.len() && st.mutated[k] == x;
                assert(all[i.mutated.len() + c.mutated.len() + b.mutated.len() + k] == x);
            } else {
                lemma_stmt_reports(*statement, benv, x);
                let k = choose|k: int| 0 <= k < b.mutated.len() && b.mutated[k] == x;
                assert(all[i.mutated.len() + c.mutated.len() + k] == x);
            }
        },
        Statement::Return(e) => lemma_opt_expr_reports(e, env, x),
        _ => {},
    }
}

proof fn lemma_concat_contains(a: Seq<Seq<char>>, b: Seq<Seq<char>>, x: Seq<char>)
    requires
        a.contains(x) || b.contains(x),
    ensures
        (a + b).contains(x),
{
    if a.contains(x) {
        let k = choose|k: int| 0 <= k < a.len() && a[k] == x;
        assert((a + b)[k] == x);
    } else {
        let k = choose|k: int| 0 <= k < b.len() && b[k] == x;
        assert((a + b)[a.len() + k] == x);
    }
}

// ---------------------------------------------------------------------------
// Laws
// ---------------------------------------------------------------------------

/// Every variable that a statement assigns anywhere inside it is among the
/// names its transpilation reports.
pub proof fn law_assigned_names_reported(s: Statement, env: Env, x: Seq<char>)
    requires
        stmt_assigns(s, x),
    ensures
        tr_stmt(s, env).mutated.contains(x),
{
    lemma_stmt_reports(s, env, x);
}

/// After an `if`, a `switch` or a loop, no variable assigned anywhere inside
/// it (its condition, either branch, its body, its step) is bound: later
/// reads of it yield its name.
pub proof fn law_branches_forget_what_they_assign(s: Statement, env: Env, x: Seq<char>)
    requires
        s is If || s is Switch || s is While || s is DoWhile || s is For,
        stmt_assigns(s, x),
    ensures
        !tr_stmt(s, env).env.contains_key(x),
{
    lemma_stmt_reports(s, env, x);
    assert(tr_stmt(s, env).mutated.to_set().contains(x));
}

/// After a conditional expression `c ? a : b`, no variable assigned anywhere
/// inside it is bound.
pub proof fn law_conditional_forgets_what_it_assigns(e: Expression, env: Env, x: Seq<char>)
    requires
        e is Conditional,
        expr_assigns(e, x),
    ensures
        !tr_expr(e, env).env.contains_key(x),
{
    lemma_expr_reports(e, env, x);
    assert(tr_expr(e, env).mutated.to_set().contains(x));
}

} // verus!
