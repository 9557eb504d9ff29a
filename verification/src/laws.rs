//! Properties that hold of every transpilation.
use vstd::prelude::*;

use crate::ast::{BinaryOperator, Expression, Statement, UnaryOperator};
use crate::semantics::{Env, binary_symbol, form2, tr_expr, tr_stmt};

verus! {

/// Reading a variable right after assigning to it yields the term assigned:
/// the transpiler substitutes assignments into later uses.
pub proof fn law_read_after_assign(assign: Expression, read: Expression, env: Env)
    requires
        assign is BinaryOperator,
        assign->BinaryOperator_operator == BinaryOperator::Assign,
        *assign->BinaryOperator_lhs is Identifier,
        read is Identifier,
        read->Identifier_0@ == (*assign->BinaryOperator_lhs)->Identifier_0@,
    ensures
        tr_expr(read, tr_expr(assign, env).env).text == tr_expr(*assign->BinaryOperator_rhs, env).text,
{
    let lhs = *assign->BinaryOperator_lhs;
    assert(tr_expr(lhs, env).env == env);
    assert(tr_expr(lhs, env).mutated.len() == 0);
}

/// Reading a variable right after a compound assignment `x op= e` to it
/// yields `(op x e)`, with `x` and `e` as they read before.
pub proof fn law_read_after_compound_assign(assign: Expression, read: Expression, env: Env)
    requires
        assign is BinaryOperator,
        assign->BinaryOperator_operator != BinaryOperator::Assign,
        crate::semantics::binary_assigns(assign->BinaryOperator_operator),
        *assign->BinaryOperator_lhs is Identifier,
        read is Identifier,
        read->Identifier_0@ == (*assign->BinaryOperator_lhs)->Identifier_0@,
    ensures
        tr_expr(read, tr_expr(assign, env).env).text == form2(
            binary_symbol(assign->BinaryOperator_operator),
            tr_expr(*assign->BinaryOperator_lhs, env).text,
            tr_expr(*assign->BinaryOperator_rhs, env).text,
        ),
{
}

/// After a branch or a loop, no name assigned anywhere inside it is bound.
pub proof fn law_branches_forget_assigned(s: Statement, env: Env, i: int)
    requires
        s is If || s is Switch || s is While || s is DoWhile || s is For,
        0 <= i < tr_stmt(s, env).mutated.len(),
    ensures
        !tr_stmt(s, env).env.contains_key(tr_stmt(s, env).mutated[i]),
{
    assert(tr_stmt(s, env).mutated.to_set().contains(tr_stmt(s, env).mutated[i]));
}

/// After a conditional expression, no name assigned inside it is bound.
pub proof fn law_conditional_forgets_assigned(e: Expression, env: Env, i: int)
    requires
        e is Conditional,
        0 <= i < tr_expr(e, env).mutated.len(),
    ensures
        !tr_expr(e, env).env.contains_key(tr_expr(e, env).mutated[i]),
{
    assert(tr_expr(e, env).mutated.to_set().contains(tr_expr(e, env).mutated[i]));
}

/// After a `goto`, no name is bound at all.
pub proof fn law_goto_forgets_all(s: Statement, env: Env)
    requires
        s is Goto,
    ensures
        tr_stmt(s, env).env == Map::<Seq<char>, Seq<char>>::empty(),
        tr_stmt(s, env).mutated.len() == 0,
{
}

/// An assignment reports the name it assigns last among the names assigned.
pub proof fn law_assignment_reports_target(e: Expression, env: Env)
    requires
        e is BinaryOperator,
        crate::semantics::binary_assigns(e->BinaryOperator_operator),
        *e->BinaryOperator_lhs is Identifier,
    ensures
        tr_expr(e, env).mutated.len() > 0,
        tr_expr(e, env).mutated.last() == (*e->BinaryOperator_lhs)->Identifier_0@,
{
}

/// A prefix and a postfix increment (or decrement) of the same operand are
/// transpiled alike: the same term, the same assigned names and the same
/// bindings after them.
pub proof fn law_prefix_postfix_alike(operand: Box<Expression>, env: Env)
    ensures
        tr_expr(
            Expression::UnaryOperator { operator: UnaryOperator::PostIncrement, operand },
            env,
        ) == tr_expr(
            Expression::UnaryOperator { operator: UnaryOperator::PreIncrement, operand },
            env,
        ),
        tr_expr(
            Expression::UnaryOperator { operator: UnaryOperator::PostDecrement, operand },
            env,
        ) == tr_expr(
            Expression::UnaryOperator { operator: UnaryOperator::PreDecrement, operand },
            env,
        ),
{
}

/// The arithmetic operator behind a compound assignment `op=` of C.
pub open spec fn compound_operator(op: BinaryOperator) -> Seq<char> {
    match op {
        BinaryOperator::AssignMultiply => "*"@,
        BinaryOperator::AssignDivide => "/"@,
        BinaryOperator::AssignModulo => "%"@,
        BinaryOperator::AssignPlus => "+"@,
        BinaryOperator::AssignMinus => "-"@,
        BinaryOperator::AssignShiftLeft => "<<"@,
        BinaryOperator::AssignShiftRight => ">>"@,
        BinaryOperator::AssignBitwiseAnd => "&"@,
        BinaryOperator::AssignBitwiseXor => "^"@,
        BinaryOperator::AssignBitwiseOr => "|"@,
        _ => Seq::empty(),
    }
}

/// The text an assignment to `target` names: the variable when the target is
/// one, else the target's own term (such as `(* p)`).
pub open spec fn assigned_target(target: Expression, term: Seq<char>) -> Seq<char> {
    if target is Identifier {
        target->Identifier_0@
    } else {
        term
    }
}

/// A compound assignment `t op= v` yields `(= t (op t v))`, whatever the
/// target `t` is, with `t` and `v` as they read before it; it reports `t`
/// after the names its operands assign, and binds `t` to `(op t v)`.
pub proof fn law_compound_assignment(
    op: BinaryOperator,
    lhs: Box<Expression>,
    rhs: Box<Expression>,
    env: Env,
)
    requires
        compound_operator(op).len() > 0,
    ensures
        ({
            let l = tr_expr(*lhs, env);
            let r = tr_expr(*rhs, l.env);
            let t = assigned_target(*lhs, l.text);
            let value = "("@ + compound_operator(op) + " "@ + l.text + " "@ + r.text + ")"@;
            let result = tr_expr(Expression::BinaryOperator { operator: op, lhs, rhs }, env);
            &&& result.text == "(= "@ + t + " "@ + value + ")"@
            &&& result.mutated == (l.mutated + r.mutated).push(t)
            &&& result.env == r.env.insert(t, value)
        }),
{
    let l = tr_expr(*lhs, env);
    let r = tr_expr(*rhs, l.env);
    let t = assigned_target(*lhs, l.text);
    let value = "("@ + compound_operator(op) + " "@ + l.text + " "@ + r.text + ")"@;
    reveal_strlit("(= ");
    reveal_strlit("(");
    reveal_strlit("=");
    reveal_strlit(" ");
    assert(compound_operator(op) == binary_symbol(op));
    assert(form2(binary_symbol(op), l.text, r.text) =~= value);
    assert(form2("="@, t, value) =~= "(= "@ + t + " "@ + value + ")"@);
}

/// A plain assignment `t = v` yields `(= t v)` and binds `t` to `v`.
pub proof fn law_plain_assignment(lhs: Box<Expression>, rhs: Box<Expression>, env: Env)
    ensures
        ({
            let l = tr_expr(*lhs, env);
            let r = tr_expr(*rhs, l.env);
            let t = assigned_target(*lhs, l.text);
            let result = tr_expr(
                Expression::BinaryOperator { operator: BinaryOperator::Assign, lhs, rhs },
                env,
            );
            &&& result.text == "(= "@ + t + " "@ + r.text + ")"@
            &&& result.mutated == (l.mutated + r.mutated).push(t)
            &&& result.env == r.env.insert(t, r.text)
        }),
{
    let l = tr_expr(*lhs, env);
    let r = tr_expr(*rhs, l.env);
    let t = assigned_target(*lhs, l.text);
    reveal_strlit("(= ");
    reveal_strlit("(");
    reveal_strlit("=");
    reveal_strlit(" ");
    assert(form2("="@, t, r.text) =~= "(= "@ + t + " "@ + r.text + ")"@);
}

/// `t++` and `++t` yield `(= t (+ t 1))`, `t--` and `--t` yield
/// `(= t (- t 1))`, whatever the target `t` is, and bind `t` to the new value.
pub proof fn law_increment(operator: UnaryOperator, operand: Box<Expression>, env: Env)
    requires
        crate::assigned::is_increment(operator),
    ensures
        ({
            let o = tr_expr(*operand, env);
            let t = assigned_target(*operand, o.text);
            let sign = if operator == UnaryOperator::PreIncrement || operator
                == UnaryOperator::PostIncrement {
                "+"@
            } else {
                "-"@
            };
            let value = "("@ + sign + " "@ + o.text + " 1)"@;
            let result = tr_expr(Expression::UnaryOperator { operator, operand }, env);
            &&& result.text == "(= "@ + t + " "@ + value + ")"@
            &&& result.mutated == o.mutated.push(t)
            &&& result.env == o.env.insert(t, value)
        }),
{
    let o = tr_expr(*operand, env);
    let t = assigned_target(*operand, o.text);
    reveal_strlit("(= ");
    reveal_strlit("(");
    reveal_strlit("=");
    reveal_strlit(" ");
    reveal_strlit(" 1)");
    reveal_strlit("1");
    reveal_strlit(")");
    let sign = crate::semantics::unary_symbol(operator);
    assert(form2(sign, o.text, "1"@) =~= "("@ + sign + " "@ + o.text + " 1)"@);
    assert(form2("="@, t, form2(sign, o.text, "1"@)) =~= "(= "@ + t + " "@ + form2(
        sign,
        o.text,
        "1"@,
    ) + ")"@);
}

} // verus!
