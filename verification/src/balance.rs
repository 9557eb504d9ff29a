//! The transpiled terms have balanced parentheses.
//!
//! Every term is built from `(`, an operator, its operands and `)`; names and
//! literals are copied verbatim.  So when no name or literal of the C code
//! holds a parenthesis, every term, and every text bound in the environment,
//! has balanced parentheses.
use vstd::prelude::*;

use crate::ast::{
    BlockItem, Constant, Declaration, Expression, ForInitializer, InitDeclarator, Initializer,
    IntegerBase, Label, LabeledStatement, Statement,
};
use crate::bindings::names;
use crate::semantics::{
    Env, binary_symbol, constant_text, declared_name, form1, form2, form3, form4, radix_text,
    tr_binary, tr_decl, tr_declarator_value, tr_declarators, tr_expr, tr_exprs, tr_for_init,
    tr_init, tr_inits, tr_item, tr_items, tr_label, tr_opt_expr, tr_stmt, tr_unary,
    unary_assigns, unary_symbol,
};
use crate::text::{digit_char, join, nat_decimal};

verus! {

// ---------------------------------------------------------------------------
// Balanced texts
// ---------------------------------------------------------------------------

/// The number of `(` minus the number of `)` in `s`.
pub open spec fn paren_depth(s: Seq<char>) -> int
    decreases s.len(),
{
    if s.len() == 0 {
        0
    } else {
        paren_depth(s.drop_last()) + (if s.last() == '(' {
            1int
        } else if s.last() == ')' {
            -1int
        } else {
            0int
        })
    }
}

/// Every `)` of `s` closes an earlier `(`, and every `(` is closed.
pub open spec fn balanced(s: Seq<char>) -> bool {
    &&& paren_depth(s) == 0
    &&& forall|i: int| 0 <= i <= s.len() ==> #[trigger] paren_depth(s.take(i)) >= 0
}

/// `s` holds no parenthesis.
pub open spec fn paren_free(s: Seq<char>) -> bool {
    forall|i: int| 0 <= i < s.len() ==> #[trigger] s[i] != '(' && s[i] != ')'
}

/// Every text bound in `env` is balanced.
pub open spec fn env_balanced(env: Env) -> bool {
    forall|k: Seq<char>| #[trigger] env.contains_key(k) ==> balanced(env[k])
}

proof fn lemma_depth_concat(a: Seq<char>, b: Seq<char>)
    ensures
        paren_depth(a + b) == paren_depth(a) + paren_depth(b),
    decreases b.len(),
{
    if b.len() == 0 {
        assert(a + b =~= a);
    } else {
        assert((a + b).drop_last() =~= a + b.drop_last());
        lemma_depth_concat(a, b.drop_last());
    }
}

proof fn lemma_paren_free_depth(s: Seq<char>)
    requires
        paren_free(s),
    ensures
        paren_depth(s) == 0,
    decreases s.len(),
{
    if s.len() > 0 {
        assert(s.last() == s[s.len() - 1]);
        assert(paren_free(s.drop_last())) by {
            assert forall|i: int| 0 <= i < s.drop_last().len() implies #[trigger] s.drop_last()[i]
                != '(' && s.drop_last()[i] != ')' by {
                assert(s.drop_last()[i] == s[i]);
            }
        }
        lemma_paren_free_depth(s.drop_last());
    }
}

proof fn lemma_paren_free_balanced(s: Seq<char>)
    requires
        paren_free(s),
    ensures
        balanced(s),
{
    lemma_paren_free_depth(s);
    assert forall|i: int| 0 <= i <= s.len() implies #[trigger] paren_depth(s.take(i)) >= 0 by {
        assert(paren_free(s.take(i))) by {
            assert forall|j: int| 0 <= j < s.take(i).len() implies #[trigger] s.take(i)[j] != '('
                && s.take(i)[j] != ')' by {
                assert(s.take(i)[j] == s[j]);
            }
        }
        lemma_paren_free_depth(s.take(i));
    }
}

proof fn lemma_paren_free_concat(a: Seq<char>, b: Seq<char>)
    requires
        paren_free(a),
        paren_free(b),
    ensures
        paren_free(a + b),
{
    assert forall|i: int| 0 <= i < (a + b).len() implies #[trigger] (a + b)[i] != '(' && (a
        + b)[i] != ')' by {
        if i < a.len() {
            assert((a + b)[i] == a[i]);
        } else {
            assert((a + b)[i] == b[i - a.len()]);
        }
    }
}

proof fn lemma_balanced_concat(a: Seq<char>, b: Seq<char>)
    requires
        balanced(a),
        balanced(b),
    ensures
        balanced(a + b),
{
    lemma_depth_concat(a, b);
    assert forall|i: int| 0 <= i <= (a + b).len() implies #[trigger] paren_depth((a + b).take(i))
        >= 0 by {
        if i <= a.len() {
            assert((a + b).take(i) =~= a.take(i));
        } else {
            assert((a + b).take(i) =~= a + b.take(i - a.len()));
            lemma_depth_concat(a, b.take(i - a.len()));
        }
    }
}

proof fn lemma_balanced_wrap(s: Seq<char>)
    requires
        balanced(s),
    ensures
        balanced(seq!['('] + s + seq![')']),
{
    let w = seq!['('] + s + seq![')'];
    lemma_depth_concat(seq!['('], s);
    lemma_depth_concat(seq!['('] + s, seq![')']);
    assert(paren_depth(Seq::<char>::empty()) == 0);
    assert(paren_depth(seq!['(']) == 1) by {
        assert(seq!['('].drop_last() =~= Seq::<char>::empty());
        assert(seq!['('].last() == '(');
    }
    assert(paren_depth(seq![')']) == -1) by {
        assert(seq![')'].drop_last() =~= Seq::<char>::empty());
        assert(seq![')'].last() == ')');
    }
    assert forall|i: int| 0 <= i <= w.len() implies #[trigger] paren_depth(w.take(i)) >= 0 by {
        if i == 0 {
            assert(w.take(0) =~= Seq::<char>::empty());
        } else if i <= s.len() + 1 {
            assert(w.take(i) =~= seq!['('] + s.take(i - 1));
            lemma_depth_concat(seq!['('], s.take(i - 1));
        } else {
            assert(w.take(i) =~= w);
        }
    }
}

proof fn lemma_literals()
    ensures
        "("@ == seq!['('],
        ")"@ == seq![')'],
        paren_free(" "@),
{
    reveal_strlit("(");
    reveal_strlit(")");
    reveal_strlit(" ");
}

/// `(head args...)` is balanced when `head` holds no parenthesis and the
/// text between head and `)` is balanced.
proof fn lemma_wrapped(head: Seq<char>, rest: Seq<char>)
    requires
        paren_free(head),
        balanced(rest),
    ensures
        balanced("("@ + head + rest + ")"@),
{
    lemma_literals();
    lemma_paren_free_balanced(head);
    lemma_balanced_concat(head, rest);
    lemma_balanced_wrap(head + rest);
    assert("("@ + head + rest + ")"@ =~= seq!['('] + (head + rest) + seq![')']);
}

/// ` a` is balanced when `a` is.
proof fn lemma_spaced(a: Seq<char>)
    requires
        balanced(a),
    ensures
        balanced(" "@ + a),
{
    lemma_literals();
    lemma_paren_free_balanced(" "@);
    lemma_balanced_concat(" "@, a);
}

pub proof fn lemma_form1(head: Seq<char>, a: Seq<char>)
    requires
        paren_free(head),
        balanced(a),
    ensures
        balanced(form1(head, a)),
{
    lemma_spaced(a);
    lemma_wrapped(head, " "@ + a);
    assert(form1(head, a) =~= "("@ + head + (" "@ + a) + ")"@);
}

pub proof fn lemma_form2(head: Seq<char>, a: Seq<char>, b: Seq<char>)
    requires
        paren_free(head),
        balanced(a),
        balanced(b),
    ensures
        balanced(form2(head, a, b)),
{
    lemma_spaced(a);
    lemma_spaced(b);
    lemma_balanced_concat(" "@ + a, " "@ + b);
    lemma_wrapped(head, " "@ + a + (" "@ + b));
    assert(form2(head, a, b) =~= "("@ + head + (" "@ + a + (" "@ + b)) + ")"@);
}

pub proof fn lemma_form3(head: Seq<char>, a: Seq<char>, b: Seq<char>, c: Seq<char>)
    requires
        paren_free(head),
        balanced(a),
        balanced(b),
        balanced(c),
    ensures
        balanced(form3(head, a, b, c)),
{
    lemma_spaced(a);
    lemma_spaced(b);
    lemma_spaced(c);
    lemma_balanced_concat(" "@ + a, " "@ + b);
    lemma_balanced_concat(" "@ + a + (" "@ + b), " "@ + c);
    lemma_wrapped(head, " "@ + a + (" "@ + b) + (" "@ + c));
    assert(form3(head, a, b, c) =~= "("@ + head + (" "@ + a + (" "@ + b) + (" "@ + c)) + ")"@);
}

pub proof fn lemma_form4(head: Seq<char>, a: Seq<char>, b: Seq<char>, c: Seq<char>, d: Seq<char>)
    requires
        paren_free(head),
        balanced(a),
        balanced(b),
        balanced(c),
        balanced(d),
    ensures
        balanced(form4(head, a, b, c, d)),
{
    lemma_spaced(a);
    lemma_spaced(b);
    lemma_spaced(c);
    lemma_spaced(d);
    lemma_balanced_concat(" "@ + a, " "@ + b);
    lemma_balanced_concat(" "@ + a + (" "@ + b), " "@ + c);
    lemma_balanced_concat(" "@ + a + (" "@ + b) + (" "@ + c), " "@ + d);
    lemma_wrapped(head, " "@ + a + (" "@ + b) + (" "@ + c) + (" "@ + d));
    assert(form4(head, a, b, c, d) =~= "("@ + head + (" "@ + a + (" "@ + b) + (" "@ + c) + (" "@
        + d)) + ")"@);
}

/// Texts joined by spaces are balanced when each text is.
pub proof fn lemma_join_balanced(parts: Seq<Seq<char>>)
    requires
        forall|i: int| 0 <= i < parts.len() ==> #[trigger] balanced(parts[i]),
    ensures
        balanced(join(parts, " "@)),
    decreases parts.len(),
{
    if parts.len() == 0 {
        lemma_paren_free_balanced(Seq::<char>::empty());
    } else if parts.len() > 1 {
        lemma_join_balanced(parts.drop_last());
        assert(balanced(parts.last()));
        lemma_literals();
        lemma_paren_free_balanced(" "@);
        lemma_balanced_concat(join(parts.drop_last(), " "@), " "@);
        lemma_balanced_concat(join(parts.drop_last(), " "@) + " "@, parts.last());
    } else {
        assert(balanced(parts[0]));
    }
}

// ---------------------------------------------------------------------------
// The fixed texts of the transpiler
// ---------------------------------------------------------------------------

proof fn lemma_heads()
    ensures
        paren_free("if"@),
        paren_free("compound"@),
        paren_free("string"@),
        paren_free("member"@),
        paren_free("cast"@),
        paren_free("temp"@),
        paren_free("="@),
        paren_free("list"@),
        paren_free("declaration"@),
        paren_free("label"@),
        paren_free("case"@),
        paren_free("default"@),
        paren_free("switch"@),
        paren_free("while"@),
        paren_free("do-while"@),
        paren_free("for"@),
        paren_free("goto"@),
        paren_free("return"@),
        paren_free("1"@),
        paren_free("null"@),
        paren_free("0"@),
        paren_free("'"@),
{
    reveal_strlit("if");
    reveal_strlit("compound");
    reveal_strlit("string");
    reveal_strlit("member");
    reveal_strlit("cast");
    reveal_strlit("temp");
    reveal_strlit("=");
    reveal_strlit("list");
    reveal_strlit("declaration");
    reveal_strlit("label");
    reveal_strlit("case");
    reveal_strlit("default");
    reveal_strlit("switch");
    reveal_strlit("while");
    reveal_strlit("do-while");
    reveal_strlit("for");
    reveal_strlit("goto");
    reveal_strlit("return");
    reveal_strlit("1");
    reveal_strlit("null");
    reveal_strlit("0");
    reveal_strlit("'");
}

proof fn lemma_whole_literals()
    ensures
        balanced("(ignore)"@),
        balanced("(call)"@),
        balanced("(sizeoftype)"@),
        balanced("(sizeofexpr)"@),
        balanced("(continue)"@),
        balanced("(break)"@),
        balanced("(return null)"@),
        balanced("(asm)"@),
{
    reveal_strlit("(ignore)");
    lemma_paren_literal("(ignore)"@);
    reveal_strlit("(call)");
    lemma_paren_literal("(call)"@);
    reveal_strlit("(sizeoftype)");
    lemma_paren_literal("(sizeoftype)"@);
    reveal_strlit("(sizeofexpr)");
    lemma_paren_literal("(sizeofexpr)"@);
    reveal_strlit("(continue)");
    lemma_paren_literal("(continue)"@);
    reveal_strlit("(break)");
    lemma_paren_literal("(break)"@);
    reveal_strlit("(return null)");
    lemma_paren_literal("(return null)"@);
    reveal_strlit("(asm)");
    lemma_paren_literal("(asm)"@);
}

/// A literal `(...)` with no parenthesis inside is balanced.
proof fn lemma_paren_literal(s: Seq<char>)
    requires
        s.len() >= 2,
        s[0] == '(',
        s[s.len() - 1] == ')',
        forall|i: int| 1 <= i < s.len() - 1 ==> #[trigger] s[i] != '(' && s[i] != ')',
    ensures
        balanced(s),
{
    let inner = s.subrange(1, s.len() - 1);
    assert(paren_free(inner)) by {
        assert forall|i: int| 0 <= i < inner.len() implies #[trigger] inner[i] != '(' && inner[i] != ')' by {
            assert(inner[i] == s[i + 1]);
        }
    }
    lemma_paren_free_balanced(inner);
    lemma_balanced_wrap(inner);
    assert(s =~= seq!['('] + inner + seq![')']);
}

proof fn lemma_symbols(u: crate::ast::UnaryOperator, b: crate::ast::BinaryOperator)
    ensures
        paren_free(unary_symbol(u)),
        paren_free(binary_symbol(b)),
{
    reveal_strlit("+");
    reveal_strlit("-");
    reveal_strlit("&");
    reveal_strlit("*");
    reveal_strlit("~");
    reveal_strlit("!");
    reveal_strlit("index");
    reveal_strlit("/");
    reveal_strlit("%");
    reveal_strlit("<<");
    reveal_strlit(">>");
    reveal_strlit("<");
    reveal_strlit(">");
    reveal_strlit("<=");
    reveal_strlit(">=");
    reveal_strlit("==");
    reveal_strlit("!=");
    reveal_strlit("^");
    reveal_strlit("|");
    reveal_strlit("&&");
    reveal_strlit("||");
    reveal_strlit("=");
}

proof fn lemma_nat_decimal_free(n: nat)
    ensures
        paren_free(nat_decimal(n)),
    decreases n,
{
    if n >= 10 {
        lemma_nat_decimal_free(n / 10);
        assert(paren_free(seq![digit_char(n % 10)]));
        lemma_paren_free_concat(nat_decimal(n / 10), seq![digit_char(n % 10)]);
        assert(nat_decimal(n) =~= nat_decimal(n / 10) + seq![digit_char(n % 10)]);
    }
}

proof fn lemma_constant_free(c: Constant)
    requires
        constant_plain(c),
    ensures
        paren_free(constant_text(c)),
{
    lemma_heads();
    match c {
        Constant::Integer { base, number } => {
            if base != IntegerBase::Decimal {
                let radix = match base {
                    IntegerBase::Octal => 8int,
                    IntegerBase::Hexadecimal => 16int,
                    _ => 2int,
                };
                assert(constant_text(c) == radix_text(number@, radix));
                match crate::text::i64_from_radix(number@, radix) {
                    Some(v) => {
                        if v < 0 {
                            lemma_nat_decimal_free((-v) as nat);
                            lemma_paren_free_concat(seq!['-'], nat_decimal((-v) as nat));
                        } else {
                            lemma_nat_decimal_free(v as nat);
                        }
                    },
                    None => {},
                }
            }
        },
        Constant::Float { .. } => {},
        Constant::Character(ch) => {
            lemma_paren_free_concat("'"@, ch@);
            lemma_paren_free_concat("'"@ + ch@, "'"@);
        },
    }
}

// ---------------------------------------------------------------------------
// C code whose names and literals hold no parenthesis
// ---------------------------------------------------------------------------

pub open spec fn constant_plain(c: Constant) -> bool {
    match c {
        Constant::Integer { base, number } => base == IntegerBase::Decimal ==> paren_free(number@),
        Constant::Float { number, .. } => paren_free(number@),
        Constant::Character(ch) => paren_free(ch@),
    }
}

/// No name or literal of `e` holds a parenthesis.
pub open spec fn expr_plain(e: Expression) -> bool
    decreases e,
{
    match e {
        Expression::Identifier(n) => paren_free(n@),
        Expression::Constant(c) => constant_plain(c),
        Expression::StringLiteral(parts) => forall|i: int|
            0 <= i < parts@.len() ==> #[trigger] paren_free(parts@[i]@),
        Expression::Member { expression, identifier } => expr_plain(*expression) && paren_free(
            identifier@,
        ),
        Expression::UnaryOperator { operand, .. } => expr_plain(*operand),
        Expression::Cast { expression } => expr_plain(*expression),
        Expression::BinaryOperator { lhs, rhs, .. } => expr_plain(*lhs) && expr_plain(*rhs),
        Expression::Conditional { condition, then_expression, else_expression } => expr_plain(
            *condition,
        ) && expr_plain(*then_expression) && expr_plain(*else_expression),
        Expression::Comma(v) => exprs_plain(v@),
        Expression::Statement(s) => stmt_plain(*s),
        _ => true,
    }
}

pub open spec fn exprs_plain(s: Seq<Expression>) -> bool
    decreases s,
{
    if s.len() == 0 {
        true
    } else {
        exprs_plain(s.drop_last()) && expr_plain(s.last())
    }
}

pub open spec fn opt_expr_plain(e: Option<Box<Expression>>) -> bool
    decreases e,
{
    match e {
        Some(b) => expr_plain(*b),
        None => true,
    }
}

pub open spec fn init_plain(i: Initializer) -> bool
    decreases i,
{
    match i {
        Initializer::Expression(e) => expr_plain(*e),
        Initializer::List(v) => inits_plain(v@),
    }
}

pub open spec fn inits_plain(s: Seq<Initializer>) -> bool
    decreases s,
{
    if s.len() == 0 {
        true
    } else {
        inits_plain(s.drop_last()) && init_plain(s.last())
    }
}

pub open spec fn declarators_plain(s: Seq<InitDeclarator>) -> bool
    decreases s,
{
    if s.len() == 0 {
        true
    } else {
        &&& declarators_plain(s.drop_last())
        &&& paren_free(declared_name(s.last().kind))
        &&& match s.last().initializer {
            Some(i) => init_plain(i),
            None => true,
        }
    }
}

pub open spec fn decl_plain(d: Declaration) -> bool
    decreases d,
{
    declarators_plain(d.declarators@)
}

pub open spec fn item_plain(b: BlockItem) -> bool
    decreases b,
{
    match b {
        BlockItem::Declaration(d) => decl_plain(d),
        BlockItem::Statement(s) => stmt_plain(s),
        BlockItem::StaticAssert => true,
    }
}

pub open spec fn items_plain(s: Seq<BlockItem>) -> bool
    decreases s,
{
    if s.len() == 0 {
        true
    } else {
        items_plain(s.drop_last()) && item_plain(s.last())
    }
}

pub open spec fn for_init_plain(f: ForInitializer) -> bool
    decreases f,
{
    match f {
        ForInitializer::Expression(e) => expr_plain(*e),
        ForInitializer::Declaration(d) => decl_plain(d),
        _ => true,
    }
}

pub open spec fn label_plain(l: LabeledStatement) -> bool
    decreases l,
{
    &&& match l.label {
        Label::Identifier(n) => paren_free(n@),
        Label::Case(e) => expr_plain(*e),
        _ => true,
    }
    &&& stmt_plain(*l.statement)
}

/// No name or literal of `s` holds a parenthesis.
pub open spec fn stmt_plain(s: Statement) -> bool
    decreases s,
{
    match s {
        Statement::Labeled(l) => label_plain(l),
        Statement::Compound(v) => items_plain(v@),
        Statement::Expression(e) => opt_expr_plain(e),
        Statement::If { condition, then_statement, else_statement } => {
            &&& expr_plain(*condition)
            &&& stmt_plain(*then_statement)
            &&& match else_statement {
                Some(b) => stmt_plain(*b),
                None => true,
            }
        },
        Statement::Switch { expression, statement } => expr_plain(*expression) && stmt_plain(
            *statement,
        ),
        Statement::While { expression, statement } => expr_plain(*expression) && stmt_plain(
            *statement,
        ),
        Statement::DoWhile { statement, expression } => expr_plain(*expression) && stmt_plain(
            *statement,
        ),
        Statement::For { initializer, condition, step, statement } => {
            &&& for_init_plain(initializer)
            &&& opt_expr_plain(condition)
            &&& opt_expr_plain(step)
            &&& stmt_plain(*statement)
        },
        Statement::Goto(n) => paren_free(n@),
        Statement::Return(e) => opt_expr_plain(e),
        _ => true,
    }
}

// ---------------------------------------------------------------------------
// Every term is balanced
// ---------------------------------------------------------------------------

proof fn lemma_env_insert(env: Env, k: Seq<char>, v: Seq<char>)
    requires
        env_balanced(env),
        balanced(v),
    ensures
        env_balanced(env.insert(k, v)),
{
}

proof fn lemma_env_remove_keys(env: Env, ks: Set<Seq<char>>)
    requires
        env_balanced(env),
    ensures
        env_balanced(env.remove_keys(ks)),
{
}

/// The variable an assignment names is balanced when the target's text is.
proof fn lemma_target_balanced(target: Expression, text: Seq<char>)
    requires
        expr_plain(target),
        balanced(text),
    ensures
        balanced(crate::semantics::target_name(target, text)),
{
    match target {
        Expression::Identifier(n) => lemma_paren_free_balanced(n@),
        _ => {},
    }
}

pub proof fn lemma_expr_balanced(e: Expression, env: Env)
    requires
        expr_plain(e),
        env_balanced(env),
    ensures
        balanced(tr_expr(e, env).text),
        env_balanced(tr_expr(e, env).env),
    decreases e,
{
    lemma_heads();
    lemma_whole_literals();
    match e {
        Expression::Identifier(n) => {
            if !env.contains_key(n@) {
                lemma_paren_free_balanced(n@);
            }
        },
        Expression::Constant(c) => {
            lemma_constant_free(c);
            lemma_paren_free_balanced(constant_text(c));
        },
        Expression::StringLiteral(parts) => {
            let ps = names(parts@);
            assert forall|i: int| 0 <= i < ps.len() implies #[trigger] balanced(ps[i]) by {
                assert(paren_free(parts@[i]@));
                lemma_paren_free_balanced(ps[i]);
            }
            lemma_join_balanced(ps);
            lemma_form1("string"@, join(ps, " "@));
        },
        Expression::Member { expression, identifier } => {
            lemma_expr_balanced(*expression, env);
            lemma_paren_free_balanced(identifier@);
            lemma_form2("member"@, tr_expr(*expression, env).text, identifier@);
        },
        Expression::UnaryOperator { operator, operand } => {
            lemma_expr_balanced(*operand, env);
            let r = tr_expr(*operand, env);
            lemma_symbols(operator, crate::ast::BinaryOperator::Index);
            lemma_paren_free_balanced("1"@);
            if unary_assigns(operator) {
                let var = crate::semantics::target_name(*operand, r.text);
                let value = form2(unary_symbol(operator), r.text, "1"@);
                lemma_form2(unary_symbol(operator), r.text, "1"@);
                lemma_target_balanced(*operand, r.text);
                lemma_form2("="@, var, value);
                lemma_env_insert(r.env, var, value);
            } else {
                lemma_form1(unary_symbol(operator), r.text);
            }
            assert(tr_expr(e, env) == tr_unary(operator, *operand, r));
        },
        Expression::Cast { expression } => {
            lemma_expr_balanced(*expression, env);
            lemma_paren_free_balanced("temp"@);
            lemma_form2("cast"@, "temp"@, tr_expr(*expression, env).text);
        },
        Expression::BinaryOperator { operator, lhs, rhs } => {
            lemma_expr_balanced(*lhs, env);
            let l = tr_expr(*lhs, env);
            lemma_expr_balanced(*rhs, l.env);
            let r = tr_expr(*rhs, l.env);
            lemma_symbols(crate::ast::UnaryOperator::Plus, operator);
            lemma_form2(binary_symbol(operator), l.text, r.text);
            if crate::semantics::binary_assigns(operator) {
                let var = crate::semantics::target_name(*lhs, l.text);
                let value = if operator == crate::ast::BinaryOperator::Assign {
                    r.text
                } else {
                    form2(binary_symbol(operator), l.text, r.text)
                };
                lemma_target_balanced(*lhs, l.text);
                lemma_form2("="@, var, value);
                lemma_env_insert(r.env, var, value);
            }
            assert(tr_expr(e, env) == tr_binary(operator, *lhs, l, r));
        },
        Expression::Conditional { condition, then_expression, else_expression } => {
            lemma_expr_balanced(*condition, env);
            let c = tr_expr(*condition, env);
            lemma_expr_balanced(*then_expression, c.env);
            let t = tr_expr(*then_expression, c.env);
            lemma_expr_balanced(*else_expression, t.env);
            let f = tr_expr(*else_expression, t.env);
            lemma_form3("if"@, c.text, t.text, f.text);
            lemma_env_remove_keys(f.env, (c.mutated + t.mutated + f.mutated).to_set());
        },
        Expression::Comma(v) => {
            if v.len() > 0 {
                lemma_exprs_balanced(v@, env);
                let p = tr_exprs(v@, env);
                lemma_join_balanced(p.texts);
                lemma_form1("compound"@, join(p.texts, " "@));
            }
        },
        Expression::Statement(st) => {
            lemma_stmt_balanced(*st, env);
        },
        _ => {},
    }
}

pub proof fn lemma_exprs_balanced(s: Seq<Expression>, env: Env)
    requires
        exprs_plain(s),
        env_balanced(env),
    ensures
        forall|i: int|
            0 <= i < tr_exprs(s, env).texts.len() ==> #[trigger] balanced(
                tr_exprs(s, env).texts[i],
            ),
        env_balanced(tr_exprs(s, env).env),
    decreases s,
{
    if s.len() > 0 {
        lemma_exprs_balanced(s.drop_last(), env);
        let p = tr_exprs(s.drop_last(), env);
        lemma_expr_balanced(s.last(), p.env);
        let q = tr_exprs(s, env);
        assert forall|i: int| 0 <= i < q.texts.len() implies #[trigger] balanced(q.texts[i]) by {
            if i < p.texts.len() {
                assert(q.texts[i] == p.texts[i]);
            }
        }
    }
}

pub proof fn lemma_opt_expr_balanced(e: Option<Box<Expression>>, env: Env)
    requires
        opt_expr_plain(e),
        env_balanced(env),
    ensures
        balanced(tr_opt_expr(e, env).text),
        env_balanced(tr_opt_expr(e, env).env),
    decreases e,
{
    lemma_whole_literals();
    match e {
        Some(b) => lemma_expr_balanced(*b, env),
        None => {},
    }
}

pub proof fn lemma_init_balanced(i: Initializer, env: Env)
    requires
        init_plain(i),
        env_balanced(env),
    ensures
        balanced(tr_init(i, env).text),
        env_balanced(tr_init(i, env).env),
    decreases i,
{
    lemma_heads();
    match i {
        Initializer::Expression(e) => lemma_expr_balanced(*e, env),
        Initializer::List(v) => {
            lemma_inits_balanced(v@, env);
            let p = tr_inits(v@, env);
            lemma_join_balanced(p.texts);
            lemma_form1("list"@, join(p.texts, " "@));
        },
    }
}

pub proof fn lemma_inits_balanced(s: Seq<Initializer>, env: Env)
    requires
        inits_plain(s),
        env_balanced(env),
    ensures
        forall|i: int|
            0 <= i < tr_inits(s, env).texts.len() ==> #[trigger] balanced(
                tr_inits(s, env).texts[i],
            ),
        env_balanced(tr_inits(s, env).env),
    decreases s,
{
    if s.len() > 0 {
        lemma_inits_balanced(s.drop_last(), env);
        let p = tr_inits(s.drop_last(), env);
        lemma_init_balanced(s.last(), p.env);
        let q = tr_inits(s, env);
        assert forall|i: int| 0 <= i < q.texts.len() implies #[trigger] balanced(q.texts[i]) by {
            if i < p.texts.len() {
                assert(q.texts[i] == p.texts[i]);
            }
        }
    }
}

pub proof fn lemma_declarators_balanced(s: Seq<InitDeclarator>, env: Env)
    requires
        declarators_plain(s),
        env_balanced(env),
    ensures
        forall|i: int|
            0 <= i < tr_declarators(s, env).texts.len() ==> #[trigger] balanced(
                tr_declarators(s, env).texts[i],
            ),
        env_balanced(tr_declarators(s, env).env),
    decreases s,
{
    if s.len() > 0 {
        lemma_heads();
        lemma_declarators_balanced(s.drop_last(), env);
        let p = tr_declarators(s.drop_last(), env);
        let d = s.last();
        let x = tr_declarator_value(d, p.env);
        match d.initializer {
            Some(i) => lemma_init_balanced(i, p.env),
            None => lemma_paren_free_balanced("null"@),
        }
        let name = declared_name(d.kind);
        lemma_paren_free_balanced(name);
        lemma_form2("declaration"@, name, x.text);
        lemma_env_insert(x.env, name, x.text);
        let q = tr_declarators(s, env);
        assert forall|i: int| 0 <= i < q.texts.len() implies #[trigger] balanced(q.texts[i]) by {
            if i < p.texts.len() {
                assert(q.texts[i] == p.texts[i]);
            }
        }
    }
}

pub proof fn lemma_decl_balanced(d: Declaration, env: Env)
    requires
        decl_plain(d),
        env_balanced(env),
    ensures
        balanced(tr_decl(d, env).text),
        env_balanced(tr_decl(d, env).env),
    decreases d,
{
    lemma_declarators_balanced(d.declarators@, env);
    lemma_join_balanced(tr_declarators(d.declarators@, env).texts);
}

pub proof fn lemma_for_init_balanced(f: ForInitializer, env: Env)
    requires
        for_init_plain(f),
        env_balanced(env),
    ensures
        balanced(tr_for_init(f, env).text),
        env_balanced(tr_for_init(f, env).env),
    decreases f,
{
    lemma_whole_literals();
    match f {
        ForInitializer::Expression(e) => lemma_expr_balanced(*e, env),
        ForInitializer::Declaration(d) => lemma_decl_balanced(d, env),
        _ => {},
    }
}

pub proof fn lemma_item_balanced(b: BlockItem, env: Env)
    requires
        item_plain(b),
        env_balanced(env),
    ensures
        balanced(tr_item(b, env).text),
        env_balanced(tr_item(b, env).env),
    decreases b,
{
    lemma_whole_literals();
    match b {
        BlockItem::Declaration(d) => lemma_decl_balanced(d, env),
        BlockItem::Statement(st) => lemma_stmt_balanced(st, env),
        BlockItem::StaticAssert => {},
    }
}

pub proof fn lemma_items_balanced(s: Seq<BlockItem>, env: Env)
    requires
        items_plain(s),
        env_balanced(env),
    ensures
        forall|i: int|
            0 <= i < tr_items(s, env).texts.len() ==> #[trigger] balanced(
                tr_items(s, env).texts[i],
            ),
        env_balanced(tr_items(s, env).env),
    decreases s,
{
    if s.len() > 0 {
        lemma_items_balanced(s.drop_last(), env);
        let p = tr_items(s.drop_last(), env);
        lemma_item_balanced(s.last(), p.env);
        let q = tr_items(s, env);
        assert forall|i: int| 0 <= i < q.texts.len() implies #[trigger] balanced(q.texts[i]) by {
            if i < p.texts.len() {
                assert(q.texts[i] == p.texts[i]);
            }
        }
    }
}

pub proof fn lemma_label_balanced(l: LabeledStatement, env: Env)
    requires
        label_plain(l),
        env_balanced(env),
    ensures
        balanced(tr_label(l, env).text),
        env_balanced(tr_label(l, env).env),
    decreases l,
{
    lemma_heads();
    lemma_whole_literals();
    lemma_stmt_balanced(*l.statement, env);
    let r = tr_stmt(*l.statement, env);
    match l.label {
        Label::Identifier(n) => {
            lemma_paren_free_balanced(n@);
            lemma_form2("label"@, n@, r.text);
        },
        Label::Case(e) => {
            lemma_expr_balanced(*e, r.env);
            lemma_form2("case"@, tr_expr(*e, r.env).text, r.text);
        },
        Label::Default => {
            lemma_paren_free_balanced("default"@);
            lemma_form2("case"@, "default"@, r.text);
        },
        Label::CaseRange => {},
    }
}

pub proof fn lemma_stmt_balanced(s: Statement, env: Env)
    requires
        stmt_plain(s),
        env_balanced(env),
    ensures
        balanced(tr_stmt(s, env).text),
        env_balanced(tr_stmt(s, env).env),
    decreases s,
{
    lemma_heads();
    lemma_whole_literals();
    match s {
        Statement::Labeled(l) => lemma_label_balanced(l, env),
        Statement::Compound(v) => {
            if v.len() > 0 {
                lemma_items_balanced(v@, env);
                let p = tr_items(v@, env);
                lemma_join_balanced(p.texts);
                lemma_form1("compound"@, join(p.texts, " "@));
            }
        },
        Statement::Expression(e) => lemma_opt_expr_balanced(e, env),
        Statement::If { condition, then_statement, else_statement } => {
            lemma_expr_balanced(*condition, env);
            let c = tr_expr(*condition, env);
            lemma_stmt_balanced(*then_statement, c.env);
            let t = tr_stmt(*then_statement, c.env);
            let f = match else_statement {
                Some(b) => tr_stmt(*b, t.env),
                None => crate::semantics::ignored(t.env),
            };
            match else_statement {
                Some(b) => lemma_stmt_balanced(*b, t.env),
                None => {},
            }
            lemma_form3("if"@, c.text, t.text, f.text);
            lemma_env_remove_keys(f.env, (c.mutated + t.mutated + f.mutated).to_set());
        },
        Statement::Switch { expression, statement } => {
            lemma_expr_balanced(*expression, env);
            let c = tr_expr(*expression, env);
            lemma_stmt_balanced(*statement, c.env);
            let b = tr_stmt(*statement, c.env);
            lemma_form2("switch"@, c.text, b.text);
            lemma_env_remove_keys(b.env, (c.mutated + b.mutated).to_set());
        },
        Statement::While { expression, statement } => {
            lemma_expr_balanced(*expression, env);
            let c = tr_expr(*expression, env);
            lemma_stmt_balanced(*statement, c.env);
            let b = tr_stmt(*statement, c.env);
            lemma_form2("while"@, c.text, b.text);
            lemma_env_remove_keys(b.env, (c.mutated + b.mutated).to_set());
        },
        Statement::DoWhile { statement, expression } => {
            lemma_expr_balanced(*expression, env);
            let c = tr_expr(*expression, env);
            lemma_stmt_balanced(*statement, c.env);
            let b = tr_stmt(*statement, c.env);
            lemma_form2("do-while"@, c.text, b.text);
            lemma_env_remove_keys(b.env, (c.mutated + b.mutated).to_set());
        },
        Statement::For { initializer, condition, step, statement } => {
            lemma_for_init_balanced(initializer, env);
            let i = tr_for_init(initializer, env);
            lemma_opt_expr_balanced(condition, i.env);
            let c = tr_opt_expr(condition, i.env);
            lemma_opt_expr_balanced(step, c.env);
            let st = tr_opt_expr(step, c.env);
            let env1 = st.env.remove_keys(st.mutated.to_set());
            lemma_env_remove_keys(st.env, st.mutated.to_set());
            lemma_stmt_balanced(*statement, env1);
            let b = tr_stmt(*statement, env1);
            lemma_form4("for"@, i.text, c.text, st.text, b.text);
            lemma_env_remove_keys(
                b.env,
                (i.mutated + c.mutated + b.mutated + st.mutated).to_set(),
            );
        },
        Statement::Goto(n) => {
            lemma_paren_free_balanced(n@);
            lemma_form1("goto"@, n@);
        },
        Statement::Return(Some(e)) => {
            assert(opt_expr_plain(Some(e)));
            lemma_expr_balanced(*e, env);
            lemma_form1("return"@, tr_expr(*e, env).text);
        },
        _ => {},
    }
}

/// When no name or literal of a function body holds a parenthesis, the
/// term the body is transpiled to has balanced parentheses.
pub proof fn law_terms_balanced(body: Statement)
    requires
        stmt_plain(body),
    ensures
        balanced(crate::semantics::function_term(body)),
{
    lemma_stmt_balanced(body, Map::empty());
}

} // verus!
