//! The arithmetic rewrite rules are sound: read over the integers, the
//! pattern a rule searches for and the pattern it rewrites to have the same
//! value, whatever values the pattern variables take; and so are the rules
//! on logical operators, read over truth values, and the bitwise rules, read
//! over 64-bit words.
use vstd::prelude::*;

use crate::rules::rule_table;
use crate::text::digit_char;

verus! {

/// An arithmetic pattern of the rule language.
pub enum Pattern {
    /// A pattern variable `?x`.
    Var(char),
    /// A pattern variable written in parentheses, `(?x)`.
    ParenVar(char),
    /// A one-digit number.
    Num(nat),
    /// A one-digit number written in parentheses, `(n)`.
    ParenNum(nat),
    /// A word, such as `true`.
    Word(Seq<char>),
    /// `(op a)`
    Unary(Seq<char>, Box<Pattern>),
    /// `(op a b)`
    Binary(Seq<char>, Box<Pattern>, Box<Pattern>),
}

/// The text of a pattern.
pub open spec fn pattern_text(p: Pattern) -> Seq<char>
    decreases p,
{
    match p {
        Pattern::Var(c) => seq!['?', c],
        Pattern::ParenVar(c) => seq!['(', '?', c, ')'],
        Pattern::Num(n) => seq![digit_char(n)],
        Pattern::ParenNum(n) => seq!['(', digit_char(n), ')'],
        Pattern::Word(w) => w,
        Pattern::Unary(op, a) => seq!['('] + op + seq![' '] + pattern_text(*a) + seq![')'],
        Pattern::Binary(op, a, b) => seq!['('] + op + seq![' '] + pattern_text(*a) + seq![' ']
            + pattern_text(*b) + seq![')'],
    }
}

/// The pattern is built from one-digit numbers, variables, negation `-`, and
/// the binary `+`, `-` and `*`.
pub open spec fn arithmetic(p: Pattern) -> bool
    decreases p,
{
    match p {
        Pattern::Num(n) => n < 10,
        Pattern::ParenNum(n) => n < 10,
        Pattern::Word(_) => false,
        Pattern::Unary(op, a) => op == seq!['-'] && arithmetic(*a),
        Pattern::Binary(op, a, b) => (op == seq!['+'] || op == seq!['-'] || op == seq!['*'])
            && arithmetic(*a) && arithmetic(*b),
        _ => true,
    }
}

/// The integer value of an arithmetic pattern, the variables taking the values
/// `v` gives them.
pub open spec fn value(p: Pattern, v: spec_fn(char) -> int) -> int
    decreases p,
{
    match p {
        Pattern::Var(c) => v(c),
        Pattern::ParenVar(c) => v(c),
        Pattern::Num(n) => n as int,
        Pattern::ParenNum(n) => n as int,
        Pattern::Word(_) => 0,
        Pattern::Unary(_, a) => -value(*a, v),
        Pattern::Binary(op, a, b) => if op == seq!['+'] {
            value(*a, v) + value(*b, v)
        } else if op == seq!['-'] {
            value(*a, v) - value(*b, v)
        } else {
            value(*a, v) * value(*b, v)
        },
    }
}

/// The rule's two texts are arithmetic patterns of equal value for all values
/// of their variables.
pub open spec fn sound_over_integers(rule: (Seq<char>, Seq<char>, Seq<char>)) -> bool {
    exists|s: Pattern, a: Pattern|
        #![trigger pattern_text(s), pattern_text(a)]
        {
            &&& arithmetic(s)
            &&& arithmetic(a)
            &&& pattern_text(s) == rule.1
            &&& pattern_text(a) == rule.2
            &&& forall|v: spec_fn(char) -> int| #[trigger] value(s, v) == value(a, v)
        }
}

proof fn lemma_operators_differ()
    ensures
        seq!['+'] != seq!['-'],
        seq!['+'] != seq!['*'],
        seq!['-'] != seq!['*'],
{
    assert(seq!['+'][0] != seq!['-'][0]);
    assert(seq!['+'][0] != seq!['*'][0]);
    assert(seq!['-'][0] != seq!['*'][0]);
}

spec fn var(c: char) -> Box<Pattern> {
    Box::new(Pattern::Var(c))
}

spec fn pvar(c: char) -> Box<Pattern> {
    Box::new(Pattern::ParenVar(c))
}

spec fn num(n: nat) -> Box<Pattern> {
    Box::new(Pattern::Num(n))
}

spec fn pnum(n: nat) -> Box<Pattern> {
    Box::new(Pattern::ParenNum(n))
}

spec fn bin(op: char, a: Box<Pattern>, b: Box<Pattern>) -> Box<Pattern> {
    Box::new(Pattern::Binary(seq![op], a, b))
}

spec fn neg(a: Box<Pattern>) -> Box<Pattern> {
    Box::new(Pattern::Unary(seq!['-'], a))
}

proof fn lemma_rule_0()
    ensures
        sound_over_integers(rule_table()[0]),
{
    let s = *bin('+', bin('+', var('a'), num(1)), num(1));
    let a = *bin('+', var('a'), num(2));
    reveal_strlit("(+ (+ ?a 1) 1)");
    reveal_strlit("(+ ?a 2)");
    reveal_with_fuel(pattern_text, 8);
    reveal_with_fuel(arithmetic, 8);
    reveal_with_fuel(value, 8);
    lemma_operators_differ();
    assert(rule_table()[0] == crate::rules::rule_group_0()[0]);
    assert(pattern_text(s) =~= "(+ (+ ?a 1) 1)"@);
    assert(pattern_text(a) =~= "(+ ?a 2)"@);
    assert forall|v: spec_fn(char) -> int| #[trigger] value(s, v) == value(a, v) by {
        let (x, y, z) = (v('a'), v('b'), v('c'));
        assert(value(s, v) == x + 1 + 1);
        assert(value(a, v) == x + 2);
    }
}

proof fn lemma_rule_2()
    ensures
        sound_over_integers(rule_table()[2]),
{
    let s = *bin('+', bin('+', bin('+', bin('+', pvar('a'), pnum(1)), pnum(1)), pnum(1)), pnum(1));
    let a = *bin('+', var('a'), bin('+', num(2), num(2)));
    reveal_strlit("(+ (+ (+ (+ (?a) (1)) (1)) (1)) (1))");
    reveal_strlit("(+ ?a (+ 2 2))");
    reveal_with_fuel(pattern_text, 8);
    reveal_with_fuel(arithmetic, 8);
    reveal_with_fuel(value, 8);
    lemma_operators_differ();
    assert(rule_table()[2] == crate::rules::rule_group_0()[2]);
    assert(pattern_text(s) =~= "(+ (+ (+ (+ (?a) (1)) (1)) (1)) (1))"@);
    assert(pattern_text(a) =~= "(+ ?a (+ 2 2))"@);
    assert forall|v: spec_fn(char) -> int| #[trigger] value(s, v) == value(a, v) by {
        let (x, y, z) = (v('a'), v('b'), v('c'));
        assert(value(s, v) == x + 1 + 1 + 1 + 1);
        assert(value(a, v) == x + (2 + 2));
    }
}

proof fn lemma_rule_3()
    ensures
        sound_over_integers(rule_table()[3]),
{
    let s = *bin('-', bin('+', bin('+', pvar('a'), pvar('b')), pvar('c')), pvar('b'));
    let a = *bin('+', pvar('a'), pvar('c'));
    reveal_strlit("(- (+ (+ (?a) (?b)) (?c)) (?b))");
    reveal_strlit("(+ (?a) (?c))");
    reveal_with_fuel(pattern_text, 8);
    reveal_with_fuel(arithmetic, 8);
    reveal_with_fuel(value, 8);
    lemma_operators_differ();
    assert(rule_table()[3] == crate::rules::rule_group_0()[3]);
    assert(pattern_text(s) =~= "(- (+ (+ (?a) (?b)) (?c)) (?b))"@);
    assert(pattern_text(a) =~= "(+ (?a) (?c))"@);
    assert forall|v: spec_fn(char) -> int| #[trigger] value(s, v) == value(a, v) by {
        let (x, y, z) = (v('a'), v('b'), v('c'));
        assert(value(s, v) == x + y + z - y);
        assert(value(a, v) == x + z);
    }
}

proof fn lemma_rule_4()
    ensures
        sound_over_integers(rule_table()[4]),
{
    let s = *bin(
        '+',
        bin('+', bin('+', bin('+', bin('+', bin('+', var('a'), pnum(1)), pnum(1)), pnum(1)), pnum(1)), pnum(1)),
        pnum(1),
    );
    let a = *bin('+', var('a'), bin('+', bin('+', num(2), num(2)), num(2)));
    reveal_strlit("(+ (+ (+ (+ (+ (+ ?a (1)) (1)) (1)) (1)) (1)) (1))");
    reveal_strlit("(+ ?a (+ (+ 2 2) 2))");
    reveal_with_fuel(pattern_text, 8);
    reveal_with_fuel(arithmetic, 8);
    reveal_with_fuel(value, 8);
    lemma_operators_differ();
    assert(rule_table()[4] == crate::rules::rule_group_0()[4]);
    assert(pattern_text(s) =~= "(+ (+ (+ (+ (+ (+ ?a (1)) (1)) (1)) (1)) (1)) (1))"@);
    assert(pattern_text(a) =~= "(+ ?a (+ (+ 2 2) 2))"@);
    assert forall|v: spec_fn(char) -> int| #[trigger] value(s, v) == value(a, v) by {
        let (x, y, z) = (v('a'), v('b'), v('c'));
        assert(value(s, v) == x + 1 + 1 + 1 + 1 + 1 + 1);
        assert(value(a, v) == x + (2 + 2 + 2));
    }
}

proof fn lemma_rule_8()
    ensures
        sound_over_integers(rule_table()[8]),
{
    let s = *bin('+', var('a'), var('b'));
    let a = *bin('+', var('b'), var('a'));
    reveal_strlit("(+ ?a ?b)");
    reveal_strlit("(+ ?b ?a)");
    reveal_with_fuel(pattern_text, 8);
    reveal_with_fuel(arithmetic, 8);
    reveal_with_fuel(value, 8);
    lemma_operators_differ();
    assert(rule_table()[8] == crate::rules::rule_group_0()[8]);
    assert(pattern_text(s) =~= "(+ ?a ?b)"@);
    assert(pattern_text(a) =~= "(+ ?b ?a)"@);
    assert forall|v: spec_fn(char) -> int| #[trigger] value(s, v) == value(a, v) by {
        let (x, y, z) = (v('a'), v('b'), v('c'));
        assert(value(s, v) == x + y);
        assert(value(a, v) == y + x);
    }
}

proof fn lemma_rule_9()
    ensures
        sound_over_integers(rule_table()[9]),
{
    let s = *bin('*', var('a'), var('b'));
    let a = *bin('*', var('b'), var('a'));
    reveal_strlit("(* ?a ?b)");
    reveal_strlit("(* ?b ?a)");
    reveal_with_fuel(pattern_text, 8);
    reveal_with_fuel(arithmetic, 8);
    reveal_with_fuel(value, 8);
    lemma_operators_differ();
    assert(rule_table()[9] == crate::rules::rule_group_0()[9]);
    assert(pattern_text(s) =~= "(* ?a ?b)"@);
    assert(pattern_text(a) =~= "(* ?b ?a)"@);
    assert forall|v: spec_fn(char) -> int| #[trigger] value(s, v) == value(a, v) by {
        let (x, y, z) = (v('a'), v('b'), v('c'));
        assert(value(s, v) == x * y);
        assert(value(a, v) == y * x);
        assert(x * y == y * x) by (nonlinear_arith);
    }
}

proof fn lemma_rule_10()
    ensures
        sound_over_integers(rule_table()[10]),
{
    let s = *bin('+', var('a'), bin('+', var('b'), var('c')));
    let a = *bin('+', bin('+', var('a'), var('b')), var('c'));
    reveal_strlit("(+ ?a (+ ?b ?c))");
    reveal_strlit("(+ (+ ?a ?b) ?c)");
    reveal_with_fuel(pattern_text, 8);
    reveal_with_fuel(arithmetic, 8);
    reveal_with_fuel(value, 8);
    lemma_operators_differ();
    assert(rule_table()[10] == crate::rules::rule_group_0()[10]);
    assert(pattern_text(s) =~= "(+ ?a (+ ?b ?c))"@);
    assert(pattern_text(a) =~= "(+ (+ ?a ?b) ?c)"@);
    assert forall|v: spec_fn(char) -> int| #[trigger] value(s, v) == value(a, v) by {
        let (x, y, z) = (v('a'), v('b'), v('c'));
        assert(value(s, v) == x + (y + z));
        assert(value(a, v) == x + y + z);
    }
}

proof fn lemma_rule_11()
    ensures
        sound_over_integers(rule_table()[11]),
{
    let s = *bin('*', var('a'), bin('*', var('b'), var('c')));
    let a = *bin('*', bin('*', var('a'), var('b')), var('c'));
    reveal_strlit("(* ?a (* ?b ?c))");
    reveal_strlit("(* (* ?a ?b) ?c)");
    reveal_with_fuel(pattern_text, 8);
    reveal_with_fuel(arithmetic, 8);
    reveal_with_fuel(value, 8);
    lemma_operators_differ();
    assert(rule_table()[11] == crate::rules::rule_group_0()[11]);
    assert(pattern_text(s) =~= "(* ?a (* ?b ?c))"@);
    assert(pattern_text(a) =~= "(* (* ?a ?b) ?c)"@);
    assert forall|v: spec_fn(char) -> int| #[trigger] value(s, v) == value(a, v) by {
        let (x, y, z) = (v('a'), v('b'), v('c'));
        assert(value(s, v) == x * (y * z));
        assert(value(a, v) == x * y * z);
        assert(x * (y * z) == x * y * z) by (nonlinear_arith);
    }
}

proof fn lemma_rule_12()
    ensures
        sound_over_integers(rule_table()[12]),
{
    let s = *bin('*', var('a'), bin('+', var('b'), var('c')));
    let a = *bin('+', bin('*', var('a'), var('b')), bin('*', var('a'), var('c')));
    reveal_strlit("(* ?a (+ ?b ?c))");
    reveal_strlit("(+ (* ?a ?b) (* ?a ?c))");
    reveal_with_fuel(pattern_text, 8);
    reveal_with_fuel(arithmetic, 8);
    reveal_with_fuel(value, 8);
    lemma_operators_differ();
    assert(rule_table()[12] == crate::rules::rule_group_1()[0]);
    assert(pattern_text(s) =~= "(* ?a (+ ?b ?c))"@);
    assert(pattern_text(a) =~= "(+ (* ?a ?b) (* ?a ?c))"@);
    assert forall|v: spec_fn(char) -> int| #[trigger] value(s, v) == value(a, v) by {
        let (x, y, z) = (v('a'), v('b'), v('c'));
        assert(value(s, v) == x * (y + z));
        assert(value(a, v) == x * y + x * z);
        assert(x * (y + z) == x * y + x * z) by (nonlinear_arith);
    }
}

proof fn lemma_rule_13()
    ensures
        sound_over_integers(rule_table()[13]),
{
    let s = *bin('+', var('a'), num(0));
    let a = *var('a');
    reveal_strlit("(+ ?a 0)");
    reveal_strlit("?a");
    reveal_with_fuel(pattern_text, 8);
    reveal_with_fuel(arithmetic, 8);
    reveal_with_fuel(value, 8);
    lemma_operators_differ();
    assert(rule_table()[13] == crate::rules::rule_group_1()[1]);
    assert(pattern_text(s) =~= "(+ ?a 0)"@);
    assert(pattern_text(a) =~= "?a"@);
    assert forall|v: spec_fn(char) -> int| #[trigger] value(s, v) == value(a, v) by {
        let (x, y, z) = (v('a'), v('b'), v('c'));
        assert(value(s, v) == x + 0);
        assert(value(a, v) == x);
    }
}

proof fn lemma_rule_14()
    ensures
        sound_over_integers(rule_table()[14]),
{
    let s = *bin('*', var('a'), num(1));
    let a = *var('a');
    reveal_strlit("(* ?a 1)");
    reveal_strlit("?a");
    reveal_with_fuel(pattern_text, 8);
    reveal_with_fuel(arithmetic, 8);
    reveal_with_fuel(value, 8);
    lemma_operators_differ();
    assert(rule_table()[14] == crate::rules::rule_group_1()[2]);
    assert(pattern_text(s) =~= "(* ?a 1)"@);
    assert(pattern_text(a) =~= "?a"@);
    assert forall|v: spec_fn(char) -> int| #[trigger] value(s, v) == value(a, v) by {
        let (x, y, z) = (v('a'), v('b'), v('c'));
        assert(value(s, v) == x * 1);
        assert(value(a, v) == x);
    }
}

proof fn lemma_rule_15()
    ensures
        sound_over_integers(rule_table()[15]),
{
    let s = *bin('+', var('a'), num(0));
    let a = *var('a');
    reveal_strlit("(+ ?a 0)");
    reveal_strlit("?a");
    reveal_with_fuel(pattern_text, 8);
    reveal_with_fuel(arithmetic, 8);
    reveal_with_fuel(value, 8);
    lemma_operators_differ();
    assert(rule_table()[15] == crate::rules::rule_group_1()[3]);
    assert(pattern_text(s) =~= "(+ ?a 0)"@);
    assert(pattern_text(a) =~= "?a"@);
    assert forall|v: spec_fn(char) -> int| #[trigger] value(s, v) == value(a, v) by {
        let (x, y, z) = (v('a'), v('b'), v('c'));
        assert(value(s, v) == x + 0);
        assert(value(a, v) == x);
    }
}

proof fn lemma_rule_16()
    ensures
        sound_over_integers(rule_table()[16]),
{
    let s = *bin('*', var('a'), num(0));
    let a = *num(0);
    reveal_strlit("(* ?a 0)");
    reveal_strlit("0");
    reveal_with_fuel(pattern_text, 8);
    reveal_with_fuel(arithmetic, 8);
    reveal_with_fuel(value, 8);
    lemma_operators_differ();
    assert(rule_table()[16] == crate::rules::rule_group_1()[4]);
    assert(pattern_text(s) =~= "(* ?a 0)"@);
    assert(pattern_text(a) =~= "0"@);
    assert forall|v: spec_fn(char) -> int| #[trigger] value(s, v) == value(a, v) by {
        let (x, y, z) = (v('a'), v('b'), v('c'));
        assert(value(s, v) == x * 0);
        assert(value(a, v) == 0);
    }
}

proof fn lemma_rule_17()
    ensures
        sound_over_integers(rule_table()[17]),
{
    let s = *bin('+', var('a'), var('a'));
    let a = *bin('*', var('a'), num(2));
    reveal_strlit("(+ ?a ?a)");
    reveal_strlit("(* ?a 2)");
    reveal_with_fuel(pattern_text, 8);
    reveal_with_fuel(arithmetic, 8);
    reveal_with_fuel(value, 8);
    lemma_operators_differ();
    assert(rule_table()[17] == crate::rules::rule_group_1()[5]);
    assert(pattern_text(s) =~= "(+ ?a ?a)"@);
    assert(pattern_text(a) =~= "(* ?a 2)"@);
    assert forall|v: spec_fn(char) -> int| #[trigger] value(s, v) == value(a, v) by {
        let (x, y, z) = (v('a'), v('b'), v('c'));
        assert(value(s, v) == x + x);
        assert(value(a, v) == x * 2);
    }
}

proof fn lemma_rule_18()
    ensures
        sound_over_integers(rule_table()[18]),
{
    let s = *bin('-', var('a'), var('a'));
    let a = *num(0);
    reveal_strlit("(- ?a ?a)");
    reveal_strlit("0");
    reveal_with_fuel(pattern_text, 8);
    reveal_with_fuel(arithmetic, 8);
    reveal_with_fuel(value, 8);
    lemma_operators_differ();
    assert(rule_table()[18] == crate::rules::rule_group_1()[6]);
    assert(pattern_text(s) =~= "(- ?a ?a)"@);
    assert(pattern_text(a) =~= "0"@);
    assert forall|v: spec_fn(char) -> int| #[trigger] value(s, v) == value(a, v) by {
        let (x, y, z) = (v('a'), v('b'), v('c'));
        assert(value(s, v) == x - x);
        assert(value(a, v) == 0);
    }
}

proof fn lemma_rule_19()
    ensures
        sound_over_integers(rule_table()[19]),
{
    let s = *bin('-', num(0), var('a'));
    let a = *neg(var('a'));
    reveal_strlit("(- 0 ?a)");
    reveal_strlit("(- ?a)");
    reveal_with_fuel(pattern_text, 8);
    reveal_with_fuel(arithmetic, 8);
    reveal_with_fuel(value, 8);
    lemma_operators_differ();
    assert(rule_table()[19] == crate::rules::rule_group_1()[7]);
    assert(pattern_text(s) =~= "(- 0 ?a)"@);
    assert(pattern_text(a) =~= "(- ?a)"@);
    assert forall|v: spec_fn(char) -> int| #[trigger] value(s, v) == value(a, v) by {
        let (x, y, z) = (v('a'), v('b'), v('c'));
        assert(value(s, v) == 0 - x);
        assert(value(a, v) == -x);
    }
}

proof fn lemma_rule_20()
    ensures
        sound_over_integers(rule_table()[20]),
{
    let s = *bin('-', var('a'), num(0));
    let a = *var('a');
    reveal_strlit("(- ?a 0)");
    reveal_strlit("?a");
    reveal_with_fuel(pattern_text, 8);
    reveal_with_fuel(arithmetic, 8);
    reveal_with_fuel(value, 8);
    lemma_operators_differ();
    assert(rule_table()[20] == crate::rules::rule_group_1()[8]);
    assert(pattern_text(s) =~= "(- ?a 0)"@);
    assert(pattern_text(a) =~= "?a"@);
    assert forall|v: spec_fn(char) -> int| #[trigger] value(s, v) == value(a, v) by {
        let (x, y, z) = (v('a'), v('b'), v('c'));
        assert(value(s, v) == x - 0);
        assert(value(a, v) == x);
    }
}

proof fn lemma_rule_21()
    ensures
        sound_over_integers(rule_table()[21]),
{
    let s = *bin('-', bin('+', var('a'), var('b')), var('b'));
    let a = *var('a');
    reveal_strlit("(- (+ ?a ?b) ?b)");
    reveal_strlit("?a");
    reveal_with_fuel(pattern_text, 8);
    reveal_with_fuel(arithmetic, 8);
    reveal_with_fuel(value, 8);
    lemma_operators_differ();
    assert(rule_table()[21] == crate::rules::rule_group_1()[9]);
    assert(pattern_text(s) =~= "(- (+ ?a ?b) ?b)"@);
    assert(pattern_text(a) =~= "?a"@);
    assert forall|v: spec_fn(char) -> int| #[trigger] value(s, v) == value(a, v) by {
        let (x, y, z) = (v('a'), v('b'), v('c'));
        assert(value(s, v) == x + y - y);
        assert(value(a, v) == x);
    }
}

proof fn lemma_rule_22()
    ensures
        sound_over_integers(rule_table()[22]),
{
    let s = *bin('+', bin('-', var('a'), var('b')), var('b'));
    let a = *var('a');
    reveal_strlit("(+ (- ?a ?b) ?b)");
    reveal_strlit("?a");
    reveal_with_fuel(pattern_text, 8);
    reveal_with_fuel(arithmetic, 8);
    reveal_with_fuel(value, 8);
    lemma_operators_differ();
    assert(rule_table()[22] == crate::rules::rule_group_1()[10]);
    assert(pattern_text(s) =~= "(+ (- ?a ?b) ?b)"@);
    assert(pattern_text(a) =~= "?a"@);
    assert forall|v: spec_fn(char) -> int| #[trigger] value(s, v) == value(a, v) by {
        let (x, y, z) = (v('a'), v('b'), v('c'));
        assert(value(s, v) == x - y + y);
        assert(value(a, v) == x);
    }
}

/// The positions in the rule set of the rules on integer arithmetic: the
/// compound rules on additions of constants, commutativity, associativity and
/// distributivity of `+` and `*`, and the identities of `+`, `-` and `*` with
/// `0`, `1` and a repeated operand.
pub open spec fn arithmetic_rules() -> Seq<int> {
    seq![0, 2, 3, 4, 8, 9, 10, 11, 12, 13, 14, 15, 16, 17, 18, 19, 20, 21, 22]
}

/// Every arithmetic rule of the rule set is sound: read over the integers,
/// what it searches for and what it rewrites to are patterns of equal value
/// for all values of their variables.
pub proof fn law_arithmetic_rules_sound()
    ensures
        forall|m: int|
            0 <= m < arithmetic_rules().len() ==> sound_over_integers(
                #[trigger] rule_table()[arithmetic_rules()[m]],
            ),
{
    assert forall|m: int| 0 <= m < arithmetic_rules().len() implies sound_over_integers(
        #[trigger] rule_table()[arithmetic_rules()[m]],
    ) by {
        if m == 0 {
            lemma_rule_0();
        } else if m == 1 {
            lemma_rule_2();
        } else if m == 2 {
            lemma_rule_3();
        } else if m == 3 {
            lemma_rule_4();
        } else if m == 4 {
            lemma_rule_8();
        } else if m == 5 {
            lemma_rule_9();
        } else if m == 6 {
            lemma_rule_10();
        } else if m == 7 {
            lemma_rule_11();
        } else if m == 8 {
            lemma_rule_12();
        } else if m == 9 {
            lemma_rule_13();
        } else if m == 10 {
            lemma_rule_14();
        } else if m == 11 {
            lemma_rule_15();
        } else if m == 12 {
            lemma_rule_16();
        } else if m == 13 {
            lemma_rule_17();
        } else if m == 14 {
            lemma_rule_18();
        } else if m == 15 {
            lemma_rule_19();
        } else if m == 16 {
            lemma_rule_20();
        } else if m == 17 {
            lemma_rule_21();
        } else if m == 18 {
            lemma_rule_22();
        }
    }
}

spec fn word(w: &str) -> Box<Pattern> {
    Box::new(Pattern::Word(w@))
}

spec fn un(op: &str, a: Box<Pattern>) -> Box<Pattern> {
    Box::new(Pattern::Unary(op@, a))
}

spec fn bin2(op: &str, a: Box<Pattern>, b: Box<Pattern>) -> Box<Pattern> {
    Box::new(Pattern::Binary(op@, a, b))
}

/// The pattern is built from variables, the numbers `0` and `1`, the words
/// `true` and `false`, `!`, `&&` and `||`.
pub open spec fn logical(p: Pattern) -> bool
    decreases p,
{
    match p {
        Pattern::Num(n) => n < 2,
        Pattern::ParenNum(n) => n < 2,
        Pattern::Word(w) => w == "true"@ || w == "false"@,
        Pattern::Unary(op, a) => op == "!"@ && logical(*a),
        Pattern::Binary(op, a, b) => (op == "&&"@ || op == "||"@) && logical(*a) && logical(*b),
        _ => true,
    }
}

/// The truth value of a logical pattern, the variables taking the truth values
/// `v` gives them; `1` and `true` are true, `0` and `false` false.
pub open spec fn truth(p: Pattern, v: spec_fn(char) -> bool) -> bool
    decreases p,
{
    match p {
        Pattern::Var(c) => v(c),
        Pattern::ParenVar(c) => v(c),
        Pattern::Num(n) => n != 0,
        Pattern::ParenNum(n) => n != 0,
        Pattern::Word(w) => w == "true"@,
        Pattern::Unary(_, a) => !truth(*a, v),
        Pattern::Binary(op, a, b) => if op == "&&"@ {
            truth(*a, v) && truth(*b, v)
        } else {
            truth(*a, v) || truth(*b, v)
        },
    }
}

/// The rule's two texts are logical patterns of equal truth value for all
/// truth values of their variables.
pub open spec fn sound_over_truth_values(rule: (Seq<char>, Seq<char>, Seq<char>)) -> bool {
    exists|s: Pattern, a: Pattern|
        #![trigger pattern_text(s), pattern_text(a)]
        {
            &&& logical(s)
            &&& logical(a)
            &&& pattern_text(s) == rule.1
            &&& pattern_text(a) == rule.2
            &&& forall|v: spec_fn(char) -> bool| #[trigger] truth(s, v) == truth(a, v)
        }
}

proof fn lemma_words_differ()
    ensures
        "&&"@ != "||"@,
        "true"@ != "false"@,
{
    reveal_strlit("&&");
    reveal_strlit("||");
    reveal_strlit("true");
    reveal_strlit("false");
    assert("&&"@[0] != "||"@[0]);
    assert("true"@.len() != "false"@.len());
}

proof fn lemma_logical_rule_7()
    ensures
        sound_over_truth_values(rule_table()[7]),
{
    let s = *bin2("&&", bin2("&&", pvar('a'), un("!", pvar('b'))), un("!", pvar('c')));
    let a = *bin2("&&", pvar('a'), un("!", bin2("||", pvar('b'), pvar('c'))));
    reveal_strlit("(&& (&& (?a) (! (?b))) (! (?c)))");
    reveal_strlit("(&& (?a) (! (|| (?b) (?c))))");
    reveal_strlit("&&");
    reveal_strlit("||");
    reveal_strlit("!");
    reveal_strlit("true");
    reveal_strlit("false");
    reveal_with_fuel(pattern_text, 6);
    reveal_with_fuel(logical, 6);
    reveal_with_fuel(truth, 6);
    lemma_words_differ();
    assert(rule_table()[7] == crate::rules::rule_group_0()[7]);
    assert(pattern_text(s) =~= "(&& (&& (?a) (! (?b))) (! (?c)))"@);
    assert(pattern_text(a) =~= "(&& (?a) (! (|| (?b) (?c))))"@);
    assert forall|v: spec_fn(char) -> bool| #[trigger] truth(s, v) == truth(a, v) by {
        let (x, y, z) = (v('a'), v('b'), v('c'));
        assert(truth(s, v) == ((x && !(y)) && !(z)));
        assert(truth(a, v) == (x && !((y || z))));
    }
}

proof fn lemma_logical_rule_48()
    ensures
        sound_over_truth_values(rule_table()[48]),
{
    let s = *un("!", un("!", var('a')));
    let a = *var('a');
    reveal_strlit("(! (! ?a))");
    reveal_strlit("?a");
    reveal_strlit("&&");
    reveal_strlit("||");
    reveal_strlit("!");
    reveal_strlit("true");
    reveal_strlit("false");
    reveal_with_fuel(pattern_text, 6);
    reveal_with_fuel(logical, 6);
    reveal_with_fuel(truth, 6);
    lemma_words_differ();
    assert(rule_table()[48] == crate::rules::rule_group_4()[0]);
    assert(pattern_text(s) =~= "(! (! ?a))"@);
    assert(pattern_text(a) =~= "?a"@);
    assert forall|v: spec_fn(char) -> bool| #[trigger] truth(s, v) == truth(a, v) by {
        let (x, y, z) = (v('a'), v('b'), v('c'));
        assert(truth(s, v) == !(!(x)));
        assert(truth(a, v) == x);
    }
}

proof fn lemma_logical_rule_49()
    ensures
        sound_over_truth_values(rule_table()[49]),
{
    let s = *bin2("&&", var('a'), word("true"));
    let a = *var('a');
    reveal_strlit("(&& ?a true)");
    reveal_strlit("?a");
    reveal_strlit("&&");
    reveal_strlit("||");
    reveal_strlit("!");
    reveal_strlit("true");
    reveal_strlit("false");
    reveal_with_fuel(pattern_text, 6);
    reveal_with_fuel(logical, 6);
    reveal_with_fuel(truth, 6);
    lemma_words_differ();
    assert(rule_table()[49] == crate::rules::rule_group_4()[1]);
    assert(pattern_text(s) =~= "(&& ?a true)"@);
    assert(pattern_text(a) =~= "?a"@);
    assert forall|v: spec_fn(char) -> bool| #[trigger] truth(s, v) == truth(a, v) by {
        let (x, y, z) = (v('a'), v('b'), v('c'));
        assert(truth(s, v) == (x && true));
        assert(truth(a, v) == x);
    }
}

proof fn lemma_logical_rule_50()
    ensures
        sound_over_truth_values(rule_table()[50]),
{
    let s = *bin2("&&", var('a'), word("false"));
    let a = *num(0);
    reveal_strlit("(&& ?a false)");
    reveal_strlit("0");
    reveal_strlit("&&");
    reveal_strlit("||");
    reveal_strlit("!");
    reveal_strlit("true");
    reveal_strlit("false");
    reveal_with_fuel(pattern_text, 6);
    reveal_with_fuel(logical, 6);
    reveal_with_fuel(truth, 6);
    lemma_words_differ();
    assert(rule_table()[50] == crate::rules::rule_group_4()[2]);
    assert(pattern_text(s) =~= "(&& ?a false)"@);
    assert(pattern_text(a) =~= "0"@);
    assert forall|v: spec_fn(char) -> bool| #[trigger] truth(s, v) == truth(a, v) by {
        let (x, y, z) = (v('a'), v('b'), v('c'));
        assert(truth(s, v) == (x && false));
        assert(truth(a, v) == false);
    }
}

proof fn lemma_logical_rule_51()
    ensures
        sound_over_truth_values(rule_table()[51]),
{
    let s = *bin2("&&", var('a'), num(0));
    let a = *num(0);
    reveal_strlit("(&& ?a 0)");
    reveal_strlit("0");
    reveal_strlit("&&");
    reveal_strlit("||");
    reveal_strlit("!");
    reveal_strlit("true");
    reveal_strlit("false");
    reveal_with_fuel(pattern_text, 6);
    reveal_with_fuel(logical, 6);
    reveal_with_fuel(truth, 6);
    lemma_words_differ();
    assert(rule_table()[51] == crate::rules::rule_group_4()[3]);
    assert(pattern_text(s) =~= "(&& ?a 0)"@);
    assert(pattern_text(a) =~= "0"@);
    assert forall|v: spec_fn(char) -> bool| #[trigger] truth(s, v) == truth(a, v) by {
        let (x, y, z) = (v('a'), v('b'), v('c'));
        assert(truth(s, v) == (x && false));
        assert(truth(a, v) == false);
    }
}

proof fn lemma_logical_rule_52()
    ensures
        sound_over_truth_values(rule_table()[52]),
{
    let s = *bin2("||", var('a'), word("true"));
    let a = *num(1);
    reveal_strlit("(|| ?a true)");
    reveal_strlit("1");
    reveal_strlit("&&");
    reveal_strlit("||");
    reveal_strlit("!");
    reveal_strlit("true");
    reveal_strlit("false");
    reveal_with_fuel(pattern_text, 6);
    reveal_with_fuel(logical, 6);
    reveal_with_fuel(truth, 6);
    lemma_words_differ();
    assert(rule_table()[52] == crate::rules::rule_group_4()[4]);
    assert(pattern_text(s) =~= "(|| ?a true)"@);
    assert(pattern_text(a) =~= "1"@);
    assert forall|v: spec_fn(char) -> bool| #[trigger] truth(s, v) == truth(a, v) by {
        let (x, y, z) = (v('a'), v('b'), v('c'));
        assert(truth(s, v) == (x || true));
        assert(truth(a, v) == true);
    }
}

proof fn lemma_logical_rule_53()
    ensures
        sound_over_truth_values(rule_table()[53]),
{
    let s = *bin2("||", var('a'), word("false"));
    let a = *var('a');
    reveal_strlit("(|| ?a false)");
    reveal_strlit("?a");
    reveal_strlit("&&");
    reveal_strlit("||");
    reveal_strlit("!");
    reveal_strlit("true");
    reveal_strlit("false");
    reveal_with_fuel(pattern_text, 6);
    reveal_with_fuel(logical, 6);
    reveal_with_fuel(truth, 6);
    lemma_words_differ();
    assert(rule_table()[53] == crate::rules::rule_group_4()[5]);
    assert(pattern_text(s) =~= "(|| ?a false)"@);
    assert(pattern_text(a) =~= "?a"@);
    assert forall|v: spec_fn(char) -> bool| #[trigger] truth(s, v) == truth(a, v) by {
        let (x, y, z) = (v('a'), v('b'), v('c'));
        assert(truth(s, v) == (x || false));
        assert(truth(a, v) == x);
    }
}

proof fn lemma_logical_rule_54()
    ensures
        sound_over_truth_values(rule_table()[54]),
{
    let s = *bin2("||", var('a'), num(0));
    let a = *var('a');
    reveal_strlit("(|| ?a 0)");
    reveal_strlit("?a");
    reveal_strlit("&&");
    reveal_strlit("||");
    reveal_strlit("!");
    reveal_strlit("true");
    reveal_strlit("false");
    reveal_with_fuel(pattern_text, 6);
    reveal_with_fuel(logical, 6);
    reveal_with_fuel(truth, 6);
    lemma_words_differ();
    assert(rule_table()[54] == crate::rules::rule_group_4()[6]);
    assert(pattern_text(s) =~= "(|| ?a 0)"@);
    assert(pattern_text(a) =~= "?a"@);
    assert forall|v: spec_fn(char) -> bool| #[trigger] truth(s, v) == truth(a, v) by {
        let (x, y, z) = (v('a'), v('b'), v('c'));
        assert(truth(s, v) == (x || false));
        assert(truth(a, v) == x);
    }
}

proof fn lemma_logical_rule_55()
    ensures
        sound_over_truth_values(rule_table()[55]),
{
    let s = *bin2("&&", var('a'), var('a'));
    let a = *var('a');
    reveal_strlit("(&& ?a ?a)");
    reveal_strlit("?a");
    reveal_strlit("&&");
    reveal_strlit("||");
    reveal_strlit("!");
    reveal_strlit("true");
    reveal_strlit("false");
    reveal_with_fuel(pattern_text, 6);
    reveal_with_fuel(logical, 6);
    reveal_with_fuel(truth, 6);
    lemma_words_differ();
    assert(rule_table()[55] == crate::rules::rule_group_4()[7]);
    assert(pattern_text(s) =~= "(&& ?a ?a)"@);
    assert(pattern_text(a) =~= "?a"@);
    assert forall|v: spec_fn(char) -> bool| #[trigger] truth(s, v) == truth(a, v) by {
        let (x, y, z) = (v('a'), v('b'), v('c'));
        assert(truth(s, v) == (x && x));
        assert(truth(a, v) == x);
    }
}

proof fn lemma_logical_rule_56()
    ensures
        sound_over_truth_values(rule_table()[56]),
{
    let s = *bin2("||", var('a'), var('a'));
    let a = *var('a');
    reveal_strlit("(|| ?a ?a)");
    reveal_strlit("?a");
    reveal_strlit("&&");
    reveal_strlit("||");
    reveal_strlit("!");
    reveal_strlit("true");
    reveal_strlit("false");
    reveal_with_fuel(pattern_text, 6);
    reveal_with_fuel(logical, 6);
    reveal_with_fuel(truth, 6);
    lemma_words_differ();
    assert(rule_table()[56] == crate::rules::rule_group_4()[8]);
    assert(pattern_text(s) =~= "(|| ?a ?a)"@);
    assert(pattern_text(a) =~= "?a"@);
    assert forall|v: spec_fn(char) -> bool| #[trigger] truth(s, v) == truth(a, v) by {
        let (x, y, z) = (v('a'), v('b'), v('c'));
        assert(truth(s, v) == (x || x));
        assert(truth(a, v) == x);
    }
}

proof fn lemma_logical_rule_57()
    ensures
        sound_over_truth_values(rule_table()[57]),
{
    let s = *bin2("&&", var('a'), un("!", var('a')));
    let a = *num(0);
    reveal_strlit("(&& ?a (! ?a))");
    reveal_strlit("0");
    reveal_strlit("&&");
    reveal_strlit("||");
    reveal_strlit("!");
    reveal_strlit("true");
    reveal_strlit("false");
    reveal_with_fuel(pattern_text, 6);
    reveal_with_fuel(logical, 6);
    reveal_with_fuel(truth, 6);
    lemma_words_differ();
    assert(rule_table()[57] == crate::rules::rule_group_4()[9]);
    assert(pattern_text(s) =~= "(&& ?a (! ?a))"@);
    assert(pattern_text(a) =~= "0"@);
    assert forall|v: spec_fn(char) -> bool| #[trigger] truth(s, v) == truth(a, v) by {
        let (x, y, z) = (v('a'), v('b'), v('c'));
        assert(truth(s, v) == (x && !(x)));
        assert(truth(a, v) == false);
    }
}

proof fn lemma_logical_rule_58()
    ensures
        sound_over_truth_values(rule_table()[58]),
{
    let s = *bin2("||", var('a'), un("!", var('a')));
    let a = *num(1);
    reveal_strlit("(|| ?a (! ?a))");
    reveal_strlit("1");
    reveal_strlit("&&");
    reveal_strlit("||");
    reveal_strlit("!");
    reveal_strlit("true");
    reveal_strlit("false");
    reveal_with_fuel(pattern_text, 6);
    reveal_with_fuel(logical, 6);
    reveal_with_fuel(truth, 6);
    lemma_words_differ();
    assert(rule_table()[58] == crate::rules::rule_group_4()[10]);
    assert(pattern_text(s) =~= "(|| ?a (! ?a))"@);
    assert(pattern_text(a) =~= "1"@);
    assert forall|v: spec_fn(char) -> bool| #[trigger] truth(s, v) == truth(a, v) by {
        let (x, y, z) = (v('a'), v('b'), v('c'));
        assert(truth(s, v) == (x || !(x)));
        assert(truth(a, v) == true);
    }
}

proof fn lemma_logical_rule_59()
    ensures
        sound_over_truth_values(rule_table()[59]),
{
    let s = *bin2("&&", var('a'), var('b'));
    let a = *bin2("&&", var('b'), var('a'));
    reveal_strlit("(&& ?a ?b)");
    reveal_strlit("(&& ?b ?a)");
    reveal_strlit("&&");
    reveal_strlit("||");
    reveal_strlit("!");
    reveal_strlit("true");
    reveal_strlit("false");
    reveal_with_fuel(pattern_text, 6);
    reveal_with_fuel(logical, 6);
    reveal_with_fuel(truth, 6);
    lemma_words_differ();
    assert(rule_table()[59] == crate::rules::rule_group_4()[11]);
    assert(pattern_text(s) =~= "(&& ?a ?b)"@);
    assert(pattern_text(a) =~= "(&& ?b ?a)"@);
    assert forall|v: spec_fn(char) -> bool| #[trigger] truth(s, v) == truth(a, v) by {
        let (x, y, z) = (v('a'), v('b'), v('c'));
        assert(truth(s, v) == (x && y));
        assert(truth(a, v) == (y && x));
    }
}

proof fn lemma_logical_rule_60()
    ensures
        sound_over_truth_values(rule_table()[60]),
{
    let s = *bin2("||", var('a'), var('b'));
    let a = *bin2("||", var('b'), var('a'));
    reveal_strlit("(|| ?a ?b)");
    reveal_strlit("(|| ?b ?a)");
    reveal_strlit("&&");
    reveal_strlit("||");
    reveal_strlit("!");
    reveal_strlit("true");
    reveal_strlit("false");
    reveal_with_fuel(pattern_text, 6);
    reveal_with_fuel(logical, 6);
    reveal_with_fuel(truth, 6);
    lemma_words_differ();
    assert(rule_table()[60] == crate::rules::rule_group_5()[0]);
    assert(pattern_text(s) =~= "(|| ?a ?b)"@);
    assert(pattern_text(a) =~= "(|| ?b ?a)"@);
    assert forall|v: spec_fn(char) -> bool| #[trigger] truth(s, v) == truth(a, v) by {
        let (x, y, z) = (v('a'), v('b'), v('c'));
        assert(truth(s, v) == (x || y));
        assert(truth(a, v) == (y || x));
    }
}

proof fn lemma_logical_rule_61()
    ensures
        sound_over_truth_values(rule_table()[61]),
{
    let s = *bin2("&&", var('a'), bin2("&&", var('b'), var('c')));
    let a = *bin2("&&", bin2("&&", var('a'), var('b')), var('c'));
    reveal_strlit("(&& ?a (&& ?b ?c))");
    reveal_strlit("(&& (&& ?a ?b) ?c)");
    reveal_strlit("&&");
    reveal_strlit("||");
    reveal_strlit("!");
    reveal_strlit("true");
    reveal_strlit("false");
    reveal_with_fuel(pattern_text, 6);
    reveal_with_fuel(logical, 6);
    reveal_with_fuel(truth, 6);
    lemma_words_differ();
    assert(rule_table()[61] == crate::rules::rule_group_5()[1]);
    assert(pattern_text(s) =~= "(&& ?a (&& ?b ?c))"@);
    assert(pattern_text(a) =~= "(&& (&& ?a ?b) ?c)"@);
    assert forall|v: spec_fn(char) -> bool| #[trigger] truth(s, v) == truth(a, v) by {
        let (x, y, z) = (v('a'), v('b'), v('c'));
        assert(truth(s, v) == (x && (y && z)));
        assert(truth(a, v) == ((x && y) && z));
    }
}

proof fn lemma_logical_rule_62()
    ensures
        sound_over_truth_values(rule_table()[62]),
{
    let s = *bin2("||", var('a'), bin2("||", var('b'), var('c')));
    let a = *bin2("||", bin2("||", var('a'), var('b')), var('c'));
    reveal_strlit("(|| ?a (|| ?b ?c))");
    reveal_strlit("(|| (|| ?a ?b) ?c)");
    reveal_strlit("&&");
    reveal_strlit("||");
    reveal_strlit("!");
    reveal_strlit("true");
    reveal_strlit("false");
    reveal_with_fuel(pattern_text, 6);
    reveal_with_fuel(logical, 6);
    reveal_with_fuel(truth, 6);
    lemma_words_differ();
    assert(rule_table()[62] == crate::rules::rule_group_5()[2]);
    assert(pattern_text(s) =~= "(|| ?a (|| ?b ?c))"@);
    assert(pattern_text(a) =~= "(|| (|| ?a ?b) ?c)"@);
    assert forall|v: spec_fn(char) -> bool| #[trigger] truth(s, v) == truth(a, v) by {
        let (x, y, z) = (v('a'), v('b'), v('c'));
        assert(truth(s, v) == (x || (y || z)));
        assert(truth(a, v) == ((x || y) || z));
    }
}

proof fn lemma_logical_rule_63()
    ensures
        sound_over_truth_values(rule_table()[63]),
{
    let s = *bin2("||", var('a'), bin2("&&", var('b'), var('c')));
    let a = *bin2("&&", bin2("||", var('a'), var('b')), bin2("||", var('a'), var('c')));
    reveal_strlit("(|| ?a (&& ?b ?c))");
    reveal_strlit("(&& (|| ?a ?b) (|| ?a ?c))");
    reveal_strlit("&&");
    reveal_strlit("||");
    reveal_strlit("!");
    reveal_strlit("true");
    reveal_strlit("false");
    reveal_with_fuel(pattern_text, 6);
    reveal_with_fuel(logical, 6);
    reveal_with_fuel(truth, 6);
    lemma_words_differ();
    assert(rule_table()[63] == crate::rules::rule_group_5()[3]);
    assert(pattern_text(s) =~= "(|| ?a (&& ?b ?c))"@);
    assert(pattern_text(a) =~= "(&& (|| ?a ?b) (|| ?a ?c))"@);
    assert forall|v: spec_fn(char) -> bool| #[trigger] truth(s, v) == truth(a, v) by {
        let (x, y, z) = (v('a'), v('b'), v('c'));
        assert(truth(s, v) == (x || (y && z)));
        assert(truth(a, v) == ((x || y) && (x || z)));
    }
}

proof fn lemma_logical_rule_64()
    ensures
        sound_over_truth_values(rule_table()[64]),
{
    let s = *bin2("&&", bin2("||", var('a'), var('b')), bin2("||", var('a'), var('c')));
    let a = *bin2("||", var('a'), bin2("&&", var('b'), var('c')));
    reveal_strlit("(&& (|| ?a ?b) (|| ?a ?c))");
    reveal_strlit("(|| ?a (&& ?b ?c))");
    reveal_strlit("&&");
    reveal_strlit("||");
    reveal_strlit("!");
    reveal_strlit("true");
    reveal_strlit("false");
    reveal_with_fuel(pattern_text, 6);
    reveal_with_fuel(logical, 6);
    reveal_with_fuel(truth, 6);
    lemma_words_differ();
    assert(rule_table()[64] == crate::rules::rule_group_5()[4]);
    assert(pattern_text(s) =~= "(&& (|| ?a ?b) (|| ?a ?c))"@);
    assert(pattern_text(a) =~= "(|| ?a (&& ?b ?c))"@);
    assert forall|v: spec_fn(char) -> bool| #[trigger] truth(s, v) == truth(a, v) by {
        let (x, y, z) = (v('a'), v('b'), v('c'));
        assert(truth(s, v) == ((x || y) && (x || z)));
        assert(truth(a, v) == (x || (y && z)));
    }
}

proof fn lemma_logical_rule_65()
    ensures
        sound_over_truth_values(rule_table()[65]),
{
    let s = *bin2("&&", var('a'), bin2("||", var('b'), var('c')));
    let a = *bin2("||", bin2("&&", var('a'), var('b')), bin2("&&", var('a'), var('c')));
    reveal_strlit("(&& ?a (|| ?b ?c))");
    reveal_strlit("(|| (&& ?a ?b) (&& ?a ?c))");
    reveal_strlit("&&");
    reveal_strlit("||");
    reveal_strlit("!");
    reveal_strlit("true");
    reveal_strlit("false");
    reveal_with_fuel(pattern_text, 6);
    reveal_with_fuel(logical, 6);
    reveal_with_fuel(truth, 6);
    lemma_words_differ();
    assert(rule_table()[65] == crate::rules::rule_group_5()[5]);
    assert(pattern_text(s) =~= "(&& ?a (|| ?b ?c))"@);
    assert(pattern_text(a) =~= "(|| (&& ?a ?b) (&& ?a ?c))"@);
    assert forall|v: spec_fn(char) -> bool| #[trigger] truth(s, v) == truth(a, v) by {
        let (x, y, z) = (v('a'), v('b'), v('c'));
        assert(truth(s, v) == (x && (y || z)));
        assert(truth(a, v) == ((x && y) || (x && z)));
    }
}

proof fn lemma_logical_rule_66()
    ensures
        sound_over_truth_values(rule_table()[66]),
{
    let s = *bin2("||", bin2("&&", var('a'), var('b')), bin2("&&", var('a'), var('c')));
    let a = *bin2("&&", var('a'), bin2("||", var('b'), var('c')));
    reveal_strlit("(|| (&& ?a ?b) (&& ?a ?c))");
    reveal_strlit("(&& ?a (|| ?b ?c))");
    reveal_strlit("&&");
    reveal_strlit("||");
    reveal_strlit("!");
    reveal_strlit("true");
    reveal_strlit("false");
    reveal_with_fuel(pattern_text, 6);
    reveal_with_fuel(logical, 6);
    reveal_with_fuel(truth, 6);
    lemma_words_differ();
    assert(rule_table()[66] == crate::rules::rule_group_5()[6]);
    assert(pattern_text(s) =~= "(|| (&& ?a ?b) (&& ?a ?c))"@);
    assert(pattern_text(a) =~= "(&& ?a (|| ?b ?c))"@);
    assert forall|v: spec_fn(char) -> bool| #[trigger] truth(s, v) == truth(a, v) by {
        let (x, y, z) = (v('a'), v('b'), v('c'));
        assert(truth(s, v) == ((x && y) || (x && z)));
        assert(truth(a, v) == (x && (y || z)));
    }
}

proof fn lemma_logical_rule_67()
    ensures
        sound_over_truth_values(rule_table()[67]),
{
    let s = *bin2("&&", var('a'), bin2("||", var('a'), var('b')));
    let a = *var('a');
    reveal_strlit("(&& ?a (|| ?a ?b))");
    reveal_strlit("?a");
    reveal_strlit("&&");
    reveal_strlit("||");
    reveal_strlit("!");
    reveal_strlit("true");
    reveal_strlit("false");
    reveal_with_fuel(pattern_text, 6);
    reveal_with_fuel(logical, 6);
    reveal_with_fuel(truth, 6);
    lemma_words_differ();
    assert(rule_table()[67] == crate::rules::rule_group_5()[7]);
    assert(pattern_text(s) =~= "(&& ?a (|| ?a ?b))"@);
    assert(pattern_text(a) =~= "?a"@);
    assert forall|v: spec_fn(char) -> bool| #[trigger] truth(s, v) == truth(a, v) by {
        let (x, y, z) = (v('a'), v('b'), v('c'));
        assert(truth(s, v) == (x && (x || y)));
        assert(truth(a, v) == x);
    }
}

proof fn lemma_logical_rule_68()
    ensures
        sound_over_truth_values(rule_table()[68]),
{
    let s = *bin2("||", var('a'), bin2("&&", var('a'), var('b')));
    let a = *var('a');
    reveal_strlit("(|| ?a (&& ?a ?b))");
    reveal_strlit("?a");
    reveal_strlit("&&");
    reveal_strlit("||");
    reveal_strlit("!");
    reveal_strlit("true");
    reveal_strlit("false");
    reveal_with_fuel(pattern_text, 6);
    reveal_with_fuel(logical, 6);
    reveal_with_fuel(truth, 6);
    lemma_words_differ();
    assert(rule_table()[68] == crate::rules::rule_group_5()[8]);
    assert(pattern_text(s) =~= "(|| ?a (&& ?a ?b))"@);
    assert(pattern_text(a) =~= "?a"@);
    assert forall|v: spec_fn(char) -> bool| #[trigger] truth(s, v) == truth(a, v) by {
        let (x, y, z) = (v('a'), v('b'), v('c'));
        assert(truth(s, v) == (x || (x && y)));
        assert(truth(a, v) == x);
    }
}

proof fn lemma_logical_rule_69()
    ensures
        sound_over_truth_values(rule_table()[69]),
{
    let s = *un("!", bin2("&&", var('a'), var('b')));
    let a = *bin2("||", un("!", var('a')), un("!", var('b')));
    reveal_strlit("(! (&& ?a ?b))");
    reveal_strlit("(|| (! ?a) (! ?b))");
    reveal_strlit("&&");
    reveal_strlit("||");
    reveal_strlit("!");
    reveal_strlit("true");
    reveal_strlit("false");
    reveal_with_fuel(pattern_text, 6);
    reveal_with_fuel(logical, 6);
    reveal_with_fuel(truth, 6);
    lemma_words_differ();
    assert(rule_table()[69] == crate::rules::rule_group_5()[9]);
    assert(pattern_text(s) =~= "(! (&& ?a ?b))"@);
    assert(pattern_text(a) =~= "(|| (! ?a) (! ?b))"@);
    assert forall|v: spec_fn(char) -> bool| #[trigger] truth(s, v) == truth(a, v) by {
        let (x, y, z) = (v('a'), v('b'), v('c'));
        assert(truth(s, v) == !((x && y)));
        assert(truth(a, v) == (!(x) || !(y)));
    }
}

proof fn lemma_logical_rule_70()
    ensures
        sound_over_truth_values(rule_table()[70]),
{
    let s = *bin2("||", un("!", var('a')), un("!", var('b')));
    let a = *un("!", bin2("&&", var('a'), var('b')));
    reveal_strlit("(|| (! ?a) (! ?b))");
    reveal_strlit("(! (&& ?a ?b))");
    reveal_strlit("&&");
    reveal_strlit("||");
    reveal_strlit("!");
    reveal_strlit("true");
    reveal_strlit("false");
    reveal_with_fuel(pattern_text, 6);
    reveal_with_fuel(logical, 6);
    reveal_with_fuel(truth, 6);
    lemma_words_differ();
    assert(rule_table()[70] == crate::rules::rule_group_5()[10]);
    assert(pattern_text(s) =~= "(|| (! ?a) (! ?b))"@);
    assert(pattern_text(a) =~= "(! (&& ?a ?b))"@);
    assert forall|v: spec_fn(char) -> bool| #[trigger] truth(s, v) == truth(a, v) by {
        let (x, y, z) = (v('a'), v('b'), v('c'));
        assert(truth(s, v) == (!(x) || !(y)));
        assert(truth(a, v) == !((x && y)));
    }
}

proof fn lemma_logical_rule_71()
    ensures
        sound_over_truth_values(rule_table()[71]),
{
    let s = *un("!", bin2("||", var('a'), var('b')));
    let a = *bin2("&&", un("!", var('a')), un("!", var('b')));
    reveal_strlit("(! (|| ?a ?b))");
    reveal_strlit("(&& (! ?a) (! ?b))");
    reveal_strlit("&&");
    reveal_strlit("||");
    reveal_strlit("!");
    reveal_strlit("true");
    reveal_strlit("false");
    reveal_with_fuel(pattern_text, 6);
    reveal_with_fuel(logical, 6);
    reveal_with_fuel(truth, 6);
    lemma_words_differ();
    assert(rule_table()[71] == crate::rules::rule_group_5()[11]);
    assert(pattern_text(s) =~= "(! (|| ?a ?b))"@);
    assert(pattern_text(a) =~= "(&& (! ?a) (! ?b))"@);
    assert forall|v: spec_fn(char) -> bool| #[trigger] truth(s, v) == truth(a, v) by {
        let (x, y, z) = (v('a'), v('b'), v('c'));
        assert(truth(s, v) == !((x || y)));
        assert(truth(a, v) == (!(x) && !(y)));
    }
}

proof fn lemma_logical_rule_72()
    ensures
        sound_over_truth_values(rule_table()[72]),
{
    let s = *bin2("&&", un("!", var('a')), un("!", var('b')));
    let a = *un("!", bin2("||", var('a'), var('b')));
    reveal_strlit("(&& (! ?a) (! ?b))");
    reveal_strlit("(! (|| ?a ?b))");
    reveal_strlit("&&");
    reveal_strlit("||");
    reveal_strlit("!");
    reveal_strlit("true");
    reveal_strlit("false");
    reveal_with_fuel(pattern_text, 6);
    reveal_with_fuel(logical, 6);
    reveal_with_fuel(truth, 6);
    lemma_words_differ();
    assert(rule_table()[72] == crate::rules::rule_group_6()[0]);
    assert(pattern_text(s) =~= "(&& (! ?a) (! ?b))"@);
    assert(pattern_text(a) =~= "(! (|| ?a ?b))"@);
    assert forall|v: spec_fn(char) -> bool| #[trigger] truth(s, v) == truth(a, v) by {
        let (x, y, z) = (v('a'), v('b'), v('c'));
        assert(truth(s, v) == (!(x) && !(y)));
        assert(truth(a, v) == !((x || y)));
    }
}

proof fn lemma_logical_rule_73()
    ensures
        sound_over_truth_values(rule_table()[73]),
{
    let s = *un("!", word("true"));
    let a = *num(0);
    reveal_strlit("(! true)");
    reveal_strlit("0");
    reveal_strlit("&&");
    reveal_strlit("||");
    reveal_strlit("!");
    reveal_strlit("true");
    reveal_strlit("false");
    reveal_with_fuel(pattern_text, 6);
    reveal_with_fuel(logical, 6);
    reveal_with_fuel(truth, 6);
    lemma_words_differ();
    assert(rule_table()[73] == crate::rules::rule_group_6()[1]);
    assert(pattern_text(s) =~= "(! true)"@);
    assert(pattern_text(a) =~= "0"@);
    assert forall|v: spec_fn(char) -> bool| #[trigger] truth(s, v) == truth(a, v) by {
        let (x, y, z) = (v('a'), v('b'), v('c'));
        assert(truth(s, v) == !(true));
        assert(truth(a, v) == false);
    }
}

proof fn lemma_logical_rule_74()
    ensures
        sound_over_truth_values(rule_table()[74]),
{
    let s = *un("!", word("false"));
    let a = *num(1);
    reveal_strlit("(! false)");
    reveal_strlit("1");
    reveal_strlit("&&");
    reveal_strlit("||");
    reveal_strlit("!");
    reveal_strlit("true");
    reveal_strlit("false");
    reveal_with_fuel(pattern_text, 6);
    reveal_with_fuel(logical, 6);
    reveal_with_fuel(truth, 6);
    lemma_words_differ();
    assert(rule_table()[74] == crate::rules::rule_group_6()[2]);
    assert(pattern_text(s) =~= "(! false)"@);
    assert(pattern_text(a) =~= "1"@);
    assert forall|v: spec_fn(char) -> bool| #[trigger] truth(s, v) == truth(a, v) by {
        let (x, y, z) = (v('a'), v('b'), v('c'));
        assert(truth(s, v) == !(false));
        assert(truth(a, v) == true);
    }
}

proof fn lemma_logical_rule_75()
    ensures
        sound_over_truth_values(rule_table()[75]),
{
    let s = *un("!", num(0));
    let a = *num(1);
    reveal_strlit("(! 0)");
    reveal_strlit("1");
    reveal_strlit("&&");
    reveal_strlit("||");
    reveal_strlit("!");
    reveal_strlit("true");
    reveal_strlit("false");
    reveal_with_fuel(pattern_text, 6);
    reveal_with_fuel(logical, 6);
    reveal_with_fuel(truth, 6);
    lemma_words_differ();
    assert(rule_table()[75] == crate::rules::rule_group_6()[3]);
    assert(pattern_text(s) =~= "(! 0)"@);
    assert(pattern_text(a) =~= "1"@);
    assert forall|v: spec_fn(char) -> bool| #[trigger] truth(s, v) == truth(a, v) by {
        let (x, y, z) = (v('a'), v('b'), v('c'));
        assert(truth(s, v) == !(false));
        assert(truth(a, v) == true);
    }
}

proof fn lemma_logical_rule_76()
    ensures
        sound_over_truth_values(rule_table()[76]),
{
    let s = *un("!", num(1));
    let a = *num(0);
    reveal_strlit("(! 1)");
    reveal_strlit("0");
    reveal_strlit("&&");
    reveal_strlit("||");
    reveal_strlit("!");
    reveal_strlit("true");
    reveal_strlit("false");
    reveal_with_fuel(pattern_text, 6);
    reveal_with_fuel(logical, 6);
    reveal_with_fuel(truth, 6);
    lemma_words_differ();
    assert(rule_table()[76] == crate::rules::rule_group_6()[4]);
    assert(pattern_text(s) =~= "(! 1)"@);
    assert(pattern_text(a) =~= "0"@);
    assert forall|v: spec_fn(char) -> bool| #[trigger] truth(s, v) == truth(a, v) by {
        let (x, y, z) = (v('a'), v('b'), v('c'));
        assert(truth(s, v) == !(true));
        assert(truth(a, v) == false);
    }
}

/// The positions in the rule set of the rules on logical operators: double
/// negation, the identities of `&&` and `||` with constants, idempotence,
/// inverses, commutativity, associativity, distributivity, absorption, De
/// Morgan's laws, the negations of constants, and one compound rule.
pub open spec fn logical_rules() -> Seq<int> {
    seq![
        7, 48, 49, 50, 51, 52, 53, 54, 55, 56, 57, 58, 59, 60, 61, 62, 63, 64, 65, 66, 67, 68, 69,
        70, 71, 72, 73, 74, 75, 76,
    ]
}

/// Every logical rule of the rule set is sound over truth values: what it
/// searches for and what it rewrites to are patterns of equal truth value for
/// all truth values of their variables.
pub proof fn law_logical_rules_sound()
    ensures
        forall|m: int|
            0 <= m < logical_rules().len() ==> sound_over_truth_values(
                #[trigger] rule_table()[logical_rules()[m]],
            ),
{
    assert forall|m: int| 0 <= m < logical_rules().len() implies sound_over_truth_values(
        #[trigger] rule_table()[logical_rules()[m]],
    ) by {
        if m == 0 {
            lemma_logical_rule_7();
        } else if m == 1 {
            lemma_logical_rule_48();
        } else if m == 2 {
            lemma_logical_rule_49();
        } else if m == 3 {
            lemma_logical_rule_50();
        } else if m == 4 {
            lemma_logical_rule_51();
        } else if m == 5 {
            lemma_logical_rule_52();
        } else if m == 6 {
            lemma_logical_rule_53();
        } else if m == 7 {
            lemma_logical_rule_54();
        } else if m == 8 {
            lemma_logical_rule_55();
        } else if m == 9 {
            lemma_logical_rule_56();
        } else if m == 10 {
            lemma_logical_rule_57();
        } else if m == 11 {
            lemma_logical_rule_58();
        } else if m == 12 {
            lemma_logical_rule_59();
        } else if m == 13 {
            lemma_logical_rule_60();
        } else if m == 14 {
            lemma_logical_rule_61();
        } else if m == 15 {
            lemma_logical_rule_62();
        } else if m == 16 {
            lemma_logical_rule_63();
        } else if m == 17 {
            lemma_logical_rule_64();
        } else if m == 18 {
            lemma_logical_rule_65();
        } else if m == 19 {
            lemma_logical_rule_66();
        } else if m == 20 {
            lemma_logical_rule_67();
        } else if m == 21 {
            lemma_logical_rule_68();
        } else if m == 22 {
            lemma_logical_rule_69();
        } else if m == 23 {
            lemma_logical_rule_70();
        } else if m == 24 {
            lemma_logical_rule_71();
        } else if m == 25 {
            lemma_logical_rule_72();
        } else if m == 26 {
            lemma_logical_rule_73();
        } else if m == 27 {
            lemma_logical_rule_74();
        } else if m == 28 {
            lemma_logical_rule_75();
        } else if m == 29 {
            lemma_logical_rule_76();
        }
    }
}

/// The pattern is built from variables, `~`, `&`, `|` and `^`.
pub open spec fn bitwise(p: Pattern) -> bool
    decreases p,
{
    match p {
        Pattern::Var(_) => true,
        Pattern::Unary(op, a) => op == "~"@ && bitwise(*a),
        Pattern::Binary(op, a, b) => (op == "&"@ || op == "|"@ || op == "^"@) && bitwise(*a)
            && bitwise(*b),
        _ => false,
    }
}

/// The value of a bitwise pattern on 64-bit words, the variables taking the
/// values `v` gives them.
pub open spec fn bits(p: Pattern, v: spec_fn(char) -> u64) -> u64
    decreases p,
{
    match p {
        Pattern::Var(c) => v(c),
        Pattern::Unary(_, a) => !bits(*a, v),
        Pattern::Binary(op, a, b) => if op == "&"@ {
            bits(*a, v) & bits(*b, v)
        } else if op == "|"@ {
            bits(*a, v) | bits(*b, v)
        } else {
            bits(*a, v) ^ bits(*b, v)
        },
        _ => 0,
    }
}

/// The rule's two texts are bitwise patterns of equal value for all 64-bit
/// values of their variables.
pub open spec fn sound_over_words(rule: (Seq<char>, Seq<char>, Seq<char>)) -> bool {
    exists|s: Pattern, a: Pattern|
        #![trigger pattern_text(s), pattern_text(a)]
        {
            &&& bitwise(s)
            &&& bitwise(a)
            &&& pattern_text(s) == rule.1
            &&& pattern_text(a) == rule.2
            &&& forall|v: spec_fn(char) -> u64| #[trigger] bits(s, v) == bits(a, v)
        }
}

proof fn lemma_bit_operators_differ()
    ensures
        "&"@ != "|"@,
        "&"@ != "^"@,
        "|"@ != "^"@,
{
    reveal_strlit("&");
    reveal_strlit("|");
    reveal_strlit("^");
    assert("&"@[0] != "|"@[0]);
    assert("&"@[0] != "^"@[0]);
    assert("|"@[0] != "^"@[0]);
}

proof fn lemma_bitwise_rule_77()
    ensures
        sound_over_words(rule_table()[77]),
{
    let s = *bin2("&", var('a'), var('b'));
    let a = *bin2("&", var('b'), var('a'));
    reveal_strlit("(& ?a ?b)");
    reveal_strlit("(& ?b ?a)");
    reveal_strlit("&");
    reveal_strlit("|");
    reveal_strlit("^");
    reveal_strlit("~");
    reveal_with_fuel(pattern_text, 4);
    reveal_with_fuel(bitwise, 4);
    reveal_with_fuel(bits, 4);
    lemma_bit_operators_differ();
    assert(rule_table()[77] == crate::rules::rule_group_6()[5]);
    assert(pattern_text(s) =~= "(& ?a ?b)"@);
    assert(pattern_text(a) =~= "(& ?b ?a)"@);
    assert forall|v: spec_fn(char) -> u64| #[trigger] bits(s, v) == bits(a, v) by {
        let (x, y, z) = (v('a'), v('b'), v('c'));
        assert(bits(s, v) == (x & y));
        assert(bits(a, v) == (y & x));
        assert((x & y) == (y & x)) by (bit_vector);
    }
}

proof fn lemma_bitwise_rule_78()
    ensures
        sound_over_words(rule_table()[78]),
{
    let s = *bin2("|", var('a'), var('b'));
    let a = *bin2("|", var('b'), var('a'));
    reveal_strlit("(| ?a ?b)");
    reveal_strlit("(| ?b ?a)");
    reveal_strlit("&");
    reveal_strlit("|");
    reveal_strlit("^");
    reveal_strlit("~");
    reveal_with_fuel(pattern_text, 4);
    reveal_with_fuel(bitwise, 4);
    reveal_with_fuel(bits, 4);
    lemma_bit_operators_differ();
    assert(rule_table()[78] == crate::rules::rule_group_6()[6]);
    assert(pattern_text(s) =~= "(| ?a ?b)"@);
    assert(pattern_text(a) =~= "(| ?b ?a)"@);
    assert forall|v: spec_fn(char) -> u64| #[trigger] bits(s, v) == bits(a, v) by {
        let (x, y, z) = (v('a'), v('b'), v('c'));
        assert(bits(s, v) == (x | y));
        assert(bits(a, v) == (y | x));
        assert((x | y) == (y | x)) by (bit_vector);
    }
}

proof fn lemma_bitwise_rule_79()
    ensures
        sound_over_words(rule_table()[79]),
{
    let s = *bin2("^", var('a'), var('b'));
    let a = *bin2("^", var('b'), var('a'));
    reveal_strlit("(^ ?a ?b)");
    reveal_strlit("(^ ?b ?a)");
    reveal_strlit("&");
    reveal_strlit("|");
    reveal_strlit("^");
    reveal_strlit("~");
    reveal_with_fuel(pattern_text, 4);
    reveal_with_fuel(bitwise, 4);
    reveal_with_fuel(bits, 4);
    lemma_bit_operators_differ();
    assert(rule_table()[79] == crate::rules::rule_group_6()[7]);
    assert(pattern_text(s) =~= "(^ ?a ?b)"@);
    assert(pattern_text(a) =~= "(^ ?b ?a)"@);
    assert forall|v: spec_fn(char) -> u64| #[trigger] bits(s, v) == bits(a, v) by {
        let (x, y, z) = (v('a'), v('b'), v('c'));
        assert(bits(s, v) == (x ^ y));
        assert(bits(a, v) == (y ^ x));
        assert((x ^ y) == (y ^ x)) by (bit_vector);
    }
}

proof fn lemma_bitwise_rule_80()
    ensures
        sound_over_words(rule_table()[80]),
{
    let s = *bin2("&", var('a'), bin2("&", var('b'), var('c')));
    let a = *bin2("&", bin2("&", var('a'), var('b')), var('c'));
    reveal_strlit("(& ?a (& ?b ?c))");
    reveal_strlit("(& (& ?a ?b) ?c)");
    reveal_strlit("&");
    reveal_strlit("|");
    reveal_strlit("^");
    reveal_strlit("~");
    reveal_with_fuel(pattern_text, 4);
    reveal_with_fuel(bitwise, 4);
    reveal_with_fuel(bits, 4);
    lemma_bit_operators_differ();
    assert(rule_table()[80] == crate::rules::rule_group_6()[8]);
    assert(pattern_text(s) =~= "(& ?a (& ?b ?c))"@);
    assert(pattern_text(a) =~= "(& (& ?a ?b) ?c)"@);
    assert forall|v: spec_fn(char) -> u64| #[trigger] bits(s, v) == bits(a, v) by {
        let (x, y, z) = (v('a'), v('b'), v('c'));
        assert(bits(s, v) == (x & (y & z)));
        assert(bits(a, v) == ((x & y) & z));
        assert((x & (y & z)) == ((x & y) & z)) by (bit_vector);
    }
}

proof fn lemma_bitwise_rule_81()
    ensures
        sound_over_words(rule_table()[81]),
{
    let s = *bin2("|", var('a'), bin2("|", var('b'), var('c')));
    let a = *bin2("|", bin2("|", var('a'), var('b')), var('c'));
    reveal_strlit("(| ?a (| ?b ?c))");
    reveal_strlit("(| (| ?a ?b) ?c)");
    reveal_strlit("&");
    reveal_strlit("|");
    reveal_strlit("^");
    reveal_strlit("~");
    reveal_with_fuel(pattern_text, 4);
    reveal_with_fuel(bitwise, 4);
    reveal_with_fuel(bits, 4);
    lemma_bit_operators_differ();
    assert(rule_table()[81] == crate::rules::rule_group_6()[9]);
    assert(pattern_text(s) =~= "(| ?a (| ?b ?c))"@);
    assert(pattern_text(a) =~= "(| (| ?a ?b) ?c)"@);
    assert forall|v: spec_fn(char) -> u64| #[trigger] bits(s, v) == bits(a, v) by {
        let (x, y, z) = (v('a'), v('b'), v('c'));
        assert(bits(s, v) == (x | (y | z)));
        assert(bits(a, v) == ((x | y) | z));
        assert((x | (y | z)) == ((x | y) | z)) by (bit_vector);
    }
}

proof fn lemma_bitwise_rule_82()
    ensures
        sound_over_words(rule_table()[82]),
{
    let s = *bin2("^", var('a'), bin2("^", var('b'), var('c')));
    let a = *bin2("^", bin2("^", var('a'), var('b')), var('c'));
    reveal_strlit("(^ ?a (^ ?b ?c))");
    reveal_strlit("(^ (^ ?a ?b) ?c)");
    reveal_strlit("&");
    reveal_strlit("|");
    reveal_strlit("^");
    reveal_strlit("~");
    reveal_with_fuel(pattern_text, 4);
    reveal_with_fuel(bitwise, 4);
    reveal_with_fuel(bits, 4);
    lemma_bit_operators_differ();
    assert(rule_table()[82] == crate::rules::rule_group_6()[10]);
    assert(pattern_text(s) =~= "(^ ?a (^ ?b ?c))"@);
    assert(pattern_text(a) =~= "(^ (^ ?a ?b) ?c)"@);
    assert forall|v: spec_fn(char) -> u64| #[trigger] bits(s, v) == bits(a, v) by {
        let (x, y, z) = (v('a'), v('b'), v('c'));
        assert(bits(s, v) == (x ^ (y ^ z)));
        assert(bits(a, v) == ((x ^ y) ^ z));
        assert((x ^ (y ^ z)) == ((x ^ y) ^ z)) by (bit_vector);
    }
}

proof fn lemma_bitwise_rule_83()
    ensures
        sound_over_words(rule_table()[83]),
{
    let s = *bin2("&", var('a'), bin2("|", var('b'), var('c')));
    let a = *bin2("|", bin2("&", var('a'), var('b')), bin2("&", var('a'), var('c')));
    reveal_strlit("(& ?a (| ?b ?c))");
    reveal_strlit("(| (& ?a ?b) (& ?a ?c))");
    reveal_strlit("&");
    reveal_strlit("|");
    reveal_strlit("^");
    reveal_strlit("~");
    reveal_with_fuel(pattern_text, 4);
    reveal_with_fuel(bitwise, 4);
    reveal_with_fuel(bits, 4);
    lemma_bit_operators_differ();
    assert(rule_table()[83] == crate::rules::rule_group_6()[11]);
    assert(pattern_text(s) =~= "(& ?a (| ?b ?c))"@);
    assert(pattern_text(a) =~= "(| (& ?a ?b) (& ?a ?c))"@);
    assert forall|v: spec_fn(char) -> u64| #[trigger] bits(s, v) == bits(a, v) by {
        let (x, y, z) = (v('a'), v('b'), v('c'));
        assert(bits(s, v) == (x & (y | z)));
        assert(bits(a, v) == ((x & y) | (x & z)));
        assert((x & (y | z)) == ((x & y) | (x & z))) by (bit_vector);
    }
}

proof fn lemma_bitwise_rule_84()
    ensures
        sound_over_words(rule_table()[84]),
{
    let s = *bin2("|", bin2("&", var('a'), var('b')), bin2("&", var('a'), var('c')));
    let a = *bin2("&", var('a'), bin2("|", var('b'), var('c')));
    reveal_strlit("(| (& ?a ?b) (& ?a ?c))");
    reveal_strlit("(& ?a (| ?b ?c))");
    reveal_strlit("&");
    reveal_strlit("|");
    reveal_strlit("^");
    reveal_strlit("~");
    reveal_with_fuel(pattern_text, 4);
    reveal_with_fuel(bitwise, 4);
    reveal_with_fuel(bits, 4);
    lemma_bit_operators_differ();
    assert(rule_table()[84] == crate::rules::rule_group_7()[0]);
    assert(pattern_text(s) =~= "(| (& ?a ?b) (& ?a ?c))"@);
    assert(pattern_text(a) =~= "(& ?a (| ?b ?c))"@);
    assert forall|v: spec_fn(char) -> u64| #[trigger] bits(s, v) == bits(a, v) by {
        let (x, y, z) = (v('a'), v('b'), v('c'));
        assert(bits(s, v) == ((x & y) | (x & z)));
        assert(bits(a, v) == (x & (y | z)));
        assert(((x & y) | (x & z)) == (x & (y | z))) by (bit_vector);
    }
}

proof fn lemma_bitwise_rule_85()
    ensures
        sound_over_words(rule_table()[85]),
{
    let s = *bin2("|", var('a'), bin2("&", var('b'), var('c')));
    let a = *bin2("&", bin2("|", var('a'), var('b')), bin2("|", var('a'), var('c')));
    reveal_strlit("(| ?a (& ?b ?c))");
    reveal_strlit("(& (| ?a ?b) (| ?a ?c))");
    reveal_strlit("&");
    reveal_strlit("|");
    reveal_strlit("^");
    reveal_strlit("~");
    reveal_with_fuel(pattern_text, 4);
    reveal_with_fuel(bitwise, 4);
    reveal_with_fuel(bits, 4);
    lemma_bit_operators_differ();
    assert(rule_table()[85] == crate::rules::rule_group_7()[1]);
    assert(pattern_text(s) =~= "(| ?a (& ?b ?c))"@);
    assert(pattern_text(a) =~= "(& (| ?a ?b) (| ?a ?c))"@);
    assert forall|v: spec_fn(char) -> u64| #[trigger] bits(s, v) == bits(a, v) by {
        let (x, y, z) = (v('a'), v('b'), v('c'));
        assert(bits(s, v) == (x | (y & z)));
        assert(bits(a, v) == ((x | y) & (x | z)));
        assert((x | (y & z)) == ((x | y) & (x | z))) by (bit_vector);
    }
}

proof fn lemma_bitwise_rule_86()
    ensures
        sound_over_words(rule_table()[86]),
{
    let s = *bin2("&", bin2("|", var('a'), var('b')), bin2("|", var('a'), var('c')));
    let a = *bin2("|", var('a'), bin2("&", var('b'), var('c')));
    reveal_strlit("(& (| ?a ?b) (| ?a ?c))");
    reveal_strlit("(| ?a (& ?b ?c))");
    reveal_strlit("&");
    reveal_strlit("|");
    reveal_strlit("^");
    reveal_strlit("~");
    reveal_with_fuel(pattern_text, 4);
    reveal_with_fuel(bitwise, 4);
    reveal_with_fuel(bits, 4);
    lemma_bit_operators_differ();
    assert(rule_table()[86] == crate::rules::rule_group_7()[2]);
    assert(pattern_text(s) =~= "(& (| ?a ?b) (| ?a ?c))"@);
    assert(pattern_text(a) =~= "(| ?a (& ?b ?c))"@);
    assert forall|v: spec_fn(char) -> u64| #[trigger] bits(s, v) == bits(a, v) by {
        let (x, y, z) = (v('a'), v('b'), v('c'));
        assert(bits(s, v) == ((x | y) & (x | z)));
        assert(bits(a, v) == (x | (y & z)));
        assert(((x | y) & (x | z)) == (x | (y & z))) by (bit_vector);
    }
}

proof fn lemma_bitwise_rule_87()
    ensures
        sound_over_words(rule_table()[87]),
{
    let s = *bin2("&", var('a'), bin2("|", var('a'), var('b')));
    let a = *var('a');
    reveal_strlit("(& ?a (| ?a ?b))");
    reveal_strlit("?a");
    reveal_strlit("&");
    reveal_strlit("|");
    reveal_strlit("^");
    reveal_strlit("~");
    reveal_with_fuel(pattern_text, 4);
    reveal_with_fuel(bitwise, 4);
    reveal_with_fuel(bits, 4);
    lemma_bit_operators_differ();
    assert(rule_table()[87] == crate::rules::rule_group_7()[3]);
    assert(pattern_text(s) =~= "(& ?a (| ?a ?b))"@);
    assert(pattern_text(a) =~= "?a"@);
    assert forall|v: spec_fn(char) -> u64| #[trigger] bits(s, v) == bits(a, v) by {
        let (x, y, z) = (v('a'), v('b'), v('c'));
        assert(bits(s, v) == (x & (x | y)));
        assert(bits(a, v) == x);
        assert((x & (x | y)) == x) by (bit_vector);
    }
}

proof fn lemma_bitwise_rule_88()
    ensures
        sound_over_words(rule_table()[88]),
{
    let s = *bin2("|", var('a'), bin2("&", var('a'), var('b')));
    let a = *var('a');
    reveal_strlit("(| ?a (& ?a ?b))");
    reveal_strlit("?a");
    reveal_strlit("&");
    reveal_strlit("|");
    reveal_strlit("^");
    reveal_strlit("~");
    reveal_with_fuel(pattern_text, 4);
    reveal_with_fuel(bitwise, 4);
    reveal_with_fuel(bits, 4);
    lemma_bit_operators_differ();
    assert(rule_table()[88] == crate::rules::rule_group_7()[4]);
    assert(pattern_text(s) =~= "(| ?a (& ?a ?b))"@);
    assert(pattern_text(a) =~= "?a"@);
    assert forall|v: spec_fn(char) -> u64| #[trigger] bits(s, v) == bits(a, v) by {
        let (x, y, z) = (v('a'), v('b'), v('c'));
        assert(bits(s, v) == (x | (x & y)));
        assert(bits(a, v) == x);
        assert((x | (x & y)) == x) by (bit_vector);
    }
}

proof fn lemma_bitwise_rule_89()
    ensures
        sound_over_words(rule_table()[89]),
{
    let s = *un("~", bin2("&", var('a'), var('b')));
    let a = *bin2("|", un("~", var('a')), un("~", var('b')));
    reveal_strlit("(~ (& ?a ?b))");
    reveal_strlit("(| (~ ?a) (~ ?b))");
    reveal_strlit("&");
    reveal_strlit("|");
    reveal_strlit("^");
    reveal_strlit("~");
    reveal_with_fuel(pattern_text, 4);
    reveal_with_fuel(bitwise, 4);
    reveal_with_fuel(bits, 4);
    lemma_bit_operators_differ();
    assert(rule_table()[89] == crate::rules::rule_group_7()[5]);
    assert(pattern_text(s) =~= "(~ (& ?a ?b))"@);
    assert(pattern_text(a) =~= "(| (~ ?a) (~ ?b))"@);
    assert forall|v: spec_fn(char) -> u64| #[trigger] bits(s, v) == bits(a, v) by {
        let (x, y, z) = (v('a'), v('b'), v('c'));
        assert(bits(s, v) == !((x & y)));
        assert(bits(a, v) == (!(x) | !(y)));
        assert(!((x & y)) == (!(x) | !(y))) by (bit_vector);
    }
}

proof fn lemma_bitwise_rule_90()
    ensures
        sound_over_words(rule_table()[90]),
{
    let s = *bin2("|", un("~", var('a')), un("~", var('b')));
    let a = *un("~", bin2("&", var('a'), var('b')));
    reveal_strlit("(| (~ ?a) (~ ?b))");
    reveal_strlit("(~ (& ?a ?b))");
    reveal_strlit("&");
    reveal_strlit("|");
    reveal_strlit("^");
    reveal_strlit("~");
    reveal_with_fuel(pattern_text, 4);
    reveal_with_fuel(bitwise, 4);
    reveal_with_fuel(bits, 4);
    lemma_bit_operators_differ();
    assert(rule_table()[90] == crate::rules::rule_group_7()[6]);
    assert(pattern_text(s) =~= "(| (~ ?a) (~ ?b))"@);
    assert(pattern_text(a) =~= "(~ (& ?a ?b))"@);
    assert forall|v: spec_fn(char) -> u64| #[trigger] bits(s, v) == bits(a, v) by {
        let (x, y, z) = (v('a'), v('b'), v('c'));
        assert(bits(s, v) == (!(x) | !(y)));
        assert(bits(a, v) == !((x & y)));
        assert((!(x) | !(y)) == !((x & y))) by (bit_vector);
    }
}

proof fn lemma_bitwise_rule_91()
    ensures
        sound_over_words(rule_table()[91]),
{
    let s = *un("~", bin2("|", var('a'), var('b')));
    let a = *bin2("&", un("~", var('a')), un("~", var('b')));
    reveal_strlit("(~ (| ?a ?b))");
    reveal_strlit("(& (~ ?a) (~ ?b))");
    reveal_strlit("&");
    reveal_strlit("|");
    reveal_strlit("^");
    reveal_strlit("~");
    reveal_with_fuel(pattern_text, 4);
    reveal_with_fuel(bitwise, 4);
    reveal_with_fuel(bits, 4);
    lemma_bit_operators_differ();
    assert(rule_table()[91] == crate::rules::rule_group_7()[7]);
    assert(pattern_text(s) =~= "(~ (| ?a ?b))"@);
    assert(pattern_text(a) =~= "(& (~ ?a) (~ ?b))"@);
    assert forall|v: spec_fn(char) -> u64| #[trigger] bits(s, v) == bits(a, v) by {
        let (x, y, z) = (v('a'), v('b'), v('c'));
        assert(bits(s, v) == !((x | y)));
        assert(bits(a, v) == (!(x) & !(y)));
        assert(!((x | y)) == (!(x) & !(y))) by (bit_vector);
    }
}

proof fn lemma_bitwise_rule_92()
    ensures
        sound_over_words(rule_table()[92]),
{
    let s = *bin2("&", un("~", var('a')), un("~", var('b')));
    let a = *un("~", bin2("|", var('a'), var('b')));
    reveal_strlit("(& (~ ?a) (~ ?b))");
    reveal_strlit("(~ (| ?a ?b))");
    reveal_strlit("&");
    reveal_strlit("|");
    reveal_strlit("^");
    reveal_strlit("~");
    reveal_with_fuel(pattern_text, 4);
    reveal_with_fuel(bitwise, 4);
    reveal_with_fuel(bits, 4);
    lemma_bit_operators_differ();
    assert(rule_table()[92] == crate::rules::rule_group_7()[8]);
    assert(pattern_text(s) =~= "(& (~ ?a) (~ ?b))"@);
    assert(pattern_text(a) =~= "(~ (| ?a ?b))"@);
    assert forall|v: spec_fn(char) -> u64| #[trigger] bits(s, v) == bits(a, v) by {
        let (x, y, z) = (v('a'), v('b'), v('c'));
        assert(bits(s, v) == (!(x) & !(y)));
        assert(bits(a, v) == !((x | y)));
        assert((!(x) & !(y)) == !((x | y))) by (bit_vector);
    }
}

proof fn lemma_bitwise_rule_93()
    ensures
        sound_over_words(rule_table()[93]),
{
    let s = *un("~", un("~", var('a')));
    let a = *var('a');
    reveal_strlit("(~ (~ ?a))");
    reveal_strlit("?a");
    reveal_strlit("&");
    reveal_strlit("|");
    reveal_strlit("^");
    reveal_strlit("~");
    reveal_with_fuel(pattern_text, 4);
    reveal_with_fuel(bitwise, 4);
    reveal_with_fuel(bits, 4);
    lemma_bit_operators_differ();
    assert(rule_table()[93] == crate::rules::rule_group_7()[9]);
    assert(pattern_text(s) =~= "(~ (~ ?a))"@);
    assert(pattern_text(a) =~= "?a"@);
    assert forall|v: spec_fn(char) -> u64| #[trigger] bits(s, v) == bits(a, v) by {
        let (x, y, z) = (v('a'), v('b'), v('c'));
        assert(bits(s, v) == !(!(x)));
        assert(bits(a, v) == x);
        assert(!(!(x)) == x) by (bit_vector);
    }
}

/// The positions in the rule set of the bitwise rules: commutativity,
/// associativity and distributivity of `&`, `|` and `^`, absorption, De
/// Morgan's laws and double complement.
pub open spec fn bitwise_rules() -> Seq<int> {
    seq![77, 78, 79, 80, 81, 82, 83, 84, 85, 86, 87, 88, 89, 90, 91, 92, 93]
}

/// Every bitwise rule of the rule set is sound on 64-bit words: what it
/// searches for and what it rewrites to are patterns of equal value for all
/// values of their variables.
pub proof fn law_bitwise_rules_sound()
    ensures
        forall|m: int|
            0 <= m < bitwise_rules().len() ==> sound_over_words(
                #[trigger] rule_table()[bitwise_rules()[m]],
            ),
{
    assert forall|m: int| 0 <= m < bitwise_rules().len() implies sound_over_words(
        #[trigger] rule_table()[bitwise_rules()[m]],
    ) by {
        if m == 0 {
            lemma_bitwise_rule_77();
        } else if m == 1 {
            lemma_bitwise_rule_78();
        } else if m == 2 {
            lemma_bitwise_rule_79();
        } else if m == 3 {
            lemma_bitwise_rule_80();
        } else if m == 4 {
            lemma_bitwise_rule_81();
        } else if m == 5 {
            lemma_bitwise_rule_82();
        } else if m == 6 {
            lemma_bitwise_rule_83();
        } else if m == 7 {
            lemma_bitwise_rule_84();
        } else if m == 8 {
            lemma_bitwise_rule_85();
        } else if m == 9 {
            lemma_bitwise_rule_86();
        } else if m == 10 {
            lemma_bitwise_rule_87();
        } else if m == 11 {
            lemma_bitwise_rule_88();
        } else if m == 12 {
            lemma_bitwise_rule_89();
        } else if m == 13 {
            lemma_bitwise_rule_90();
        } else if m == 14 {
            lemma_bitwise_rule_91();
        } else if m == 15 {
            lemma_bitwise_rule_92();
        } else if m == 16 {
            lemma_bitwise_rule_93();
        }
    }
}

} // verus!
