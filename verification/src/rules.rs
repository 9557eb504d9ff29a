//! The rewrite rules the optimiser saturates transpiled terms with.
use vstd::prelude::*;

verus! {

/// A rewrite rule: its name, the pattern it searches for and the pattern it
/// rewrites a match to (pattern variables start with `?`).
#[derive(Debug)]
pub struct RewriteRule {
    pub name: String,
    pub searcher: String,
    pub applier: String,
}

/// The texts of a rule.
pub open spec fn rule_view(r: RewriteRule) -> (Seq<char>, Seq<char>, Seq<char>) {
    (r.name@, r.searcher@, r.applier@)
}

/// The texts of a list of rules.
pub open spec fn rules_view(v: Seq<RewriteRule>) -> Seq<(Seq<char>, Seq<char>, Seq<char>)> {
    v.map_values(|r: RewriteRule| rule_view(r))
}

fn push_rule(v: &mut Vec<RewriteRule>, name: &str, searcher: &str, applier: &str)
    ensures
        rules_view(final(v)@) == rules_view(old(v)@).push((name@, searcher@, applier@)),
{
    let ghost before = v@;
    v.push(RewriteRule {
        name: String::from_str(name),
        searcher: String::from_str(searcher),
        applier: String::from_str(applier),
    });
    assert(rules_view(final(v)@) =~= rules_view(before).push((name@, searcher@, applier@)));
}

/// Rules 0 to 11 of the rule set.
pub open spec fn rule_group_0() -> Seq<(Seq<char>, Seq<char>, Seq<char>)> {
    seq![
        ("Compound 2"@, "(+ (+ ?a 1) 1)"@, "(+ ?a 2)"@),
        ("Compound 1"@, "(= ?a (+ (+ ?a 1) 1))"@, "(+= ?a 2)"@),
        ("Compound 16"@, "(+ (+ (+ (+ (?a) (1)) (1)) (1)) (1))"@, "(+ ?a (+ 2 2))"@),
        ("Compound 5"@, "(- (+ (+ (?a) (?b)) (?c)) (?b))"@, "(+ (?a) (?c))"@),
        ("Compound 6"@, "(+ (+ (+ (+ (+ (+ ?a (1)) (1)) (1)) (1)) (1)) (1))"@, "(+ ?a (+ (+ 2 2) 2))"@),
        ("Compound 3"@, "(+ (+ (+ (+ (+ (+ (+ (+ (?a) (1)) (1)) (1)) (1)) (1)) (1)) (1)) (1)))"@, "(+ ?a (+ (+ (+ 2 2) 2) 2))"@),
        ("Compound 8"@, "(= (?a) (+ (+ (+ (?a) (1)) (1)) (1)))"@, "(+= ?a (+ 2 1))"@),
        ("Compound 13"@, "(&& (&& (?a) (! (?b))) (! (?c)))"@, "(&& (?a) (! (|| (?b) (?c))))"@),
        ("Commutative addition"@, "(+ ?a ?b)"@, "(+ ?b ?a)"@),
        ("Commutative multiplication"@, "(* ?a ?b)"@, "(* ?b ?a)"@),
        ("Associative addition"@, "(+ ?a (+ ?b ?c))"@, "(+ (+ ?a ?b) ?c)"@),
        ("Associative multiplication"@, "(* ?a (* ?b ?c))"@, "(* (* ?a ?b) ?c)"@),
    ]
}

fn push_group_0(v: &mut Vec<RewriteRule>)
    ensures
        rules_view(final(v)@) == rules_view(old(v)@) + rule_group_0(),
{
    let ghost start = rules_view(v@);
    push_rule(v, "Compound 2", "(+ (+ ?a 1) 1)", "(+ ?a 2)");
    push_rule(v, "Compound 1", "(= ?a (+ (+ ?a 1) 1))", "(+= ?a 2)");
    push_rule(v, "Compound 16", "(+ (+ (+ (+ (?a) (1)) (1)) (1)) (1))", "(+ ?a (+ 2 2))");
    push_rule(v, "Compound 5", "(- (+ (+ (?a) (?b)) (?c)) (?b))", "(+ (?a) (?c))");
    push_rule(v, "Compound 6", "(+ (+ (+ (+ (+ (+ ?a (1)) (1)) (1)) (1)) (1)) (1))", "(+ ?a (+ (+ 2 2) 2))");
    push_rule(v, "Compound 3", "(+ (+ (+ (+ (+ (+ (+ (+ (?a) (1)) (1)) (1)) (1)) (1)) (1)) (1)) (1)))", "(+ ?a (+ (+ (+ 2 2) 2) 2))");
    push_rule(v, "Compound 8", "(= (?a) (+ (+ (+ (?a) (1)) (1)) (1)))", "(+= ?a (+ 2 1))");
    push_rule(v, "Compound 13", "(&& (&& (?a) (! (?b))) (! (?c)))", "(&& (?a) (! (|| (?b) (?c))))");
    push_rule(v, "Commutative addition", "(+ ?a ?b)", "(+ ?b ?a)");
    push_rule(v, "Commutative multiplication", "(* ?a ?b)", "(* ?b ?a)");
    push_rule(v, "Associative addition", "(+ ?a (+ ?b ?c))", "(+ (+ ?a ?b) ?c)");
    push_rule(v, "Associative multiplication", "(* ?a (* ?b ?c))", "(* (* ?a ?b) ?c)");
    assert(rules_view(v@) =~= start + rule_group_0());
}

/// Rules 12 to 23 of the rule set.
pub open spec fn rule_group_1() -> Seq<(Seq<char>, Seq<char>, Seq<char>)> {
    seq![
        ("Distributive multiplication over addition"@, "(* ?a (+ ?b ?c))"@, "(+ (* ?a ?b) (* ?a ?c))"@),
        ("Identity element of addition"@, "(+ ?a 0)"@, "?a"@),
        ("Identity element of multiplication"@, "(* ?a 1)"@, "?a"@),
        ("Annihilating element of addition"@, "(+ ?a 0)"@, "?a"@),
        ("Annihilating element of multiplication"@, "(* ?a 0)"@, "0"@),
        ("Sum of 2 to multiplication"@, "(+ ?a ?a)"@, "(* ?a 2)"@),
        ("Difference of 2 to 0"@, "(- ?a ?a)"@, "0"@),
        ("Difference of 0 to self"@, "(- 0 ?a)"@, "(- ?a)"@),
        ("Difference of self to 0"@, "(- ?a 0)"@, "?a"@),
        ("Add and subtract the same"@, "(- (+ ?a ?b) ?b)"@, "?a"@),
        ("Subtract and add the same"@, "(+ (- ?a ?b) ?b)"@, "?a"@),
        ("Multiply and divide the same"@, "(/ (* ?a ?b) ?b)"@, "?a"@),
    ]
}

fn push_group_1(v: &mut Vec<RewriteRule>)
    ensures
        rules_view(final(v)@) == rules_view(old(v)@) + rule_group_1(),
{
    let ghost start = rules_view(v@);
    push_rule(v, "Distributive multiplication over addition", "(* ?a (+ ?b ?c))", "(+ (* ?a ?b) (* ?a ?c))");
    push_rule(v, "Identity element of addition", "(+ ?a 0)", "?a");
    push_rule(v, "Identity element of multiplication", "(* ?a 1)", "?a");
    push_rule(v, "Annihilating element of addition", "(+ ?a 0)", "?a");
    push_rule(v, "Annihilating element of multiplication", "(* ?a 0)", "0");
    push_rule(v, "Sum of 2 to multiplication", "(+ ?a ?a)", "(* ?a 2)");
    push_rule(v, "Difference of 2 to 0", "(- ?a ?a)", "0");
    push_rule(v, "Difference of 0 to self", "(- 0 ?a)", "(- ?a)");
    push_rule(v, "Difference of self to 0", "(- ?a 0)", "?a");
    push_rule(v, "Add and subtract the same", "(- (+ ?a ?b) ?b)", "?a");
    push_rule(v, "Subtract and add the same", "(+ (- ?a ?b) ?b)", "?a");
    push_rule(v, "Multiply and divide the same", "(/ (* ?a ?b) ?b)", "?a");
    assert(rules_view(v@) =~= start + rule_group_1());
}

/// Rules 24 to 35 of the rule set.
pub open spec fn rule_group_2() -> Seq<(Seq<char>, Seq<char>, Seq<char>)> {
    seq![
        ("Divide and multiply the same"@, "(* (/ ?a ?b) ?b)"@, "?a"@),
        ("Assignment to self"@, "(= ?a ?a)"@, "(ignore)"@),
        ("Assignment to self plus 1"@, "(= ?a (+ ?a 1))"@, "(++ ?a)"@),
        ("Assignment to self minus 1"@, "(= ?a (- ?a 1))"@, "(-- ?a)"@),
        ("Assignment to self addition"@, "(= ?a (+ ?a ?b))"@, "(+= ?a ?b)"@),
        ("Assignment to self subtraction"@, "(= ?a (- ?a ?b))"@, "(-= ?a ?b)"@),
        ("Assignment to self multiplication"@, "(= ?a (* ?a ?b))"@, "(*= ?a ?b)"@),
        ("Assignment to self division"@, "(= ?a (/ ?a ?b))"@, "(/= ?a ?b)"@),
        ("Assignment to self modulo"@, "(= ?a (% ?a ?b))"@, "(%= ?a ?b)"@),
        ("Assignment to self bitwise and"@, "(= ?a (& ?a ?b))"@, "(&= ?a ?b)"@),
        ("Assignment to self bitwise or"@, "(= ?a (| ?a ?b))"@, "(|= ?a ?b)"@),
        ("Assignment to self bitwise xor"@, "(= ?a (^ ?a ?b))"@, "(^= ?a ?b)"@),
    ]
}

fn push_group_2(v: &mut Vec<RewriteRule>)
    ensures
        rules_view(final(v)@) == rules_view(old(v)@) + rule_group_2(),
{
    let ghost start = rules_view(v@);
    push_rule(v, "Divide and multiply the same", "(* (/ ?a ?b) ?b)", "?a");
    push_rule(v, "Assignment to self", "(= ?a ?a)", "(ignore)");
    push_rule(v, "Assignment to self plus 1", "(= ?a (+ ?a 1))", "(++ ?a)");
    push_rule(v, "Assignment to self minus 1", "(= ?a (- ?a 1))", "(-- ?a)");
    push_rule(v, "Assignment to self addition", "(= ?a (+ ?a ?b))", "(+= ?a ?b)");
    push_rule(v, "Assignment to self subtraction", "(= ?a (- ?a ?b))", "(-= ?a ?b)");
    push_rule(v, "Assignment to self multiplication", "(= ?a (* ?a ?b))", "(*= ?a ?b)");
    push_rule(v, "Assignment to self division", "(= ?a (/ ?a ?b))", "(/= ?a ?b)");
    push_rule(v, "Assignment to self modulo", "(= ?a (% ?a ?b))", "(%= ?a ?b)");
    push_rule(v, "Assignment to self bitwise and", "(= ?a (& ?a ?b))", "(&= ?a ?b)");
    push_rule(v, "Assignment to self bitwise or", "(= ?a (| ?a ?b))", "(|= ?a ?b)");
    push_rule(v, "Assignment to self bitwise xor", "(= ?a (^ ?a ?b))", "(^= ?a ?b)");
    assert(rules_view(v@) =~= start + rule_group_2());
}

/// Rules 36 to 47 of the rule set.
pub open spec fn rule_group_3() -> Seq<(Seq<char>, Seq<char>, Seq<char>)> {
    seq![
        ("Assignment to self left shift"@, "(= ?a (<< ?a ?b))"@, "(<<= ?a ?b)"@),
        ("Assignment to self right shift"@, "(= ?a (>> ?a ?b))"@, "(>>= ?a ?b)"@),
        ("Reverse assignment addition"@, "(+= ?a ?b)"@, "(= ?a (+ ?a ?b))"@),
        ("Reverse assignment subtraction"@, "(-= ?a ?b)"@, "(= ?a (- ?a ?b))"@),
        ("Reverse assignment multiplication"@, "(*= ?a ?b)"@, "(= ?a (* ?a ?b))"@),
        ("Reverse assignment division"@, "(/= ?a ?b)"@, "(= ?a (/ ?a ?b))"@),
        ("Reverse assignment modulo"@, "(%= ?a ?b)"@, "(= ?a (% ?a ?b))"@),
        ("Reverse assignment bitwise and"@, "(&= ?a ?b)"@, "(= ?a (& ?a ?b))"@),
        ("Reverse assignment bitwise or"@, "(|= ?a ?b)"@, "(= ?a (| ?a ?b))"@),
        ("Reverse assignment bitwise xor"@, "(^= ?a ?b)"@, "(= ?a (^ ?a ?b))"@),
        ("Reverse assignment left shift"@, "(<<= ?a ?b)"@, "(= ?a (<< ?a ?b))"@),
        ("Reverse assignment right shift"@, "(>>= ?a ?b)"@, "(= ?a (>> ?a ?b))"@),
    ]
}

fn push_group_3(v: &mut Vec<RewriteRule>)
    ensures
        rules_view(final(v)@) == rules_view(old(v)@) + rule_group_3(),
{
    let ghost start = rules_view(v@);
    push_rule(v, "Assignment to self left shift", "(= ?a (<< ?a ?b))", "(<<= ?a ?b)");
    push_rule(v, "Assignment to self right shift", "(= ?a (>> ?a ?b))", "(>>= ?a ?b)");
    push_rule(v, "Reverse assignment addition", "(+= ?a ?b)", "(= ?a (+ ?a ?b))");
    push_rule(v, "Reverse assignment subtraction", "(-= ?a ?b)", "(= ?a (- ?a ?b))");
    push_rule(v, "Reverse assignment multiplication", "(*= ?a ?b)", "(= ?a (* ?a ?b))");
    push_rule(v, "Reverse assignment division", "(/= ?a ?b)", "(= ?a (/ ?a ?b))");
    push_rule(v, "Reverse assignment modulo", "(%= ?a ?b)", "(= ?a (% ?a ?b))");
    push_rule(v, "Reverse assignment bitwise and", "(&= ?a ?b)", "(= ?a (& ?a ?b))");
    push_rule(v, "Reverse assignment bitwise or", "(|= ?a ?b)", "(= ?a (| ?a ?b))");
    push_rule(v, "Reverse assignment bitwise xor", "(^= ?a ?b)", "(= ?a (^ ?a ?b))");
    push_rule(v, "Reverse assignment left shift", "(<<= ?a ?b)", "(= ?a (<< ?a ?b))");
    push_rule(v, "Reverse assignment right shift", "(>>= ?a ?b)", "(= ?a (>> ?a ?b))");
    assert(rules_view(v@) =~= start + rule_group_3());
}

/// Rules 48 to 59 of the rule set.
pub open spec fn rule_group_4() -> Seq<(Seq<char>, Seq<char>, Seq<char>)> {
    seq![
        ("Negation of negation"@, "(! (! ?a))"@, "?a"@),
        ("Itentity of and true"@, "(&& ?a true)"@, "?a"@),
        ("Itentity of and false"@, "(&& ?a false)"@, "0"@),
        ("Itentity of and zero"@, "(&& ?a 0)"@, "0"@),
        ("Itentity of or true"@, "(|| ?a true)"@, "1"@),
        ("Itentity of or false"@, "(|| ?a false)"@, "?a"@),
        ("Itentity of or zero"@, "(|| ?a 0)"@, "?a"@),
        ("Idempotent and"@, "(&& ?a ?a)"@, "?a"@),
        ("Idempotent or"@, "(|| ?a ?a)"@, "?a"@),
        ("Inverse and"@, "(&& ?a (! ?a))"@, "0"@),
        ("Inverse or"@, "(|| ?a (! ?a))"@, "1"@),
        ("Commutative and"@, "(&& ?a ?b)"@, "(&& ?b ?a)"@),
    ]
}

fn push_group_4(v: &mut Vec<RewriteRule>)
    ensures
        rules_view(final(v)@) == rules_view(old(v)@) + rule_group_4(),
{
    let ghost start = rules_view(v@);
    push_rule(v, "Negation of negation", "(! (! ?a))", "?a");
    push_rule(v, "Itentity of and true", "(&& ?a true)", "?a");
    push_rule(v, "Itentity of and false", "(&& ?a false)", "0");
    push_rule(v, "Itentity of and zero", "(&& ?a 0)", "0");
    push_rule(v, "Itentity of or true", "(|| ?a true)", "1");
    push_rule(v, "Itentity of or false", "(|| ?a false)", "?a");
    push_rule(v, "Itentity of or zero", "(|| ?a 0)", "?a");
    push_rule(v, "Idempotent and", "(&& ?a ?a)", "?a");
    push_rule(v, "Idempotent or", "(|| ?a ?a)", "?a");
    push_rule(v, "Inverse and", "(&& ?a (! ?a))", "0");
    push_rule(v, "Inverse or", "(|| ?a (! ?a))", "1");
    push_rule(v, "Commutative and", "(&& ?a ?b)", "(&& ?b ?a)");
    assert(rules_view(v@) =~= start + rule_group_4());
}

/// Rules 60 to 71 of the rule set.
pub open spec fn rule_group_5() -> Seq<(Seq<char>, Seq<char>, Seq<char>)> {
    seq![
        ("Commutative or"@, "(|| ?a ?b)"@, "(|| ?b ?a)"@),
        ("Associative and"@, "(&& ?a (&& ?b ?c))"@, "(&& (&& ?a ?b) ?c)"@),
        ("Associative or"@, "(|| ?a (|| ?b ?c))"@, "(|| (|| ?a ?b) ?c)"@),
        ("Distributive or over and"@, "(|| ?a (&& ?b ?c))"@, "(&& (|| ?a ?b) (|| ?a ?c))"@),
        ("Distributive or over and-rev"@, "(&& (|| ?a ?b) (|| ?a ?c))"@, "(|| ?a (&& ?b ?c))"@),
        ("Distributive and over or"@, "(&& ?a (|| ?b ?c))"@, "(|| (&& ?a ?b) (&& ?a ?c))"@),
        ("Distributive and over or-rev"@, "(|| (&& ?a ?b) (&& ?a ?c))"@, "(&& ?a (|| ?b ?c))"@),
        ("Absorption and"@, "(&& ?a (|| ?a ?b))"@, "?a"@),
        ("Absorption or"@, "(|| ?a (&& ?a ?b))"@, "?a"@),
        ("De Morgan's law and"@, "(! (&& ?a ?b))"@, "(|| (! ?a) (! ?b))"@),
        ("De Morgan's law and-rev"@, "(|| (! ?a) (! ?b))"@, "(! (&& ?a ?b))"@),
        ("De Morgan's law or"@, "(! (|| ?a ?b))"@, "(&& (! ?a) (! ?b))"@),
    ]
}

fn push_group_5(v: &mut Vec<RewriteRule>)
    ensures
        rules_view(final(v)@) == rules_view(old(v)@) + rule_group_5(),
{
    let ghost start = rules_view(v@);
    push_rule(v, "Commutative or", "(|| ?a ?b)", "(|| ?b ?a)");
    push_rule(v, "Associative and", "(&& ?a (&& ?b ?c))", "(&& (&& ?a ?b) ?c)");
    push_rule(v, "Associative or", "(|| ?a (|| ?b ?c))", "(|| (|| ?a ?b) ?c)");
    push_rule(v, "Distributive or over and", "(|| ?a (&& ?b ?c))", "(&& (|| ?a ?b) (|| ?a ?c))");
    push_rule(v, "Distributive or over and-rev", "(&& (|| ?a ?b) (|| ?a ?c))", "(|| ?a (&& ?b ?c))");
    push_rule(v, "Distributive and over or", "(&& ?a (|| ?b ?c))", "(|| (&& ?a ?b) (&& ?a ?c))");
    push_rule(v, "Distributive and over or-rev", "(|| (&& ?a ?b) (&& ?a ?c))", "(&& ?a (|| ?b ?c))");
    push_rule(v, "Absorption and", "(&& ?a (|| ?a ?b))", "?a");
    push_rule(v, "Absorption or", "(|| ?a (&& ?a ?b))", "?a");
    push_rule(v, "De Morgan's law and", "(! (&& ?a ?b))", "(|| (! ?a) (! ?b))");
    push_rule(v, "De Morgan's law and-rev", "(|| (! ?a) (! ?b))", "(! (&& ?a ?b))");
    push_rule(v, "De Morgan's law or", "(! (|| ?a ?b))", "(&& (! ?a) (! ?b))");
    assert(rules_view(v@) =~= start + rule_group_5());
}

/// Rules 72 to 83 of the rule set.
pub open spec fn rule_group_6() -> Seq<(Seq<char>, Seq<char>, Seq<char>)> {
    seq![
        ("De Morgan's law or-rev"@, "(&& (! ?a) (! ?b))"@, "(! (|| ?a ?b))"@),
        ("Negation of true"@, "(! true)"@, "0"@),
        ("Negation of false"@, "(! false)"@, "1"@),
        ("Negation of zero"@, "(! 0)"@, "1"@),
        ("Negation of one"@, "(! 1)"@, "0"@),
        ("Commutative bitwise and"@, "(& ?a ?b)"@, "(& ?b ?a)"@),
        ("Commutative bitwise or"@, "(| ?a ?b)"@, "(| ?b ?a)"@),
        ("Commutative bitwise xor"@, "(^ ?a ?b)"@, "(^ ?b ?a)"@),
        ("Associative bitwise and"@, "(& ?a (& ?b ?c))"@, "(& (& ?a ?b) ?c)"@),
        ("Associative bitwise or"@, "(| ?a (| ?b ?c))"@, "(| (| ?a ?b) ?c)"@),
        ("Associative bitwise xor"@, "(^ ?a (^ ?b ?c))"@, "(^ (^ ?a ?b) ?c)"@),
        ("Distributive bitwise and over or"@, "(& ?a (| ?b ?c))"@, "(| (& ?a ?b) (& ?a ?c))"@),
    ]
}

fn push_group_6(v: &mut Vec<RewriteRule>)
    ensures
        rules_view(final(v)@) == rules_view(old(v)@) + rule_group_6(),
{
    let ghost start = rules_view(v@);
    push_rule(v, "De Morgan's law or-rev", "(&& (! ?a) (! ?b))", "(! (|| ?a ?b))");
    push_rule(v, "Negation of true", "(! true)", "0");
    push_rule(v, "Negation of false", "(! false)", "1");
    push_rule(v, "Negation of zero", "(! 0)", "1");
    push_rule(v, "Negation of one", "(! 1)", "0");
    push_rule(v, "Commutative bitwise and", "(& ?a ?b)", "(& ?b ?a)");
    push_rule(v, "Commutative bitwise or", "(| ?a ?b)", "(| ?b ?a)");
    push_rule(v, "Commutative bitwise xor", "(^ ?a ?b)", "(^ ?b ?a)");
    push_rule(v, "Associative bitwise and", "(& ?a (& ?b ?c))", "(& (& ?a ?b) ?c)");
    push_rule(v, "Associative bitwise or", "(| ?a (| ?b ?c))", "(| (| ?a ?b) ?c)");
    push_rule(v, "Associative bitwise xor", "(^ ?a (^ ?b ?c))", "(^ (^ ?a ?b) ?c)");
    push_rule(v, "Distributive bitwise and over or", "(& ?a (| ?b ?c))", "(| (& ?a ?b) (& ?a ?c))");
    assert(rules_view(v@) =~= start + rule_group_6());
}

/// Rules 84 to 95 of the rule set.
pub open spec fn rule_group_7() -> Seq<(Seq<char>, Seq<char>, Seq<char>)> {
    seq![
        ("Distributive bitwise and over or-rev"@, "(| (& ?a ?b) (& ?a ?c))"@, "(& ?a (| ?b ?c))"@),
        ("Distributive bitwise or over and"@, "(| ?a (& ?b ?c))"@, "(& (| ?a ?b) (| ?a ?c))"@),
        ("Distributive bitwise or over and-rev"@, "(& (| ?a ?b) (| ?a ?c))"@, "(| ?a (& ?b ?c))"@),
        ("Absorption bitwise and"@, "(& ?a (| ?a ?b))"@, "?a"@),
        ("Absorption bitwise or"@, "(| ?a (& ?a ?b))"@, "?a"@),
        ("De Morgan's law bitwise and"@, "(~ (& ?a ?b))"@, "(| (~ ?a) (~ ?b))"@),
        ("De Morgan's law bitwise and-rev"@, "(| (~ ?a) (~ ?b))"@, "(~ (& ?a ?b))"@),
        ("De Morgan's law bitwise or"@, "(~ (| ?a ?b))"@, "(& (~ ?a) (~ ?b))"@),
        ("De Morgan's law bitwise or-rev"@, "(& (~ ?a) (~ ?b))"@, "(~ (| ?a ?b))"@),
        ("Bitwise negation of negation"@, "(~ (~ ?a))"@, "?a"@),
        ("If always true"@, "(if true ?a ?b)"@, "?a"@),
        ("If always false"@, "(if false ?a ?b)"@, "?b"@),
    ]
}

fn push_group_7(v: &mut Vec<RewriteRule>)
    ensures
        rules_view(final(v)@) == rules_view(old(v)@) + rule_group_7(),
{
    let ghost start = rules_view(v@);
    push_rule(v, "Distributive bitwise and over or-rev", "(| (& ?a ?b) (& ?a ?c))", "(& ?a (| ?b ?c))");
    push_rule(v, "Distributive bitwise or over and", "(| ?a (& ?b ?c))", "(& (| ?a ?b) (| ?a ?c))");
    push_rule(v, "Distributive bitwise or over and-rev", "(& (| ?a ?b) (| ?a ?c))", "(| ?a (& ?b ?c))");
    push_rule(v, "Absorption bitwise and", "(& ?a (| ?a ?b))", "?a");
    push_rule(v, "Absorption bitwise or", "(| ?a (& ?a ?b))", "?a");
    push_rule(v, "De Morgan's law bitwise and", "(~ (& ?a ?b))", "(| (~ ?a) (~ ?b))");
    push_rule(v, "De Morgan's law bitwise and-rev", "(| (~ ?a) (~ ?b))", "(~ (& ?a ?b))");
    push_rule(v, "De Morgan's law bitwise or", "(~ (| ?a ?b))", "(& (~ ?a) (~ ?b))");
    push_rule(v, "De Morgan's law bitwise or-rev", "(& (~ ?a) (~ ?b))", "(~ (| ?a ?b))");
    push_rule(v, "Bitwise negation of negation", "(~ (~ ?a))", "?a");
    push_rule(v, "If always true", "(if true ?a ?b)", "?a");
    push_rule(v, "If always false", "(if false ?a ?b)", "?b");
    assert(rules_view(v@) =~= start + rule_group_7());
}

/// Rules 96 to 106 of the rule set.
pub open spec fn rule_group_8() -> Seq<(Seq<char>, Seq<char>, Seq<char>)> {
    seq![
        ("If with same branches"@, "(if ?a ?b ?b)"@, "?b"@),
        ("While true"@, "(while true ?a)"@, "?a"@),
        ("While false"@, "(while false ?a)"@, "(ignore)"@),
        ("Do-while true"@, "(do-while true ?a)"@, "?a"@),
        ("Do-while false"@, "(do-while false ?a)"@, "(ignore)"@),
        ("For loop with no condition"@, "(for ?a (ignore) ?b ?c)"@, "?c"@),
        ("For loop with declaration and empty body"@, "(for (declaration ?a ?b) ?c ?d (ignore))"@, "(ignore)"@),
        ("Switch with no cases"@, "(switch ?a (ignore))"@, "(ignore)"@),
        ("Equality of self"@, "(== ?a ?a)"@, "1"@),
        ("Inequality of self"@, "(!= ?a ?a)"@, "0"@),
        ("Dereference of address"@, "(* (& ?a))"@, "?a"@),
    ]
}

fn push_group_8(v: &mut Vec<RewriteRule>)
    ensures
        rules_view(final(v)@) == rules_view(old(v)@) + rule_group_8(),
{
    let ghost start = rules_view(v@);
    push_rule(v, "If with same branches", "(if ?a ?b ?b)", "?b");
    push_rule(v, "While true", "(while true ?a)", "?a");
    push_rule(v, "While false", "(while false ?a)", "(ignore)");
    push_rule(v, "Do-while true", "(do-while true ?a)", "?a");
    push_rule(v, "Do-while false", "(do-while false ?a)", "(ignore)");
    push_rule(v, "For loop with no condition", "(for ?a (ignore) ?b ?c)", "?c");
    push_rule(v, "For loop with declaration and empty body", "(for (declaration ?a ?b) ?c ?d (ignore))", "(ignore)");
    push_rule(v, "Switch with no cases", "(switch ?a (ignore))", "(ignore)");
    push_rule(v, "Equality of self", "(== ?a ?a)", "1");
    push_rule(v, "Inequality of self", "(!= ?a ?a)", "0");
    push_rule(v, "Dereference of address", "(* (& ?a))", "?a");
    assert(rules_view(v@) =~= start + rule_group_8());
}

/// The whole rule set, in the order the optimiser is given it.
pub open spec fn rule_table() -> Seq<(Seq<char>, Seq<char>, Seq<char>)> {
    rule_group_0() + rule_group_1() + rule_group_2() + rule_group_3() + rule_group_4() + rule_group_5() + rule_group_6() + rule_group_7() + rule_group_8()
}

/// The rewrite rules of the optimiser: arithmetic, assignment, boolean,
/// bitwise and control flow identities, and compound rules found useful on
/// common code.
pub fn rule_definitions() -> (rules: Vec<RewriteRule>)
    ensures
        rules_view(rules@) == rule_table(),
{
    let mut rules: Vec<RewriteRule> = Vec::new();
    assert(rules_view(rules@) =~= Seq::<(Seq<char>, Seq<char>, Seq<char>)>::empty());
    push_group_0(&mut rules);
    push_group_1(&mut rules);
    push_group_2(&mut rules);
    push_group_3(&mut rules);
    push_group_4(&mut rules);
    push_group_5(&mut rules);
    push_group_6(&mut rules);
    push_group_7(&mut rules);
    push_group_8(&mut rules);
    assert(rules_view(rules@) =~= rule_table());
    rules
}

} // verus!
