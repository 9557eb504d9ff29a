//! Reading the explanation of why two terms are equal: which rewrite rules
//! were applied, how often, and along which chains.
use vstd::prelude::*;

use crate::bindings::names;

verus! {

/// One step of an explanation: the node of the term reached, the rule that
/// led to it (if it was applied forwards) and the explanations of its children.
#[derive(Debug)]
pub struct TreeTerm {
    /// The operator of the node, as the optimiser's language prints it.
    pub node: String,
    pub forward_rule: Option<String>,
    pub child_proofs: Vec<TreeExplanation>,
}

/// An explanation: the successive forms of a term, first to last.
pub type TreeExplanation = Vec<TreeTerm>;

// ---------------------------------------------------------------------------
// Well-formed explanations and their size
// ---------------------------------------------------------------------------

/// Every explanation in `e` has at least one step.
pub open spec fn expl_wf(e: Seq<TreeTerm>) -> bool {
    &&& e.len() > 0
    &&& steps_wf(e)
}

pub open spec fn steps_wf(s: Seq<TreeTerm>) -> bool
    decreases s,
{
    if s.len() == 0 {
        true
    } else {
        steps_wf(s.drop_last()) && proofs_wf(s.last().child_proofs@)
    }
}

pub open spec fn proofs_wf(s: Seq<TreeExplanation>) -> bool
    decreases s,
{
    if s.len() == 0 {
        true
    } else {
        proofs_wf(s.drop_last()) && s.last()@.len() > 0 && steps_wf(s.last()@)
    }
}

/// The number of steps in `e`, counting those of nested explanations.
pub open spec fn expl_size(e: Seq<TreeTerm>) -> nat
    decreases e,
{
    if e.len() == 0 {
        0
    } else {
        expl_size(e.drop_last()) + 1 + proofs_size(e.last().child_proofs@)
    }
}

pub open spec fn proofs_size(s: Seq<TreeExplanation>) -> nat
    decreases s,
{
    if s.len() == 0 {
        0
    } else {
        proofs_size(s.drop_last()) + expl_size(s.last()@)
    }
}

// ---------------------------------------------------------------------------
// Printing terms
// ---------------------------------------------------------------------------

/// The printed final term of `e`: `(node child ...)` of its last step.
pub open spec fn final_string(e: Seq<TreeTerm>) -> Seq<char>
    decreases e,
{
    if e.len() == 0 {
        Seq::empty()
    } else {
        "("@ + e.last().node@ + children_string(e.last().child_proofs@) + ")"@
    }
}

/// The final terms of `s`, each preceded by a space.
pub open spec fn children_string(s: Seq<TreeExplanation>) -> Seq<char>
    decreases s,
{
    if s.len() == 0 {
        Seq::empty()
    } else {
        children_string(s.drop_last()) + " "@ + final_string(s.last()@)
    }
}

/// The printed initial term of `e`: `(node child ...)` of its first step,
/// each child given by its own initial term.
pub open spec fn initial_string(e: Seq<TreeTerm>) -> Seq<char>
    decreases e,
{
    if e.len() == 0 {
        Seq::empty()
    } else {
        "("@ + e[0].node@ + initial_children_string(e[0].child_proofs@) + ")"@
    }
}

/// The initial terms of `s`, each preceded by a space.
pub open spec fn initial_children_string(s: Seq<TreeExplanation>) -> Seq<char>
    decreases s,
{
    if s.len() == 0 {
        Seq::empty()
    } else {
        initial_children_string(s.drop_last()) + " "@ + initial_string(s.last()@)
    }
}

proof fn lemma_steps_wf_at(s: Seq<TreeTerm>, i: int)
    requires
        steps_wf(s),
        0 <= i < s.len(),
    ensures
        proofs_wf(s[i].child_proofs@),
    decreases s.len(),
{
    if i < s.len() - 1 {
        lemma_steps_wf_at(s.drop_last(), i);
    }
}

proof fn lemma_proofs_wf_at(s: Seq<TreeExplanation>, i: int)
    requires
        proofs_wf(s),
        0 <= i < s.len(),
    ensures
        expl_wf(s[i]@),
    decreases s.len(),
{
    if i < s.len() - 1 {
        lemma_proofs_wf_at(s.drop_last(), i);
    }
}

/// Appends ` t` for the final term `t` of each explanation of `proofs`.
fn append_children(out: &mut String, proofs: &Vec<TreeExplanation>)
    requires
        proofs_wf(proofs@),
    ensures
        final(out)@ == old(out)@ + children_string(proofs@),
    decreases proofs@, 0int,
{
    let mut i: usize = 0;
    while i < proofs.len()
        invariant
            i <= proofs@.len(),
            proofs_wf(proofs@),
            out@ == old(out)@ + children_string(proofs@.take(i as int)),
        decreases proofs@.len() - i,
    {
        assert(proofs@.take(i + 1).drop_last() =~= proofs@.take(i as int));
        proof {
            lemma_proofs_wf_at(proofs@, i as int);
        }
        assert(decreases_to!(proofs@ => proofs@[i as int]));
        let child = term_to_string(&proofs[i]);
        out.append(" ");
        out.append(child.as_str());
        assert(out@ =~= old(out)@ + children_string(proofs@.take(i + 1)));
        i = i + 1;
    }
    assert(proofs@.take(proofs@.len() as int) =~= proofs@);
}

/// Prints the final term of an explanation.
pub fn term_to_string(term: &TreeExplanation) -> (r: String)
    requires
        expl_wf(term@),
    ensures
        r@ == final_string(term@),
    decreases term@, 1int,
{
    let last = &term[term.len() - 1];
    proof {
        lemma_steps_wf_at(term@, term@.len() - 1);
    }
    let mut expr = String::from_str("(");
    expr.append(last.node.as_str());
    assert(decreases_to!(term@ => term@.last()));
    assert(decreases_to!(term@.last() => term@.last().child_proofs));
    assert(decreases_to!(term@.last().child_proofs => term@.last().child_proofs@));
    append_children(&mut expr, &last.child_proofs);
    expr.append(")");
    expr
}

/// Appends ` t` for the initial term `t` of each explanation of `proofs`.
fn append_initial_children(out: &mut String, proofs: &Vec<TreeExplanation>)
    requires
        proofs_wf(proofs@),
    ensures
        final(out)@ == old(out)@ + initial_children_string(proofs@),
    decreases proofs@, 0int,
{
    let mut i: usize = 0;
    while i < proofs.len()
        invariant
            i <= proofs@.len(),
            proofs_wf(proofs@),
            out@ == old(out)@ + initial_children_string(proofs@.take(i as int)),
        decreases proofs@.len() - i,
    {
        assert(proofs@.take(i + 1).drop_last() =~= proofs@.take(i as int));
        proof {
            lemma_proofs_wf_at(proofs@, i as int);
        }
        assert(decreases_to!(proofs@ => proofs@[i as int]));
        let child = term_to_initial_string(&proofs[i]);
        out.append(" ");
        out.append(child.as_str());
        assert(out@ =~= old(out)@ + initial_children_string(proofs@.take(i + 1)));
        i = i + 1;
    }
    assert(proofs@.take(proofs@.len() as int) =~= proofs@);
}

/// Prints the initial term of an explanation.
pub fn term_to_initial_string(term: &TreeExplanation) -> (r: String)
    requires
        expl_wf(term@),
    ensures
        r@ == initial_string(term@),
    decreases term@, 1int,
{
    let first = &term[0];
    proof {
        lemma_steps_wf_at(term@, 0);
    }
    let mut expr = String::from_str("(");
    expr.append(first.node.as_str());
    assert(decreases_to!(term@ => term@[0]));
    assert(decreases_to!(term@[0] => term@[0].child_proofs));
    assert(decreases_to!(term@[0].child_proofs => term@[0].child_proofs@));
    append_initial_children(&mut expr, &first.child_proofs);
    expr.append(")");
    expr
}

// ---------------------------------------------------------------------------
// Counting the rules applied
// ---------------------------------------------------------------------------

/// 1 when step `t` applied `rule` forwards, else 0.
pub open spec fn own_count(t: TreeTerm, rule: Seq<char>) -> nat {
    match t.forward_rule {
        Some(r) => if r@ == rule {
            1
        } else {
            0
        },
        None => 0,
    }
}

/// How many steps of `e`, nested ones included, applied `rule` forwards.
pub open spec fn rule_count(e: Seq<TreeTerm>, rule: Seq<char>) -> nat
    decreases e,
{
    if e.len() == 0 {
        0
    } else {
        rule_count(e.drop_last(), rule) + own_count(e.last(), rule) + proofs_count(
            e.last().child_proofs@,
            rule,
        )
    }
}

pub open spec fn proofs_count(s: Seq<TreeExplanation>, rule: Seq<char>) -> nat
    decreases s,
{
    if s.len() == 0 {
        0
    } else {
        proofs_count(s.drop_last(), rule) + rule_count(s.last()@, rule)
    }
}

/// The sum of the counts listed for `rule`.
pub open spec fn count_of(v: Seq<(String, u64)>, rule: Seq<char>) -> nat
    decreases v.len(),
{
    if v.len() == 0 {
        0
    } else {
        count_of(v.drop_last(), rule) + (if v.last().0@ == rule {
            v.last().1 as nat
        } else {
            0
        })
    }
}

/// No rule is listed twice, and every listed count is positive.
pub open spec fn counts_wf(v: Seq<(String, u64)>) -> bool {
    &&& forall|i: int, j: int|
        0 <= i < v.len() && 0 <= j < v.len() && i != j ==> #[trigger] v[i].0@ != #[trigger] v[j].0@
    &&& forall|i: int| 0 <= i < v.len() ==> #[trigger] v[i].1 > 0
}

/// `counts` lists each rule applied in `e` once, with the number of its applications.
pub open spec fn counts_exact(counts: Seq<(String, u64)>, e: Seq<TreeTerm>) -> bool {
    &&& counts_wf(counts)
    &&& forall|i: int| 0 <= i < counts.len() ==> #[trigger] counts[i].1 == rule_count(e, counts[i].0@)
    &&& forall|rule: Seq<char>|
        rule_count(e, rule) > 0 ==> exists|i: int| 0 <= i < counts.len() && #[trigger] counts[i].0@ == rule
}

proof fn lemma_count_of_absent(v: Seq<(String, u64)>, rule: Seq<char>)
    requires
        forall|i: int| 0 <= i < v.len() ==> #[trigger] v[i].0@ != rule,
    ensures
        count_of(v, rule) == 0,
    decreases v.len(),
{
    if v.len() > 0 {
        assert(v.last() == v[v.len() - 1]);
        lemma_count_of_absent(v.drop_last(), rule);
    }
}

proof fn lemma_count_of_at(v: Seq<(String, u64)>, i: int)
    requires
        counts_wf(v),
        0 <= i < v.len(),
    ensures
        count_of(v, v[i].0@) == v[i].1,
    decreases v.len(),
{
    let rule = v[i].0@;
    if i == v.len() - 1 {
        assert forall|j: int| 0 <= j < v.drop_last().len() implies #[trigger] v.drop_last()[j].0@
            != rule by {
            assert(v[j].0@ != v[i].0@);
        }
        lemma_count_of_absent(v.drop_last(), rule);
    } else {
        assert(v.last().0@ != rule);
        lemma_count_of_at(v.drop_last(), i);
    }
}

proof fn lemma_count_of_present(v: Seq<(String, u64)>, rule: Seq<char>)
    requires
        count_of(v, rule) > 0,
    ensures
        exists|i: int| 0 <= i < v.len() && #[trigger] v[i].0@ == rule,
    decreases v.len(),
{
    if v.last().0@ == rule {
        assert(v[v.len() - 1].0@ == rule);
    } else {
        lemma_count_of_present(v.drop_last(), rule);
        let i = choose|i: int| 0 <= i < v.drop_last().len() && #[trigger] v.drop_last()[i].0@ == rule;
        assert(v[i].0@ == rule);
    }
}

proof fn lemma_count_of_prefix(v: Seq<(String, u64)>, m: int, rule: Seq<char>)
    requires
        0 <= m <= v.len(),
    ensures
        count_of(v.take(m), rule) <= count_of(v, rule),
    decreases v.len(),
{
    if m < v.len() {
        assert(v.drop_last().take(m) =~= v.take(m));
        lemma_count_of_prefix(v.drop_last(), m, rule);
    } else {
        assert(v.take(m) =~= v);
    }
}

proof fn lemma_rule_count_prefix(e: Seq<TreeTerm>, m: int, rule: Seq<char>)
    requires
        0 <= m <= e.len(),
    ensures
        rule_count(e.take(m), rule) <= rule_count(e, rule),
    decreases e.len(),
{
    if m < e.len() {
        assert(e.drop_last().take(m) =~= e.take(m));
        lemma_rule_count_prefix(e.drop_last(), m, rule);
    } else {
        assert(e.take(m) =~= e);
    }
}

proof fn lemma_proofs_count_prefix(s: Seq<TreeExplanation>, m: int, rule: Seq<char>)
    requires
        0 <= m <= s.len(),
    ensures
        proofs_count(s.take(m), rule) <= proofs_count(s, rule),
    decreases s.len(),
{
    if m < s.len() {
        assert(s.drop_last().take(m) =~= s.take(m));
        lemma_proofs_count_prefix(s.drop_last(), m, rule);
    } else {
        assert(s.take(m) =~= s);
    }
}

/// Counting the rules of two explanations joined one after the other gives
/// the sum of their counts; an empty explanation counts nothing.
pub proof fn law_rule_count_additive(a: Seq<TreeTerm>, b: Seq<TreeTerm>, rule: Seq<char>)
    ensures
        rule_count(a + b, rule) == rule_count(a, rule) + rule_count(b, rule),
        rule_count(Seq::empty(), rule) == 0,
    decreases b.len(),
{
    if b.len() == 0 {
        assert(a + b =~= a);
    } else {
        law_rule_count_additive(a, b.drop_last(), rule);
        assert((a + b).drop_last() =~= a + b.drop_last());
        assert((a + b).last() == b.last());
    }
}

/// A rule is counted at most once per step of an explanation.
pub proof fn law_rule_count_bounded(e: Seq<TreeTerm>, rule: Seq<char>)
    ensures
        rule_count(e, rule) <= expl_size(e),
    decreases e,
{
    if e.len() > 0 {
        law_rule_count_bounded(e.drop_last(), rule);
        lemma_proofs_count_le_size(e.last().child_proofs@, rule);
    }
}

proof fn lemma_proofs_count_le_size(s: Seq<TreeExplanation>, rule: Seq<char>)
    ensures
        proofs_count(s, rule) <= proofs_size(s),
    decreases s,
{
    if s.len() > 0 {
        lemma_proofs_count_le_size(s.drop_last(), rule);
        law_rule_count_bounded(s.last()@, rule);
    }
}

proof fn lemma_steps_size_at(e: Seq<TreeTerm>, i: int)
    requires
        0 <= i < e.len(),
    ensures
        proofs_size(e[i].child_proofs@) + 1 <= expl_size(e),
    decreases e.len(),
{
    if i < e.len() - 1 {
        lemma_steps_size_at(e.drop_last(), i);
    }
}

proof fn lemma_proofs_size_at(s: Seq<TreeExplanation>, j: int)
    requires
        0 <= j < s.len(),
    ensures
        expl_size(s[j]@) <= proofs_size(s),
    decreases s.len(),
{
    if j < s.len() - 1 {
        lemma_proofs_size_at(s.drop_last(), j);
    }
}

/// Adds `v` to the count listed for `key`.
fn add_count(counts: &mut Vec<(String, u64)>, key: &String, v: u64)
    requires
        counts_wf(old(counts)@),
        v > 0,
        count_of(old(counts)@, key@) + v <= u64::MAX,
    ensures
        counts_wf(final(counts)@),
        forall|rule: Seq<char>|
            #[trigger] count_of(final(counts)@, rule) == count_of(old(counts)@, rule) + (if rule
                == key@ {
                v as nat
            } else {
                0
            }),
{
    let ghost old_v = counts@;
    let mut i: usize = 0;
    let mut found = false;
    while i < counts.len()
        invariant_except_break
            !found,
        invariant
            counts@ == old_v,
            i <= counts@.len(),
            forall|j: int| 0 <= j < i ==> counts@[j].0@ != key@,
        ensures
            counts@ == old_v,
            i <= counts@.len(),
            found ==> i < counts@.len() && counts@[i as int].0@ == key@,
            !found ==> forall|j: int| 0 <= j < counts@.len() ==> counts@[j].0@ != key@,
        decreases counts@.len() - i,
    {
        if counts[i].0 == *key {
            found = true;
            break;
        }
        i = i + 1;
    }
    if found {
        proof {
            lemma_count_of_at(old_v, i as int);
        }
        let n = counts[i].1;
        let k = key.clone();
        let ghost kk = k;
        counts.set(i, (k, n + v));
        proof {
            lemma_count_of_update(old_v, i as int, kk, (n + v) as u64);
        }
        return;
    }
    counts.push((key.clone(), v));
    assert(counts@.drop_last() =~= old_v);
}

proof fn lemma_count_of_update(v: Seq<(String, u64)>, i: int, key: String, n: u64)
    requires
        counts_wf(v),
        0 <= i < v.len(),
        key@ == v[i].0@,
        n >= v[i].1,
    ensures
        counts_wf(v.update(i, (key, n))),
        forall|rule: Seq<char>|
            #[trigger] count_of(v.update(i, (key, n)), rule) == count_of(v, rule) + (if rule
                == v[i].0@ {
                (n - v[i].1) as nat
            } else {
                0
            }),
    decreases v.len(),
{
    let w = v.update(i, (key, n));
    assert forall|rule: Seq<char>| #[trigger]
        count_of(w, rule) == count_of(v, rule) + (if rule == v[i].0@ {
            (n - v[i].1) as nat
        } else {
            0
        }) by {
        lemma_count_of_update_one(v, i, key, n, rule);
    }
}

proof fn lemma_count_of_update_one(
    v: Seq<(String, u64)>,
    i: int,
    key: String,
    n: u64,
    rule: Seq<char>,
)
    requires
        0 <= i < v.len(),
        key@ == v[i].0@,
        n >= v[i].1,
    ensures
        count_of(v.update(i, (key, n)), rule) == count_of(v, rule) + (if rule == v[i].0@ {
            (n - v[i].1) as nat
        } else {
            0
        }),
    decreases v.len(),
{
    let w = v.update(i, (key, n));
    if i == v.len() - 1 {
        assert(w.drop_last() =~= v.drop_last());
    } else {
        assert(w.drop_last() =~= v.drop_last().update(i, (key, n)));
        lemma_count_of_update_one(v.drop_last(), i, key, n, rule);
    }
}

/// How often each rule was applied in an explanation, nested ones included.
pub fn count_rules(term: &TreeExplanation) -> (counts: Vec<(String, u64)>)
    requires
        expl_size(term@) <= u64::MAX,
    ensures
        counts_exact(counts@, term@),
    decreases term@,
{
    let mut counts: Vec<(String, u64)> = Vec::new();
    let mut i: usize = 0;
    while i < term.len()
        invariant
            i <= term@.len(),
            expl_size(term@) <= u64::MAX,
            counts_wf(counts@),
            forall|rule: Seq<char>| #[trigger]
                count_of(counts@, rule) == rule_count(term@.take(i as int), rule),
        decreases term@.len() - i,
    {
        let child = &term[i];
        assert(term@.take(i + 1).drop_last() =~= term@.take(i as int));
        let ghost base = counts@;
        match &child.forward_rule {
            Some(rule) => {
                proof {
                    lemma_rule_count_prefix(term@, i + 1, rule@);
                    law_rule_count_bounded(term@, rule@);
                }
                add_count(&mut counts, rule, 1);
            },
            None => {},
        }
        let proofs = &child.child_proofs;
        let mut j: usize = 0;
        while j < proofs.len()
            invariant
                0 <= i < term@.len(),
                *child == term@[i as int],
                *proofs == child.child_proofs,
                j <= proofs@.len(),
                expl_size(term@) <= u64::MAX,
                counts_wf(counts@),
                forall|rule: Seq<char>| #[trigger]
                    count_of(counts@, rule) == rule_count(term@.take(i as int), rule) + own_count(
                        *child,
                        rule,
                    ) + proofs_count(proofs@.take(j as int), rule),
            decreases proofs@.len() - j,
        {
            assert(proofs@.take(j + 1).drop_last() =~= proofs@.take(j as int));
            proof {
                lemma_steps_size_at(term@, i as int);
                lemma_proofs_size_at(proofs@, j as int);
            }
            assert(decreases_to!(term@ => term@[i as int]));
            assert(decreases_to!(term@[i as int] => term@[i as int].child_proofs));
            assert(decreases_to!(term@[i as int].child_proofs => term@[i as int].child_proofs@));
            assert(decreases_to!(term@[i as int].child_proofs@ => term@[i as int].child_proofs@[j as int]));
            assert(decreases_to!(term@[i as int].child_proofs@[j as int] => term@[i as int].child_proofs@[j as int]@));
            let child_count = count_rules(&proofs[j]);
            let ghost before = counts@;
            let mut m: usize = 0;
            while m < child_count.len()
                invariant
                    0 <= i < term@.len(),
                    *child == term@[i as int],
                    *proofs == child.child_proofs,
                    j < proofs@.len(),
                    m <= child_count@.len(),
                    counts_exact(child_count@, proofs@[j as int]@),
                    expl_size(term@) <= u64::MAX,
                    counts_wf(counts@),
                    forall|rule: Seq<char>| #[trigger]
                        count_of(counts@, rule) == count_of(before, rule) + count_of(
                            child_count@.take(m as int),
                            rule,
                        ),
                    forall|rule: Seq<char>| #[trigger]
                        count_of(before, rule) == rule_count(term@.take(i as int), rule)
                            + own_count(*child, rule) + proofs_count(proofs@.take(j as int), rule),
                decreases child_count@.len() - m,
            {
                let entry = &child_count[m];
                assert(child_count@.take(m + 1).drop_last() =~= child_count@.take(m as int));
                proof {
                    let rule = entry.0@;
                    lemma_count_of_prefix(child_count@, m + 1, rule);
                    lemma_count_of_at(child_count@, m as int);
                    assert(child_count@[m as int] == *entry);
                    assert(proofs@.take(j + 1).drop_last() =~= proofs@.take(j as int));
                    lemma_proofs_count_prefix(proofs@, j + 1, rule);
                    assert(term@.take(i + 1).drop_last() =~= term@.take(i as int));
                    lemma_rule_count_prefix(term@, i + 1, rule);
                    law_rule_count_bounded(term@, rule);
                }
                add_count(&mut counts, &entry.0, entry.1);
                m = m + 1;
            }
            assert(child_count@.take(child_count@.len() as int) =~= child_count@);
            assert forall|rule: Seq<char>| #[trigger]
                count_of(child_count@, rule) == rule_count(proofs@[j as int]@, rule) by {
                if count_of(child_count@, rule) > 0 {
                    lemma_count_of_present(child_count@, rule);
                    let k = choose|k: int| 0 <= k < child_count@.len() && #[trigger] child_count@[k].0@ == rule;
                    lemma_count_of_at(child_count@, k);
                } else if rule_count(proofs@[j as int]@, rule) > 0 {
                    let k = choose|k: int| 0 <= k < child_count@.len() && #[trigger] child_count@[k].0@ == rule;
                    lemma_count_of_at(child_count@, k);
                }
            }
            j = j + 1;
        }
        assert(proofs@.take(proofs@.len() as int) =~= proofs@);
        i = i + 1;
    }
    assert(term@.take(term@.len() as int) =~= term@);
    proof {
        assert forall|k: int| 0 <= k < counts@.len() implies #[trigger] counts@[k].1 == rule_count(
            term@,
            counts@[k].0@,
        ) by {
            lemma_count_of_at(counts@, k);
        }
        assert forall|rule: Seq<char>| rule_count(term@, rule) > 0 implies exists|k: int|
            0 <= k < counts@.len() && #[trigger] counts@[k].0@ == rule by {
            lemma_count_of_present(counts@, rule);
        }
    }
    counts
}

// ---------------------------------------------------------------------------
// Chains of rules
// ---------------------------------------------------------------------------

/// The rules applied along an explanation, with the chains of its children.
#[derive(Debug)]
pub struct RuleChain {
    pub chain: Vec<String>,
    pub child_chains: Vec<Option<RuleChain>>,
}

/// The abstract value of a `RuleChain`.
pub struct ChainView {
    pub chain: Seq<Seq<char>>,
    pub children: Seq<Option<ChainView>>,
}

pub open spec fn chain_view(c: RuleChain) -> ChainView
    decreases c,
{
    ChainView { chain: names(c.chain@), children: opt_chains_view(c.child_chains@) }
}

pub open spec fn opt_chain_view(c: Option<RuleChain>) -> Option<ChainView>
    decreases c,
{
    match c {
        Some(x) => Some(chain_view(x)),
        None => None,
    }
}

pub open spec fn opt_chains_view(s: Seq<Option<RuleChain>>) -> Seq<Option<ChainView>>
    decreases s,
{
    if s.len() == 0 {
        Seq::empty()
    } else {
        opt_chains_view(s.drop_last()).push(opt_chain_view(s.last()))
    }
}

/// What a walk over explanations reports, in the order it finds it.
pub enum ChainReport {
    /// A chain through a term that no rule rewrote itself, whose children
    /// nevertheless hold chains of length above one; with the term before
    /// and after.
    Unattributed { chain: RuleChain, initial: String, last: String },
    /// A chain of length above one through a term that changed.
    Found(RuleChain),
}

/// The abstract value of a `ChainReport`.
pub enum Report {
    Unattributed { chain: ChainView, initial: Seq<char>, last: Seq<char> },
    Found(ChainView),
}

pub open spec fn report_view(r: ChainReport) -> Report {
    match r {
        ChainReport::Unattributed { chain, initial, last } => Report::Unattributed {
            chain: chain_view(chain),
            initial: initial@,
            last: last@,
        },
        ChainReport::Found(c) => Report::Found(chain_view(c)),
    }
}

pub open spec fn reports_view(s: Seq<ChainReport>) -> Seq<Report> {
    s.map_values(|r: ChainReport| report_view(r))
}

/// The result of walking an explanation: its chain (none when no step of it
/// after the first applied a rule), the length of its longest chain, and what
/// was reported.
pub struct Walk {
    pub chain: Option<ChainView>,
    pub counter: nat,
    pub reports: Seq<Report>,
}

/// What a walk gathers over several steps or child explanations.
pub struct Gathered {
    pub rules: Seq<Seq<char>>,
    pub children: Seq<Option<ChainView>>,
    pub counters: Seq<nat>,
    pub reports: Seq<Report>,
}

/// The largest element of `s`, 0 when empty.
pub open spec fn seq_max(s: Seq<nat>) -> nat
    decreases s.len(),
{
    if s.len() == 0 {
        0
    } else if seq_max(s.drop_last()) >= s.last() {
        seq_max(s.drop_last())
    } else {
        s.last()
    }
}

/// Walks the child explanations that have more than one step.
pub open spec fn proofs_walk(s: Seq<TreeExplanation>) -> Gathered
    decreases s, 0int,
{
    if s.len() == 0 {
        Gathered {
            rules: Seq::empty(),
            children: Seq::empty(),
            counters: Seq::empty(),
            reports: Seq::empty(),
        }
    } else {
        let p = proofs_walk(s.drop_last());
        if s.last()@.len() > 1 {
            let w = rule_walk(s.last()@);
            Gathered {
                rules: p.rules,
                children: p.children.push(w.chain),
                counters: p.counters.push(w.counter),
                reports: p.reports + w.reports,
            }
        } else {
            p
        }
    }
}

/// Walks the steps: their forward rules, then their children.
pub open spec fn steps_walk(s: Seq<TreeTerm>) -> Gathered
    decreases s, 0int,
{
    if s.len() == 0 {
        Gathered {
            rules: Seq::empty(),
            children: Seq::empty(),
            counters: Seq::empty(),
            reports: Seq::empty(),
        }
    } else {
        let p = steps_walk(s.drop_last());
        let rules = match s.last().forward_rule {
            Some(r) => p.rules.push(r@),
            None => p.rules,
        };
        let q = proofs_walk(s.last().child_proofs@);
        Gathered {
            rules,
            children: p.children + q.children,
            counters: p.counters + q.counters,
            reports: p.reports + q.reports,
        }
    }
}

/// The steps of `e` after its first: the first is the starting term, which no
/// rule led to.
pub open spec fn later_steps(e: Seq<TreeTerm>) -> Seq<TreeTerm> {
    if e.len() == 0 {
        e
    } else {
        e.drop_first()
    }
}

/// The walk over an explanation: its steps after the first.
pub open spec fn rule_walk(e: Seq<TreeTerm>) -> Walk
    decreases e, 1int,
{
    let g = steps_walk(later_steps(e));
    let m = seq_max(g.counters);
    let chain = ChainView { chain: g.rules, children: g.children };
    if g.rules.len() == 0 {
        Walk {
            chain: None,
            counter: 0,
            reports: if m > 1 {
                g.reports.push(
                    Report::Unattributed {
                        chain,
                        initial: initial_string(e),
                        last: final_string(e),
                    },
                )
            } else {
                g.reports
            },
        }
    } else {
        Walk { chain: Some(chain), counter: m + 1, reports: g.reports }
    }
}

proof fn lemma_seq_max_bound(s: Seq<nat>, b: nat)
    requires
        forall|i: int| 0 <= i < s.len() ==> #[trigger] s[i] <= b,
    ensures
        seq_max(s) <= b,
    decreases s.len(),
{
    if s.len() > 0 {
        assert(s.last() == s[s.len() - 1]);
        lemma_seq_max_bound(s.drop_last(), b);
    }
}

/// The longest chain of an explanation is no longer than the explanation
/// has steps, nested ones included.
pub proof fn law_chain_length_bounded(e: Seq<TreeTerm>)
    ensures
        rule_walk(e).counter <= expl_size(e),
    decreases e, 1int,
{
    let rest = later_steps(e);
    lemma_steps_counters(rest);
    lemma_later_steps_size(e);
    let g = steps_walk(rest);
    if g.rules.len() > 0 {
        assert(rest.len() > 0);
        lemma_seq_max_bound(g.counters, (expl_size(rest) - 1) as nat);
    }
}

/// Leaving out the first step leaves out its size.
proof fn lemma_later_steps_size(e: Seq<TreeTerm>)
    ensures
        e.len() > 0 ==> expl_size(later_steps(e)) + 1 + proofs_size(e[0].child_proofs@)
            == expl_size(e),
        expl_size(later_steps(e)) <= expl_size(e),
    decreases e.len(),
{
    if e.len() > 1 {
        lemma_later_steps_size(e.drop_last());
        assert(e.drop_last().drop_first() =~= e.drop_first().drop_last());
        assert(e.drop_first().last() == e.last());
        assert(e.drop_last()[0] == e[0]);
    } else if e.len() == 1 {
        assert(e.drop_first() =~= Seq::<TreeTerm>::empty());
        assert(e.drop_last() =~= Seq::<TreeTerm>::empty());
    }
}

proof fn lemma_steps_counters(e: Seq<TreeTerm>)
    ensures
        forall|i: int|
            0 <= i < steps_walk(e).counters.len() ==> #[trigger] steps_walk(e).counters[i] + 1
                <= expl_size(e),
    decreases e, 0int,
{
    if e.len() > 0 {
        lemma_steps_counters(e.drop_last());
        lemma_proofs_counters(e.last().child_proofs@);
        let p = steps_walk(e.drop_last());
        let q = proofs_walk(e.last().child_proofs@);
        assert forall|i: int| 0 <= i < steps_walk(e).counters.len() implies #[trigger] steps_walk(
            e,
        ).counters[i] + 1 <= expl_size(e) by {
            if i >= p.counters.len() {
                assert(steps_walk(e).counters[i] == q.counters[i - p.counters.len()]);
            } else {
                assert(steps_walk(e).counters[i] == p.counters[i]);
            }
        }
    }
}

proof fn lemma_proofs_counters(s: Seq<TreeExplanation>)
    ensures
        forall|i: int|
            0 <= i < proofs_walk(s).counters.len() ==> #[trigger] proofs_walk(s).counters[i]
                <= proofs_size(s),
    decreases s,
{
    if s.len() > 0 {
        lemma_proofs_counters(s.drop_last());
        let p = proofs_walk(s.drop_last());
        if s.last()@.len() > 1 {
            law_chain_length_bounded(s.last()@);
            assert forall|i: int| 0 <= i < proofs_walk(s).counters.len() implies #[trigger] proofs_walk(
                s,
            ).counters[i] <= proofs_size(s) by {
                if i < p.counters.len() {
                    assert(proofs_walk(s).counters[i] == p.counters[i]);
                }
            }
        }
    }
}

/// The largest element of a sequence bounds every element, and is one of
/// them when there are any.
pub proof fn law_seq_max_is_largest(s: Seq<nat>)
    ensures
        forall|i: int| 0 <= i < s.len() ==> #[trigger] s[i] <= seq_max(s),
        s.len() > 0 ==> exists|i: int| 0 <= i < s.len() && s[i] == seq_max(s),
    decreases s.len(),
{
    if s.len() > 0 {
        law_seq_max_is_largest(s.drop_last());
        assert forall|i: int| 0 <= i < s.len() implies #[trigger] s[i] <= seq_max(s) by {
            if i < s.len() - 1 {
                assert(s[i] == s.drop_last()[i]);
            }
        }
        if s.len() > 1 && seq_max(s.drop_last()) >= s.last() {
            let i = choose|i: int|
                0 <= i < s.drop_last().len() && s.drop_last()[i] == seq_max(s.drop_last());
            assert(s[i] == seq_max(s));
        } else {
            assert(s[s.len() - 1] == seq_max(s));
        }
    }
}

/// `c` is the chain length of a child explanation walked in `s`.
pub open spec fn child_counter(s: Seq<TreeTerm>, c: nat) -> bool {
    exists|k: int, j: int|
        walked_child(s, k, j) && c == rule_walk(s[k].child_proofs@[j]@).counter
}

/// The child explanation `j` of step `k` of `e` is walked: it has more than
/// one step.
pub open spec fn walked_child(e: Seq<TreeTerm>, k: int, j: int) -> bool {
    &&& 0 <= k < e.len()
    &&& 0 <= j < e[k].child_proofs@.len()
    &&& e[k].child_proofs@[j]@.len() > 1
}

proof fn lemma_proofs_counters_from_children(ps: Seq<TreeExplanation>)
    ensures
        forall|j: int|
            0 <= j < ps.len() && ps[j]@.len() > 1 ==> proofs_walk(ps).counters.contains(
                #[trigger] rule_walk(ps[j]@).counter,
            ),
        forall|i: int|
            #![trigger proofs_walk(ps).counters[i]]
            0 <= i < proofs_walk(ps).counters.len() ==> exists|j: int|
                #![trigger ps[j]]
                0 <= j < ps.len() && ps[j]@.len() > 1 && proofs_walk(ps).counters[i]
                    == rule_walk(ps[j]@).counter,
    decreases ps.len(),
{
    if ps.len() > 0 {
        let init = ps.drop_last();
        lemma_proofs_counters_from_children(init);
        let p = proofs_walk(init);
        let q = proofs_walk(ps);
        assert forall|j: int|
            0 <= j < ps.len() && ps[j]@.len() > 1 implies q.counters.contains(
            #[trigger] rule_walk(ps[j]@).counter,
        ) by {
            if j < ps.len() - 1 {
                assert(init[j] == ps[j]);
                let i = choose|i: int|
                    0 <= i < p.counters.len() && p.counters[i] == rule_walk(init[j]@).counter;
                assert(q.counters[i] == p.counters[i]);
            } else {
                assert(q.counters[p.counters.len() as int] == rule_walk(ps[j]@).counter);
            }
        }
        assert forall|i: int|
            #![trigger q.counters[i]]
            0 <= i < q.counters.len() implies exists|j: int|
                #![trigger ps[j]]
                0 <= j < ps.len() && ps[j]@.len() > 1 && q.counters[i] == rule_walk(
                    ps[j]@,
                ).counter by {
            if i < p.counters.len() {
                assert(q.counters[i] == p.counters[i]);
                let j = choose|j: int|
                    0 <= j < init.len() && init[j]@.len() > 1 && p.counters[i] == rule_walk(
                        init[j]@,
                    ).counter;
                assert(init[j] == ps[j]);
            } else {
                assert(q.counters[i] == rule_walk(ps.last()@).counter);
                assert(ps.last() == ps[ps.len() - 1]);
            }
        }
    }
}

proof fn lemma_steps_counters_from_children(s: Seq<TreeTerm>)
    ensures
        forall|k: int, j: int|
            walked_child(s, k, j) ==> steps_walk(s).counters.contains(
                #[trigger] rule_walk(s[k].child_proofs@[j]@).counter,
            ),
        forall|i: int|
            0 <= i < steps_walk(s).counters.len() ==> child_counter(
                s,
                #[trigger] steps_walk(s).counters[i],
            ),
    decreases s.len(),
{
    if s.len() > 0 {
        let init = s.drop_last();
        lemma_steps_counters_from_children(init);
        let ps = s.last().child_proofs@;
        lemma_proofs_counters_from_children(ps);
        let p = steps_walk(init);
        let q = proofs_walk(ps);
        let g = steps_walk(s);
        assert(g.counters == p.counters + q.counters);
        assert forall|k: int, j: int| walked_child(s, k, j) implies g.counters.contains(
            #[trigger] rule_walk(s[k].child_proofs@[j]@).counter,
        ) by {
            if k < s.len() - 1 {
                assert(init[k] == s[k]);
                assert(walked_child(init, k, j));
                let i = choose|i: int|
                    0 <= i < p.counters.len() && p.counters[i] == rule_walk(
                        init[k].child_proofs@[j]@,
                    ).counter;
                assert(g.counters[i] == p.counters[i]);
            } else {
                assert(s[k] == s.last());
                assert(ps[j]@.len() > 1);
                assert(q.counters.contains(rule_walk(ps[j]@).counter));
                let i = choose|i: int|
                    0 <= i < q.counters.len() && q.counters[i] == rule_walk(ps[j]@).counter;
                assert(g.counters[p.counters.len() + i] == q.counters[i]);
            }
        }
        assert forall|i: int| 0 <= i < g.counters.len() implies child_counter(
            s,
            #[trigger] g.counters[i],
        ) by {
            if i < p.counters.len() {
                assert(g.counters[i] == p.counters[i]);
                assert(child_counter(init, p.counters[i]));
                let (k, j) = choose|k: int, j: int|
                    walked_child(init, k, j) && p.counters[i] == rule_walk(
                        init[k].child_proofs@[j]@,
                    ).counter;
                assert(init[k] == s[k]);
                assert(walked_child(s, k, j));
                assert(g.counters[i] == rule_walk(s[k].child_proofs@[j]@).counter);
            } else {
                let i2 = i - p.counters.len();
                assert(g.counters[i] == q.counters[i2]);
                let j = choose|j: int|
                    0 <= j < ps.len() && ps[j]@.len() > 1 && q.counters[i2] == rule_walk(
                        ps[j]@,
                    ).counter;
                let k = s.len() - 1;
                assert(s[k] == s.last());
                assert(walked_child(s, k, j));
                assert(g.counters[i] == rule_walk(s[k].child_proofs@[j]@).counter);
            }
        }
    } else {
        assert(steps_walk(s).counters.len() == 0);
    }
}

/// The length of an explanation's chain is one more than the longest chain of
/// the child explanations it walks (those of its steps after the first that
/// have more than one step): at least each of theirs plus one, and equal to
/// one of theirs plus one, or to one when there is none.
pub proof fn law_chain_length_is_one_above_children(e: Seq<TreeTerm>)
    requires
        rule_walk(e).chain is Some,
    ensures
        forall|k: int, j: int|
            1 <= k && walked_child(e, k, j) ==> rule_walk(e).counter >= #[trigger] rule_walk(
                e[k].child_proofs@[j]@,
            ).counter + 1,
        rule_walk(e).counter == 1 || exists|k: int, j: int|
            #![trigger walked_child(e, k, j)]
            1 <= k && walked_child(e, k, j) && rule_walk(e).counter == rule_walk(
                e[k].child_proofs@[j]@,
            ).counter + 1,
{
    let rest = later_steps(e);
    let g = steps_walk(rest);
    assert(rest.len() > 0);
    assert(rest == e.drop_first());
    lemma_steps_counters_from_children(rest);
    law_seq_max_is_largest(g.counters);
    assert forall|k: int, j: int| 1 <= k && walked_child(e, k, j) implies rule_walk(e).counter
        >= #[trigger] rule_walk(e[k].child_proofs@[j]@).counter + 1 by {
        assert(rest[k - 1] == e[k]);
        assert(walked_child(rest, k - 1, j));
        assert(g.counters.contains(rule_walk(rest[k - 1].child_proofs@[j]@).counter));
    }
    if g.counters.len() > 0 {
        let i = choose|i: int| 0 <= i < g.counters.len() && g.counters[i] == seq_max(g.counters);
        let (k, j) = choose|k: int, j: int|
            walked_child(rest, k, j) && g.counters[i] == rule_walk(rest[k].child_proofs@[j]@).counter;
        assert(rest[k] == e[k + 1]);
        assert(walked_child(e, k + 1, j));
    } else {
        assert(seq_max(g.counters) == 0);
    }
}

/// The walk of an explanation yields a chain exactly when it counts a
/// positive length (that is, when some step after the first applied a rule
/// forwards).
pub proof fn law_chain_iff_positive_length(e: Seq<TreeTerm>)
    ensures
        rule_walk(e).chain is Some <==> rule_walk(e).counter > 0,
{
}

proof fn lemma_opt_chains_push(s: Seq<Option<RuleChain>>, c: Option<RuleChain>)
    ensures
        opt_chains_view(s.push(c)) == opt_chains_view(s).push(opt_chain_view(c)),
{
    assert(s.push(c).drop_last() =~= s);
}

fn max_counter(counters: &Vec<u64>) -> (m: u64)
    ensures
        m == seq_max(counters@.map_values(|c: u64| c as nat)),
{
    let ghost view = counters@.map_values(|c: u64| c as nat);
    let mut m: u64 = 0;
    let mut i: usize = 0;
    while i < counters.len()
        invariant
            i <= counters@.len(),
            view == counters@.map_values(|c: u64| c as nat),
            m == seq_max(view.take(i as int)),
        decreases counters@.len() - i,
    {
        assert(view.take(i + 1).drop_last() =~= view.take(i as int));
        if counters[i] > m {
            m = counters[i];
        }
        i = i + 1;
    }
    assert(view.take(counters@.len() as int) =~= view);
    m
}

/// Gathers the chains of an explanation, reporting into `reports` the chains
/// through terms that no rule rewrote but whose children hold long chains.
/// Returns the explanation's chain (none when no step after the first
/// applied a rule) and the length of its longest chain.
pub fn term_to_rule_chains(
    term: &TreeExplanation,
    depth: u64,
    reports: &mut Vec<ChainReport>,
) -> (r: (Option<RuleChain>, u64))
    requires
        expl_wf(term@),
        depth + expl_size(term@) <= u64::MAX,
    ensures
        opt_chain_view(r.0) == rule_walk(term@).chain,
        r.1 == rule_walk(term@).counter,
        reports_view(final(reports)@) == reports_view(old(reports)@) + rule_walk(term@).reports,
    decreases term@,
{
    let mut chain = RuleChain { chain: Vec::new(), child_chains: Vec::new() };
    let mut has_rule: u64 = 0;
    let mut child_counters: Vec<u64> = Vec::new();
    let ghost start = reports@;
    assert(names(chain.chain@) =~= Seq::<Seq<char>>::empty());
    assert(opt_chains_view(chain.child_chains@) =~= Seq::<Option<ChainView>>::empty());
    assert(child_counters@.map_values(|c: u64| c as nat) =~= Seq::<nat>::empty());
    assert(reports_view(reports@) =~= reports_view(start) + Seq::<Report>::empty());

    let ghost rest = later_steps(term@);
    assert(rest.take(0) =~= Seq::<TreeTerm>::empty());
    let mut i: usize = 1;
    while i < term.len()
        invariant
            1 <= i <= term@.len(),
            rest == term@.drop_first(),
            expl_wf(term@),
            depth + expl_size(term@) <= u64::MAX,
            ({
                let g = steps_walk(rest.take(i - 1));
                &&& names(chain.chain@) == g.rules
                &&& opt_chains_view(chain.child_chains@) == g.children
                &&& child_counters@.map_values(|c: u64| c as nat) == g.counters
                &&& reports_view(reports@) == reports_view(start) + g.reports
            }),
            has_rule == (if names(chain.chain@).len() > 0 {
                1u64
            } else {
                0u64
            }),
        decreases term@.len() - i,
    {
        let child = &term[i];
        assert(rest.take(i as int).drop_last() =~= rest.take(i - 1));
        assert(rest[i - 1] == term@[i as int]);
        proof {
            lemma_steps_wf_at(term@, i as int);
            lemma_steps_size_at(term@, i as int);
        }
        match &child.forward_rule {
            Some(rule) => {
                let ghost before = chain.chain@;
                chain.chain.push(rule.clone());
                assert(names(chain.chain@) =~= names(before).push(rule@));
                has_rule = 1;
            },
            None => {},
        }
        let ghost g_i = steps_walk(rest.take(i - 1));
        let ghost rules_i = names(chain.chain@);
        let proofs = &child.child_proofs;
        let mut j: usize = 0;
        assert(proofs@.take(0) =~= Seq::<TreeExplanation>::empty());
        assert(g_i.children + Seq::<Option<ChainView>>::empty() =~= g_i.children);
        assert(g_i.counters + Seq::<nat>::empty() =~= g_i.counters);
        assert(g_i.reports + Seq::<Report>::empty() =~= g_i.reports);
        while j < proofs.len()
            invariant
                0 <= i < term@.len(),
                *child == term@[i as int],
                *proofs == child.child_proofs,
                j <= proofs@.len(),
                proofs_wf(proofs@),
                depth + 1 + proofs_size(proofs@) <= u64::MAX,
                g_i == steps_walk(rest.take(i - 1)),
                rest == term@.drop_first(),
                rest[i - 1] == term@[i as int],
                names(chain.chain@) == rules_i,
                has_rule == (if rules_i.len() > 0 {
                    1u64
                } else {
                    0u64
                }),
                ({
                    let q = proofs_walk(proofs@.take(j as int));
                    &&& opt_chains_view(chain.child_chains@) == g_i.children + q.children
                    &&& child_counters@.map_values(|c: u64| c as nat) == g_i.counters + q.counters
                    &&& reports_view(reports@) == reports_view(start) + g_i.reports + q.reports
                }),
            decreases proofs@.len() - j,
        {
            assert(proofs@.take(j + 1).drop_last() =~= proofs@.take(j as int));
            let c = &proofs[j];
            if c.len() > 1 {
                proof {
                    lemma_proofs_wf_at(proofs@, j as int);
                    lemma_proofs_size_at(proofs@, j as int);
                }
                assert(decreases_to!(term@ => term@[i as int]));
                assert(decreases_to!(term@[i as int] => term@[i as int].child_proofs));
                assert(decreases_to!(term@[i as int].child_proofs => term@[i as int].child_proofs@));
                assert(decreases_to!(term@[i as int].child_proofs@ => term@[i as int].child_proofs@[j as int]));
                assert(decreases_to!(term@[i as int].child_proofs@[j as int] => term@[i as int].child_proofs@[j as int]@));
                let ghost reports_before = reports@;
                let (child_expr, chain_indicator) = term_to_rule_chains(c, depth + 1, reports);
                let ghost counters_before = child_counters@;
                let ghost chains_before = chain.child_chains@;
                child_counters.push(chain_indicator);
                chain.child_chains.push(child_expr);
                proof {
                    lemma_opt_chains_push(chains_before, child_expr);
                    assert(child_counters@.map_values(|c: u64| c as nat) =~= counters_before.map_values(
                        |c: u64| c as nat,
                    ).push(chain_indicator as nat));
                    let q = proofs_walk(proofs@.take(j as int));
                    let q2 = proofs_walk(proofs@.take(j + 1));
                    assert(q2.children == q.children.push(rule_walk(c@).chain));
                    assert(g_i.children + q2.children =~= (g_i.children + q.children).push(
                        rule_walk(c@).chain,
                    ));
                    assert(g_i.counters + q2.counters =~= (g_i.counters + q.counters).push(
                        rule_walk(c@).counter,
                    ));
                    assert(reports_view(start) + g_i.reports + q2.reports =~= reports_view(start)
                        + g_i.reports + q.reports + rule_walk(c@).reports);
                }
            }
            j = j + 1;
        }
        assert(proofs@.take(proofs@.len() as int) =~= proofs@);
        proof {
            let g2 = steps_walk(rest.take(i as int));
            let q = proofs_walk(proofs@);
            assert(g2.children =~= g_i.children + q.children);
            assert(g2.counters =~= g_i.counters + q.counters);
            assert(g2.reports =~= g_i.reports + q.reports);
            assert(reports_view(start) + g_i.reports + q.reports =~= reports_view(start) + g2.reports);
        }
        i = i + 1;
    }
    assert(rest.take(term@.len() - 1) =~= rest);
    let mut chain_indicator = max_counter(&child_counters);
    if has_rule == 0 {
        if chain_indicator > 1 {
            let initial = term_to_initial_string(term);
            let last = term_to_string(term);
            let ghost before = reports@;
            let report = ChainReport::Unattributed { chain, initial, last };
            reports.push(report);
            assert(reports_view(reports@) =~= reports_view(before).push(report_view(report)));
        }
        return (None, 0);
    } else {
        proof {
            law_chain_length_bounded(term@);
        }
        chain_indicator = chain_indicator + has_rule;
        return (Some(chain), chain_indicator);
    }
}

// ---------------------------------------------------------------------------
// Extracting chains from a whole explanation
// ---------------------------------------------------------------------------

/// The columns of child explanations that the root's steps line up: for each
/// child position `k`, the indices of the successive steps whose `k`-th child
/// explanations follow one another.  A step without children ends the
/// columns; the next step starts them afresh.
pub open spec fn columns(steps: Seq<TreeTerm>) -> Seq<Seq<int>>
    decreases steps.len(),
{
    if steps.len() == 0 {
        Seq::empty()
    } else {
        let prev = columns(steps.drop_last());
        let i = steps.len() - 1;
        let n = steps.last().child_proofs@.len();
        if prev.len() == 0 {
            Seq::new(n, |k: int| seq![i])
        } else {
            let m = if prev.len() <= n {
                prev.len()
            } else {
                n
            };
            Seq::new(m, |k: int| prev[k].push(i))
        }
    }
}

/// The child explanations at position `k` of the steps `col` of `root`.
pub open spec fn column_expls(root: Seq<TreeTerm>, col: Seq<int>, k: int) -> Seq<Seq<TreeTerm>> {
    col.map_values(|s: int| root[s].child_proofs@[k]@)
}

/// Every text of `s` is its first.
pub open spec fn all_same(s: Seq<Seq<char>>) -> bool {
    forall|i: int| 0 <= i < s.len() ==> #[trigger] s[i] == s[0]
}

/// What one column contributes: nothing when its terms never change;
/// otherwise what the walk of its last explanation reports, followed by that
/// explanation's chain when it is longer than one.
pub open spec fn column_reports(root: Seq<TreeTerm>, col: Seq<int>, k: int) -> Seq<Report> {
    let xs = column_expls(root, col, k);
    if all_same(xs.map_values(|x: Seq<TreeTerm>| final_string(x))) {
        Seq::empty()
    } else {
        let w = rule_walk(xs.last());
        if w.counter > 1 {
            w.reports.push(Report::Found(w.chain.unwrap()))
        } else {
            w.reports
        }
    }
}

/// The reports of the columns `0..n` of `root`, in order.
pub open spec fn columns_reports(root: Seq<TreeTerm>, cols: Seq<Seq<int>>, n: int) -> Seq<Report>
    decreases n,
{
    if n <= 0 {
        Seq::empty()
    } else {
        columns_reports(root, cols, n - 1) + column_reports(root, cols[n - 1], n - 1)
    }
}

/// What the extraction of rule chains from an explanation reports.
pub open spec fn extract_reports(root: Seq<TreeTerm>) -> Seq<Report> {
    if root.len() < 2 {
        Seq::empty()
    } else {
        columns_reports(root, columns(root), columns(root).len() as int)
    }
}

/// Each column is non-empty and names steps that have a child at its position.
pub open spec fn columns_wf(cols: Seq<Seq<int>>, steps: Seq<TreeTerm>) -> bool {
    forall|k: int|
        0 <= k < cols.len() ==> {
            &&& #[trigger] cols[k].len() > 0
            &&& forall|m: int|
                0 <= m < cols[k].len() ==> 0 <= #[trigger] cols[k][m] < steps.len() && k
                    < steps[cols[k][m]].child_proofs@.len()
        }
}

proof fn lemma_columns_wf(steps: Seq<TreeTerm>)
    ensures
        columns_wf(columns(steps), steps),
    decreases steps.len(),
{
    if steps.len() > 0 {
        let prev = columns(steps.drop_last());
        lemma_columns_wf(steps.drop_last());
        let cols = columns(steps);
        assert forall|k: int| 0 <= k < cols.len() implies {
            &&& #[trigger] cols[k].len() > 0
            &&& forall|m: int|
                0 <= m < cols[k].len() ==> 0 <= #[trigger] cols[k][m] < steps.len() && k
                    < steps[cols[k][m]].child_proofs@.len()
        } by {
            if prev.len() > 0 {
                assert(cols[k] == prev[k].push(steps.len() - 1));
                assert forall|m: int| 0 <= m < cols[k].len() implies 0 <= #[trigger] cols[k][m]
                    < steps.len() && k < steps[cols[k][m]].child_proofs@.len() by {
                    if m < prev[k].len() {
                        assert(cols[k][m] == prev[k][m]);
                        assert(steps.drop_last()[prev[k][m]] == steps[prev[k][m]]);
                    }
                }
            }
        }
    }
}

pub open spec fn cols_view(v: Seq<Vec<usize>>) -> Seq<Seq<int>> {
    v.map_values(|c: Vec<usize>| c@.map_values(|s: usize| s as int))
}

fn first_column(i: usize, n: usize) -> (r: Vec<Vec<usize>>)
    ensures
        cols_view(r@) == Seq::new(n as nat, |k: int| seq![i as int]),
{
    let mut r: Vec<Vec<usize>> = Vec::new();
    let mut k: usize = 0;
    while k < n
        invariant
            k <= n,
            cols_view(r@) == Seq::new(k as nat, |k: int| seq![i as int]),
        decreases n - k,
    {
        let mut c: Vec<usize> = Vec::new();
        c.push(i);
        assert(c@.map_values(|s: usize| s as int) =~= seq![i as int]);
        let ghost old_r = r@;
        r.push(c);
        assert(cols_view(r@) =~= cols_view(old_r).push(seq![i as int]));
        assert(cols_view(r@) =~= Seq::new((k + 1) as nat, |k: int| seq![i as int]));
        k = k + 1;
    }
    r
}

fn extend_columns(prev: &Vec<Vec<usize>>, i: usize, n: usize) -> (r: Vec<Vec<usize>>)
    ensures
        cols_view(r@) == Seq::new(
            if prev@.len() <= n {
                prev@.len() as nat
            } else {
                n as nat
            },
            |k: int| cols_view(prev@)[k].push(i as int),
        ),
{
    let m = if prev.len() <= n {
        prev.len()
    } else {
        n
    };
    let ghost pv = cols_view(prev@);
    let mut temp: Vec<Vec<usize>> = Vec::new();
    let mut k: usize = 0;
    while k < m
        invariant
            k <= m,
            m <= prev@.len(),
            pv == cols_view(prev@),
            cols_view(temp@) == Seq::new(k as nat, |k: int| pv[k].push(i as int)),
        decreases m - k,
    {
        let x = &prev[k];
        let mut new_chain: Vec<usize> = Vec::new();
        let mut t: usize = 0;
        while t < x.len()
            invariant
                t <= x@.len(),
                new_chain@ == x@.take(t as int),
            decreases x@.len() - t,
        {
            new_chain.push(x[t]);
            assert(new_chain@ =~= x@.take(t + 1));
            t = t + 1;
        }
        new_chain.push(i);
        assert(new_chain@.map_values(|s: usize| s as int) =~= pv[k as int].push(i as int)) by {
            assert(x@.take(x@.len() as int) =~= x@);
        }
        let ghost old_t = temp@;
        let ghost nv = new_chain@.map_values(|s: usize| s as int);
        temp.push(new_chain);
        assert(cols_view(temp@) =~= cols_view(old_t).push(nv));
        assert(cols_view(temp@) =~= Seq::new((k + 1) as nat, |k: int| pv[k].push(i as int)));
        k = k + 1;
    }
    temp
}

/// Whether every string of `v` equals the first.
fn all_equal(v: &Vec<String>) -> (r: bool)
    requires
        v@.len() > 0,
    ensures
        r == all_same(names(v@)),
{
    let mut i: usize = 0;
    while i < v.len()
        invariant
            0 < v@.len(),
            i <= v@.len(),
            forall|j: int| 0 <= j < i ==> #[trigger] v@[j]@ == v@[0]@,
        decreases v@.len() - i,
    {
        if v[i] != v[0] {
            assert(names(v@)[i as int] != names(v@)[0]);
            return false;
        }
        i = i + 1;
    }
    assert forall|j: int| 0 <= j < names(v@).len() implies #[trigger] names(v@)[j] == names(v@)[0] by {
        assert(v@[j]@ == v@[0]@);
    }
    true
}

/// The final terms of `xs` are all equal.
pub open spec fn same_final_terms(xs: Seq<Seq<TreeTerm>>) -> bool {
    forall|i: int, j: int|
        0 <= i < xs.len() && 0 <= j < xs.len() ==> #[trigger] final_string(xs[i])
            == #[trigger] final_string(xs[j])
}

/// A column whose explanations all end in the same term reports nothing, as
/// it would were it not there.
pub proof fn law_unchanged_column_is_silent(root: Seq<TreeTerm>, col: Seq<int>, k: int)
    requires
        same_final_terms(column_expls(root, col, k)),
    ensures
        column_reports(root, col, k) == Seq::<Report>::empty(),
{
    let xs = column_expls(root, col, k);
    let finals = xs.map_values(|x: Seq<TreeTerm>| final_string(x));
    assert forall|i: int| 0 <= i < finals.len() implies #[trigger] finals[i] == finals[0] by {
        assert(final_string(xs[i]) == final_string(xs[0]));
    }
}

proof fn lemma_columns_reports_contain(
    root: Seq<TreeTerm>,
    cols: Seq<Seq<int>>,
    n: int,
    k: int,
    r: Report,
)
    requires
        0 <= k < n,
        column_reports(root, cols[k], k).contains(r),
    ensures
        columns_reports(root, cols, n).contains(r),
    decreases n,
{
    let a = columns_reports(root, cols, n - 1);
    let b = column_reports(root, cols[n - 1], n - 1);
    if k < n - 1 {
        lemma_columns_reports_contain(root, cols, n - 1, k, r);
        let i = choose|i: int| 0 <= i < a.len() && a[i] == r;
        assert((a + b)[i] == r);
    } else {
        let i = choose|i: int| 0 <= i < b.len() && b[i] == r;
        assert((a + b)[a.len() + i] == r);
    }
}

/// When two explanations of a column of the root end in different terms and
/// the last of them has a chain longer than one, the extraction reports that
/// chain as found.
pub proof fn law_changed_column_reports_its_chain(root: Seq<TreeTerm>, k: int, i: int, j: int)
    requires
        root.len() >= 2,
        0 <= k < columns(root).len(),
        0 <= i < column_expls(root, columns(root)[k], k).len(),
        0 <= j < column_expls(root, columns(root)[k], k).len(),
        final_string(column_expls(root, columns(root)[k], k)[i]) != final_string(
            column_expls(root, columns(root)[k], k)[j],
        ),
        rule_walk(column_expls(root, columns(root)[k], k).last()).counter > 1,
    ensures
        extract_reports(root).contains(
            Report::Found(rule_walk(column_expls(root, columns(root)[k], k).last()).chain.unwrap()),
        ),
{
    let cols = columns(root);
    let xs = column_expls(root, cols[k], k);
    let finals = xs.map_values(|x: Seq<TreeTerm>| final_string(x));
    if finals[i] == finals[0] {
        assert(finals[j] != finals[0]);
    }
    assert(!all_same(finals));
    let w = rule_walk(xs.last());
    let found = Report::Found(w.chain.unwrap());
    assert(column_reports(root, cols[k], k) == w.reports.push(found));
    assert(w.reports.push(found)[w.reports.len() as int] == found);
    lemma_columns_reports_contain(root, cols, cols.len() as int, k, found);
}

/// Finds the chains of rules along the columns of child explanations of
/// `root` (see `columns`), and returns what is to be reported, in order.
pub fn extract_rules_from_explanation(root: &TreeExplanation) -> (reports: Vec<ChainReport>)
    requires
        expl_wf(root@),
        expl_size(root@) <= u64::MAX,
    ensures
        reports_view(reports@) == extract_reports(root@),
{
    let mut reports: Vec<ChainReport> = Vec::new();
    if root.len() < 2 {
        assert(reports_view(reports@) =~= Seq::<Report>::empty());
        return reports;
    }
    let mut rules: Vec<Vec<usize>> = Vec::new();
    let mut i: usize = 0;
    assert(cols_view(rules@) =~= columns(root@.take(0)));
    while i < root.len()
        invariant
            i <= root@.len(),
            cols_view(rules@) == columns(root@.take(i as int)),
        decreases root@.len() - i,
    {
        let term = &root[i];
        assert(root@.take(i + 1).drop_last() =~= root@.take(i as int));
        if rules.len() == 0 {
            rules = first_column(i, term.child_proofs.len());
        } else {
            rules = extend_columns(&rules, i, term.child_proofs.len());
        }
        assert(cols_view(rules@) =~= columns(root@.take(i + 1)));
        i = i + 1;
    }
    assert(root@.take(root@.len() as int) =~= root@);
    let ghost cols = columns(root@);
    proof {
        lemma_columns_wf(root@);
    }
    assert(reports_view(reports@) =~= columns_reports(root@, cols, 0));
    let mut k: usize = 0;
    while k < rules.len()
        invariant
            expl_wf(root@),
            expl_size(root@) <= u64::MAX,
            cols == columns(root@),
            cols_view(rules@) == cols,
            columns_wf(cols, root@),
            k <= rules@.len(),
            reports_view(reports@) == columns_reports(root@, cols, k as int),
        decreases rules@.len() - k,
    {
        let x = &rules[k];
        let ghost col = cols[k as int];
        assert(col.len() > 0);
        assert(col == x@.map_values(|s: usize| s as int));
        let ghost xs = column_expls(root@, col, k as int);
        let mut mapped: Vec<String> = Vec::new();
        let mut m: usize = 0;
        while m < x.len()
            invariant
                expl_wf(root@),
                col == x@.map_values(|s: usize| s as int),
                columns_wf(cols, root@),
                cols == columns(root@),
                k < cols.len(),
                col == cols[k as int],
                xs == column_expls(root@, col, k as int),
                m <= x@.len(),
                names(mapped@) == xs.take(m as int).map_values(|e: Seq<TreeTerm>| final_string(e)),
            decreases x@.len() - m,
        {
            let s = x[m];
            assert(col[m as int] == s as int);
            proof {
                lemma_steps_wf_at(root@, s as int);
                lemma_proofs_wf_at(root@[s as int].child_proofs@, k as int);
            }
            let t = term_to_string(&root[s].child_proofs[k]);
            let ghost before = mapped@;
            assert(xs[m as int] == root@[s as int].child_proofs@[k as int]@);
            mapped.push(t);
            assert(names(mapped@) =~= names(before).push(t@));
            assert(xs.take(m + 1).map_values(|e: Seq<TreeTerm>| final_string(e)) =~= xs.take(
                m as int,
            ).map_values(|e: Seq<TreeTerm>| final_string(e)).push(final_string(xs[m as int])));
            assert(names(mapped@) =~= xs.take(m + 1).map_values(
                |e: Seq<TreeTerm>| final_string(e),
            ));
            m = m + 1;
        }
        assert(xs.take(x@.len() as int) =~= xs);
        let ghost before = reports@;
        if !all_equal(&mapped) {
            let s = x[x.len() - 1];
            assert(col[col.len() - 1] == s as int);
            proof {
                lemma_steps_wf_at(root@, s as int);
                lemma_proofs_wf_at(root@[s as int].child_proofs@, k as int);
                lemma_steps_size_at(root@, s as int);
                lemma_proofs_size_at(root@[s as int].child_proofs@, k as int);
            }
            let last = &root[s].child_proofs[k];
            assert(last@ == xs.last());
            let found = term_to_rule_chains(last, 0, &mut reports);
            if found.1 > 1 {
                match found.0 {
                    Some(chain) => {
                        let ghost mid = reports@;
                        let report = ChainReport::Found(chain);
                        reports.push(report);
                        assert(reports_view(reports@) =~= reports_view(mid).push(report_view(report)));
                    },
                    None => {},
                }
            }
            assert(reports_view(reports@) =~= columns_reports(root@, cols, k + 1));
        } else {
            assert(reports_view(reports@) =~= columns_reports(root@, cols, k + 1));
        }
        k = k + 1;
    }
    reports
}

// ---------------------------------------------------------------------------
// Checking an explanation before reading it
// ---------------------------------------------------------------------------

fn checked_steps(steps: &Vec<TreeTerm>) -> (r: Option<u64>)
    ensures
        match r {
            Some(n) => steps_wf(steps@) && n == expl_size(steps@),
            None => !steps_wf(steps@) || expl_size(steps@) > u64::MAX,
        },
    decreases steps@, 1int,
{
    let mut total: u64 = 0;
    let mut i: usize = 0;
    while i < steps.len()
        invariant
            i <= steps@.len(),
            steps_wf(steps@.take(i as int)),
            total == expl_size(steps@.take(i as int)),
        decreases steps@.len() - i,
    {
        assert(steps@.take(i + 1).drop_last() =~= steps@.take(i as int));
        assert(decreases_to!(steps@ => steps@[i as int]));
        assert(decreases_to!(steps@[i as int] => steps@[i as int].child_proofs));
        let inner = checked_proofs(&steps[i].child_proofs);
        match inner {
            Some(n) => {
                if total > u64::MAX - 1 || n > u64::MAX - 1 - total {
                    proof {
                        lemma_size_prefix(steps@, i as int + 1);
                    }
                    return None;
                }
                total = total + 1 + n;
            },
            None => {
                proof {
                    lemma_size_prefix(steps@, i as int + 1);
                    if steps_wf(steps@) {
                        lemma_steps_wf_prefix(steps@, i as int + 1);
                    }
                }
                return None;
            },
        }
        i = i + 1;
    }
    assert(steps@.take(steps@.len() as int) =~= steps@);
    Some(total)
}

fn checked_proofs(proofs: &Vec<TreeExplanation>) -> (r: Option<u64>)
    ensures
        match r {
            Some(n) => proofs_wf(proofs@) && n == proofs_size(proofs@),
            None => !proofs_wf(proofs@) || proofs_size(proofs@) > u64::MAX,
        },
    decreases proofs@, 1int,
{
    let mut total: u64 = 0;
    let mut j: usize = 0;
    while j < proofs.len()
        invariant
            j <= proofs@.len(),
            proofs_wf(proofs@.take(j as int)),
            total == proofs_size(proofs@.take(j as int)),
        decreases proofs@.len() - j,
    {
        assert(proofs@.take(j + 1).drop_last() =~= proofs@.take(j as int));
        assert(decreases_to!(proofs@ => proofs@[j as int]));
        assert(decreases_to!(proofs@[j as int] => proofs@[j as int]@));
        let x = &proofs[j];
        if x.len() == 0 {
            proof {
                if proofs_wf(proofs@) {
                    if proofs_wf(proofs@) {
                        lemma_proofs_wf_prefix(proofs@, j as int + 1);
                    }
                }
            }
            return None;
        }
        match checked_steps(x) {
            Some(n) => {
                if n > u64::MAX - total {
                    proof {
                        lemma_proofs_size_prefix(proofs@, j as int + 1);
                    }
                    return None;
                }
                total = total + n;
            },
            None => {
                proof {
                    lemma_proofs_size_prefix(proofs@, j as int + 1);
                    if proofs_wf(proofs@) {
                    if proofs_wf(proofs@) {
                        lemma_proofs_wf_prefix(proofs@, j as int + 1);
                    }
                }
                }
                return None;
            },
        }
        j = j + 1;
    }
    assert(proofs@.take(proofs@.len() as int) =~= proofs@);
    Some(total)
}

proof fn lemma_size_prefix(e: Seq<TreeTerm>, m: int)
    requires
        0 <= m <= e.len(),
    ensures
        expl_size(e.take(m)) <= expl_size(e),
    decreases e.len(),
{
    if m < e.len() {
        assert(e.drop_last().take(m) =~= e.take(m));
        lemma_size_prefix(e.drop_last(), m);
    } else {
        assert(e.take(m) =~= e);
    }
}

proof fn lemma_proofs_size_prefix(s: Seq<TreeExplanation>, m: int)
    requires
        0 <= m <= s.len(),
    ensures
        proofs_size(s.take(m)) <= proofs_size(s),
    decreases s.len(),
{
    if m < s.len() {
        assert(s.drop_last().take(m) =~= s.take(m));
        lemma_proofs_size_prefix(s.drop_last(), m);
    } else {
        assert(s.take(m) =~= s);
    }
}

proof fn lemma_steps_wf_prefix(e: Seq<TreeTerm>, m: int)
    requires
        0 <= m <= e.len(),
        steps_wf(e),
    ensures
        steps_wf(e.take(m)),
    decreases e.len(),
{
    if m < e.len() {
        assert(e.drop_last().take(m) =~= e.take(m));
        lemma_steps_wf_prefix(e.drop_last(), m);
    } else {
        assert(e.take(m) =~= e);
    }
}

proof fn lemma_proofs_wf_prefix(s: Seq<TreeExplanation>, m: int)
    requires
        0 <= m <= s.len(),
        proofs_wf(s),
    ensures
        proofs_wf(s.take(m)),
    decreases s.len(),
{
    if m < s.len() {
        assert(s.drop_last().take(m) =~= s.take(m));
        lemma_proofs_wf_prefix(s.drop_last(), m);
    } else {
        assert(s.take(m) =~= s);
    }
}

fn sized_steps(steps: &Vec<TreeTerm>) -> (r: Option<u64>)
    ensures
        match r {
            Some(n) => n == expl_size(steps@),
            None => expl_size(steps@) > u64::MAX,
        },
    decreases steps@, 1int,
{
    let mut total: u64 = 0;
    let mut i: usize = 0;
    while i < steps.len()
        invariant
            i <= steps@.len(),
            total == expl_size(steps@.take(i as int)),
        decreases steps@.len() - i,
    {
        assert(steps@.take(i + 1).drop_last() =~= steps@.take(i as int));
        assert(decreases_to!(steps@ => steps@[i as int]));
        assert(decreases_to!(steps@[i as int] => steps@[i as int].child_proofs));
        proof {
            lemma_size_prefix(steps@, i as int + 1);
        }
        match sized_proofs(&steps[i].child_proofs) {
            Some(n) => {
                if total > u64::MAX - 1 || n > u64::MAX - 1 - total {
                    return None;
                }
                total = total + 1 + n;
            },
            None => {
                return None;
            },
        }
        i = i + 1;
    }
    assert(steps@.take(steps@.len() as int) =~= steps@);
    Some(total)
}

fn sized_proofs(proofs: &Vec<TreeExplanation>) -> (r: Option<u64>)
    ensures
        match r {
            Some(n) => n == proofs_size(proofs@),
            None => proofs_size(proofs@) > u64::MAX,
        },
    decreases proofs@, 1int,
{
    let mut total: u64 = 0;
    let mut j: usize = 0;
    while j < proofs.len()
        invariant
            j <= proofs@.len(),
            total == proofs_size(proofs@.take(j as int)),
        decreases proofs@.len() - j,
    {
        assert(proofs@.take(j + 1).drop_last() =~= proofs@.take(j as int));
        assert(decreases_to!(proofs@ => proofs@[j as int]));
        assert(decreases_to!(proofs@[j as int] => proofs@[j as int]@));
        proof {
            lemma_proofs_size_prefix(proofs@, j as int + 1);
        }
        match sized_steps(&proofs[j]) {
            Some(n) => {
                if n > u64::MAX - total {
                    return None;
                }
                total = total + n;
            },
            None => {
                return None;
            },
        }
        j = j + 1;
    }
    assert(proofs@.take(proofs@.len() as int) =~= proofs@);
    Some(total)
}

/// The size of an explanation, nested steps included, when it fits in 64
/// bits; `None` otherwise.
pub fn explanation_size(term: &TreeExplanation) -> (r: Option<u64>)
    ensures
        match r {
            Some(n) => n == expl_size(term@),
            None => expl_size(term@) > u64::MAX,
        },
{
    sized_steps(term)
}

/// The size of an explanation when every explanation in it has a step and
/// the size fits in 64 bits; `None` otherwise.
pub fn checked_size(term: &TreeExplanation) -> (r: Option<u64>)
    ensures
        match r {
            Some(n) => expl_wf(term@) && n == expl_size(term@),
            None => !expl_wf(term@) || expl_size(term@) > u64::MAX,
        },
{
    if term.len() == 0 {
        return None;
    }
    checked_steps(term)
}

} // verus!
