use super_optimiser::explain::{
    ChainReport, RuleChain, TreeExplanation, TreeTerm, checked_size, count_rules, explanation_size,
    extract_rules_from_explanation, term_to_initial_string, term_to_rule_chains, term_to_string,
};

fn step(node: &str, rule: Option<&str>, children: Vec<TreeExplanation>) -> TreeTerm {
    TreeTerm { node: node.to_string(), forward_rule: rule.map(|r| r.to_string()), child_proofs: children }
}

fn leaf(node: &str) -> TreeExplanation {
    vec![step(node, None, vec![])]
}

/// `(+ a 0)` rewritten to `a`.
fn identity_explanation() -> TreeExplanation {
    vec![
        step("+", None, vec![leaf("a"), leaf("0")]),
        step("a", Some("Identity element of addition"), vec![]),
    ]
}

/// A term rewritten by `outer`, whose child was rewritten by `inner` on the
/// way.
fn nested_explanation() -> TreeExplanation {
    let child = vec![step("x", None, vec![]), step("y", Some("inner"), vec![])];
    vec![step("f", None, vec![]), step("g", Some("outer"), vec![child])]
}

fn lookup(counts: &Vec<(String, u64)>, rule: &str) -> Option<u64> {
    counts.iter().find(|(k, _)| k == rule).map(|(_, v)| *v)
}

#[test]
fn final_and_initial_terms_are_printed() {
    let e = identity_explanation();
    assert_eq!(term_to_string(&e), "(a)");
    assert_eq!(term_to_initial_string(&e), "(+ (a) (0))");
}

#[test]
fn children_are_printed_by_their_final_or_initial_terms() {
    let e = vec![step("f", None, vec![identity_explanation(), leaf("b")])];
    assert_eq!(term_to_string(&e), "(f (a) (b))");
    assert_eq!(term_to_initial_string(&e), "(f (+ (a) (0)) (b))");
    let n = vec![step("-", None, vec![vec![step("1", None, vec![]), step("2", Some("r"), vec![])]])];
    assert_eq!(term_to_string(&n), "(- (2))");
    assert_eq!(term_to_initial_string(&n), "(- (1))");
}

#[test]
fn rules_are_counted_through_nested_explanations() {
    let child = vec![step("x", None, vec![]), step("y", Some("r1"), vec![]), step("z", Some("r2"), vec![])];
    let e = vec![
        step("f", Some("r1"), vec![child]),
        step("g", Some("r1"), vec![leaf("q")]),
        step("h", None, vec![]),
    ];
    let counts = count_rules(&e);
    assert_eq!(counts.len(), 2);
    assert_eq!(lookup(&counts, "r1"), Some(3));
    assert_eq!(lookup(&counts, "r2"), Some(1));
    assert_eq!(lookup(&counts, "r3"), None);
}

#[test]
fn no_rule_no_count() {
    assert!(count_rules(&leaf("a")).is_empty());
}

#[test]
fn chains_follow_rules_through_children() {
    let mut reports: Vec<ChainReport> = Vec::new();
    let (chain, length) = term_to_rule_chains(&nested_explanation(), 0, &mut reports);
    assert_eq!(length, 2);
    assert!(reports.is_empty());
    let chain = chain.unwrap();
    assert_eq!(chain.chain, vec!["outer".to_string()]);
    assert_eq!(chain.child_chains.len(), 1);
    let inner = chain.child_chains[0].as_ref().unwrap();
    assert_eq!(inner.chain, vec!["inner".to_string()]);
    assert!(inner.child_chains.is_empty());
}

#[test]
fn a_term_without_rules_has_no_chain() {
    let mut reports: Vec<ChainReport> = Vec::new();
    let (chain, length) = term_to_rule_chains(&identity_explanation_without_rule(), 0, &mut reports);
    assert!(chain.is_none());
    assert_eq!(length, 0);
    assert!(reports.is_empty());
}

fn identity_explanation_without_rule() -> TreeExplanation {
    vec![step("+", None, vec![leaf("a")]), step("+", None, vec![leaf("a")])]
}

#[test]
fn the_starting_term_is_not_walked() {
    let mut reports: Vec<ChainReport> = Vec::new();
    let (chain, length) = term_to_rule_chains(&vec![step("1", Some("r"), vec![])], 0, &mut reports);
    assert!(chain.is_none());
    assert_eq!(length, 0);
    assert!(reports.is_empty());
    let e = vec![step("h", None, vec![nested_explanation()])];
    let (chain, length) = term_to_rule_chains(&e, 0, &mut reports);
    assert!(chain.is_none());
    assert_eq!(length, 0);
    assert!(reports.is_empty());
}

#[test]
fn long_chains_under_an_unrewritten_term_are_reported() {
    let e = vec![step("h", None, vec![leaf("k")]), step("h", None, vec![nested_explanation()])];
    let mut reports: Vec<ChainReport> = Vec::new();
    let (chain, length) = term_to_rule_chains(&e, 0, &mut reports);
    assert!(chain.is_none());
    assert_eq!(length, 0);
    assert_eq!(reports.len(), 1);
    match &reports[0] {
        ChainReport::Unattributed { chain, initial, last } => {
            assert!(chain.chain.is_empty());
            assert_eq!(chain.child_chains.len(), 1);
            assert_eq!(initial, "(h (k))");
            assert_eq!(last, "(h (g (y)))");
        },
        ChainReport::Found(_) => panic!("expected an unattributed chain"),
    }
}

#[test]
fn extraction_reports_the_chains_of_changed_columns() {
    let root = vec![
        step("f", None, vec![leaf("x")]),
        step("f", Some("outer2"), vec![nested_explanation()]),
    ];
    let reports = extract_rules_from_explanation(&root);
    assert_eq!(reports.len(), 1);
    match &reports[0] {
        ChainReport::Found(c) => {
            let expected_inner = RuleChain { chain: vec!["inner".to_string()], child_chains: vec![] };
            assert_eq!(c.chain, vec!["outer".to_string()]);
            assert_eq!(format!("{:?}", c.child_chains[0].as_ref().unwrap()), format!("{:?}", expected_inner));
        },
        ChainReport::Unattributed { .. } => panic!("expected a found chain"),
    }
}

#[test]
fn extraction_skips_unchanged_columns_and_short_explanations() {
    let same = vec![step("f", None, vec![leaf("x")]), step("f", Some("r"), vec![leaf("x")])];
    assert!(extract_rules_from_explanation(&same).is_empty());
    assert!(extract_rules_from_explanation(&nested_explanation()[..1].to_vec_for_test()).is_empty());
}

trait ToVecForTest {
    fn to_vec_for_test(&self) -> TreeExplanation;
}

impl ToVecForTest for [TreeTerm] {
    fn to_vec_for_test(&self) -> TreeExplanation {
        self.iter().map(|t| step(&t.node, t.forward_rule.as_deref(), vec![])).collect()
    }
}

#[test]
fn extraction_restarts_columns_after_a_childless_step() {
    let root = vec![
        step("f", None, vec![leaf("x")]),
        step("c", None, vec![]),
        step("f", None, vec![leaf("x")]),
        step("f", None, vec![nested_explanation()]),
    ];
    let reports = extract_rules_from_explanation(&root);
    assert_eq!(reports.len(), 1);
    assert!(matches!(reports[0], ChainReport::Found(_)));
}

#[test]
fn sizes_of_explanations_are_checked() {
    assert_eq!(checked_size(&identity_explanation()), Some(4));
    assert_eq!(checked_size(&nested_explanation()), Some(4));
    assert_eq!(checked_size(&vec![]), None);
    let bad = vec![step("f", None, vec![vec![]])];
    assert_eq!(checked_size(&bad), None);
}

#[test]
fn sizes_are_measured_without_checking_steps() {
    assert_eq!(explanation_size(&vec![]), Some(0));
    let bad = vec![step("f", None, vec![vec![]])];
    assert_eq!(explanation_size(&bad), Some(1));
    assert_eq!(explanation_size(&nested_explanation()), Some(4));
    assert!(count_rules(&bad).is_empty());
}

#[test]
fn counts_of_joined_explanations_add_up() {
    let mut joined = identity_explanation();
    joined.extend(nested_explanation());
    joined.extend(identity_explanation());
    let counts = count_rules(&joined);
    assert_eq!(lookup(&counts, "Identity element of addition"), Some(2));
    assert_eq!(lookup(&counts, "outer"), Some(1));
    assert_eq!(lookup(&counts, "inner"), Some(1));
    assert_eq!(counts.len(), 3);
    assert!(count_rules(&vec![]).is_empty());
}
