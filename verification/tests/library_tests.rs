use super_optimiser::bindings::Bindings;
use super_optimiser::rules::rule_definitions;
use super_optimiser::text::{i64_parse_radix, i64_to_decimal, join_strings};
use super_optimiser::CCostFunction;

#[test]
fn radix_parsing_follows_the_std_rules() {
    assert_eq!(i64_parse_radix("17", 8), Some(15));
    assert_eq!(i64_parse_radix("-80", 16), Some(-128));
    assert_eq!(i64_parse_radix("+7", 8), Some(7));
    assert_eq!(i64_parse_radix("z", 36), Some(35));
    assert_eq!(i64_parse_radix("Zz", 36), Some(1295));
    assert_eq!(i64_parse_radix("", 10), None);
    assert_eq!(i64_parse_radix("+", 10), None);
    assert_eq!(i64_parse_radix("-", 10), None);
    assert_eq!(i64_parse_radix("8", 8), None);
    assert_eq!(i64_parse_radix("1_0", 10), None);
    assert_eq!(i64_parse_radix("-8000000000000000", 16), Some(i64::MIN));
    assert_eq!(i64_parse_radix("8000000000000000", 16), None);
    assert_eq!(i64_parse_radix("7fffffffffffffff", 16), Some(i64::MAX));
    assert_eq!(i64_parse_radix("123456789012345678901234567890", 10), None);
    for (s, r) in [("101", 2), ("777", 8), ("-ff", 16), ("0", 10)] {
        assert_eq!(i64_parse_radix(s, r), i64::from_str_radix(s, r).ok());
    }
}

#[test]
fn decimal_text_of_integers() {
    assert_eq!(i64_to_decimal(0), "0");
    assert_eq!(i64_to_decimal(7), "7");
    assert_eq!(i64_to_decimal(-42), "-42");
    assert_eq!(i64_to_decimal(1234567890), "1234567890");
    assert_eq!(i64_to_decimal(i64::MIN), "-9223372036854775808");
    assert_eq!(i64_to_decimal(i64::MAX), "9223372036854775807");
}

#[test]
fn decimal_text_reads_back() {
    for v in [0i64, 1, -1, 99, -100, i64::MIN, i64::MAX] {
        assert_eq!(i64_parse_radix(&i64_to_decimal(v), 10), Some(v));
    }
}

#[test]
fn joining_strings() {
    let parts = vec!["a".to_string(), "bc".to_string(), "d".to_string()];
    assert_eq!(join_strings(&parts, " "), "a bc d");
    assert_eq!(join_strings(&vec![], " "), "");
    assert_eq!(join_strings(&vec!["x".to_string()], ", "), "x");
}

#[test]
fn bindings_hold_the_last_value_bound() {
    let mut b = Bindings::new();
    let x = "x".to_string();
    let y = "y".to_string();
    assert_eq!(b.get(&x), None);
    b.insert(x.clone(), "1".to_string());
    b.insert(y.clone(), "2".to_string());
    b.insert(x.clone(), "3".to_string());
    assert_eq!(b.get(&x), Some("3".to_string()));
    assert_eq!(b.get(&y), Some("2".to_string()));
    b.remove(&x);
    assert_eq!(b.get(&x), None);
    assert_eq!(b.get(&y), Some("2".to_string()));
    b.insert(x.clone(), "4".to_string());
    b.remove_all(&vec![y.clone(), "z".to_string()]);
    assert_eq!(b.get(&y), None);
    assert_eq!(b.get(&x), Some("4".to_string()));
    b.clear();
    assert_eq!(b.get(&x), None);
}

#[test]
fn the_rule_set() {
    let rules = rule_definitions();
    assert_eq!(rules.len(), 107);
    assert_eq!(rules[0].name, "Compound 2");
    assert_eq!(rules[0].searcher, "(+ (+ ?a 1) 1)");
    assert_eq!(rules[0].applier, "(+ ?a 2)");
    let last = &rules[106];
    assert_eq!(last.name, "Dereference of address");
    assert_eq!(last.searcher, "(* (& ?a))");
    assert_eq!(last.applier, "?a");
    let de_morgan = rules.iter().find(|r| r.name == "De Morgan's law and").unwrap();
    assert_eq!(de_morgan.searcher, "(! (&& ?a ?b))");
    assert_eq!(de_morgan.applier, "(|| (! ?a) (! ?b))");
}

#[test]
fn ignore_nodes_cost_nothing() {
    let mut cost = CCostFunction;
    assert_eq!(cost.node_cost(true), 0);
    assert_eq!(cost.node_cost(false), 1);
}
