use uni_db::authz::{extract_authz_fields, Clause, Pattern, PatternElement, Query};

fn strings(v: &[&str]) -> Vec<String> {
    v.iter().map(|s| s.to_string()).collect()
}

fn node(labels: &[&str], keys: &[&str]) -> PatternElement {
    PatternElement::Node { labels: strings(labels), property_keys: strings(keys) }
}

fn rel(types: &[&str], keys: &[&str]) -> PatternElement {
    PatternElement::Relationship { types: strings(types), property_keys: strings(keys) }
}

#[test]
fn authz_fields_of_a_read_write_statement() {
    // MATCH (a:Person {name: ..})-[:KNOWS {since: ..}]->(b:Person)
    // CREATE (c:Bot:Person) RETURN a
    let q = Query::Single(vec![
        Clause::Match(Pattern {
            paths: vec![vec![node(&["Person"], &["name"]), rel(&["KNOWS"], &["since"]), node(&["Person"], &[])]],
        }),
        Clause::Create(Pattern { paths: vec![vec![node(&["Bot", "Person"], &[])]] }),
        Clause::Return,
    ]);
    let (labels, types, keys, ops) = extract_authz_fields(&q);
    assert_eq!(labels, strings(&["Bot", "Person"]));
    assert_eq!(types, strings(&["KNOWS"]));
    assert_eq!(keys, strings(&["name", "since"]));
    assert_eq!(ops, strings(&["read", "write"]));
}

#[test]
fn authz_fields_through_nested_statements() {
    let left = Query::Single(vec![
        Clause::Match(Pattern {
            paths: vec![vec![PatternElement::Parenthesized {
                elements: vec![node(&["A"], &["k"]), rel(&["R"], &[]), node(&[], &[])],
            }]],
        }),
        Clause::Delete,
    ]);
    let right = Query::Explain(Box::new(Query::Single(vec![Clause::Call, Clause::SetProperties])));
    let q = Query::TimeTravel(Box::new(Query::Union { left: Box::new(left), right: Box::new(right) }));
    let (labels, types, keys, ops) = extract_authz_fields(&q);
    assert_eq!(labels, strings(&["A"]));
    assert_eq!(types, strings(&["R"]));
    assert_eq!(keys, strings(&["k"]));
    assert_eq!(ops, strings(&["call", "delete", "read", "write"]));

    let (labels, types, keys, ops) = extract_authz_fields(&Query::Schema);
    assert!(labels.is_empty() && types.is_empty() && keys.is_empty());
    assert_eq!(ops, strings(&["schema"]));
}
