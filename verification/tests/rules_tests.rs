use std::collections::HashSet;
use uni_db::locy::{merge_derive_outputs, DeriveOutput};
use std::time::Duration;
use uni_db::errors::UniError;
use uni_db::locy::{
    already_registered, incomplete_outcome, register_source, new_rule_names, promotion_sources,
    rebuilt_registry_usable,
    bare_rule_hint, evaluation_totals, merge_strata, rebase_strata, substitute_nodes,
    supersede_sources, unique_vids_in, vid_lookup_query, LocyBuilder, LocyConfig,
    RegisteredSource, Stratum,
};
use uni_db::params::Params;
use uni_db::value::Value;

fn strings(v: &[&str]) -> Vec<String> {
    v.iter().map(|s| s.to_string()).collect()
}

fn src(source: &str, names: &[&str]) -> RegisteredSource {
    RegisteredSource { source: source.to_string(), rule_names: strings(names) }
}

#[test]
fn vid_lookup_statement() {
    assert_eq!(vid_lookup_query(&HashSet::new()), "MATCH (n) WHERE id(n) IN [] RETURN id(n) AS _vid, n");
    assert_eq!(
        vid_lookup_query(&HashSet::from([42])),
        "MATCH (n) WHERE id(n) IN [42] RETURN id(n) AS _vid, n"
    );
    let q = vid_lookup_query(&HashSet::from([3, -1, 42]));
    assert!(q.starts_with("MATCH (n) WHERE id(n) IN ["));
    assert!(q.ends_with("] RETURN id(n) AS _vid, n"));
    let inner = &q["MATCH (n) WHERE id(n) IN [".len()..q.len() - "] RETURN id(n) AS _vid, n".len()];
    let mut ids: Vec<i64> = inner.split(", ").map(|t| t.parse().unwrap()).collect();
    ids.sort();
    assert_eq!(ids, vec![-1, 3, 42]);
}

#[test]
fn vids_and_node_substitution() {
    let rows = vec![
        vec![("a".to_string(), Value::Int(1)), ("b".to_string(), Value::Int(2))],
        vec![("a".to_string(), Value::Int(1)), ("c".to_string(), Value::Int(9))],
        vec![("a".to_string(), Value::String("x".to_string()))],
    ];
    let cols = strings(&["a", "b"]);
    let vids = unique_vids_in(&rows, &cols);
    assert_eq!(vids, HashSet::from([1, 2]));

    let node = Value::Node { vid: 1, labels: strings(&["P"]), properties: vec![] };
    let out = substitute_nodes(rows, &cols, &vec![(1, node)]);
    assert_eq!(out.len(), 3);
    assert!(matches!(out[0][0].1, Value::Node { vid: 1, .. }));
    assert_eq!(out[0][1].1, Value::Int(2));
    assert!(matches!(out[1][0].1, Value::Node { vid: 1, .. }));
    assert_eq!(out[1][1].1, Value::Int(9));
    assert_eq!(out[2][0].1, Value::String("x".to_string()));
}

#[test]
fn evaluation_statistics() {
    assert_eq!(evaluation_totals(&vec![2, 3, 5], 4, None), (10, 4));
    assert_eq!(evaluation_totals(&vec![], 4, Some(1)), (0, 1));
}

#[test]
fn strata_rebase_and_merge() {
    let program = vec![
        Stratum { id: 0, depends_on: vec![], rules: strings(&["r"]) },
        Stratum { id: 1, depends_on: vec![0], rules: strings(&["s"]) },
    ];
    let rebased = rebase_strata(program, 3);
    assert_eq!(rebased[0].id, 3);
    assert_eq!(rebased[1].id, 4);
    assert_eq!(rebased[1].depends_on, vec![3]);
    assert_eq!(rebased[1].rules, strings(&["s"]));

    let pool = vec![
        Stratum { id: 0, depends_on: vec![], rules: strings(&["a"]) },
        Stratum { id: 1, depends_on: vec![0], rules: strings(&["b"]) },
        Stratum { id: 2, depends_on: vec![1, 0], rules: strings(&["c"]) },
    ];
    let program = vec![Stratum { id: 0, depends_on: vec![], rules: strings(&["n"]) }];
    let merged = merge_strata(&pool, &vec![0, 2], program);
    assert_eq!(merged.len(), 3);
    assert_eq!(merged[0].id, 0);
    assert_eq!(merged[1].id, 1);
    // Stratum 2 depended on 1 (dropped) and 0 (now 0).
    assert_eq!(merged[1].depends_on, vec![0]);
    assert_eq!(merged[1].rules, strings(&["c"]));
    assert_eq!(merged[2].id, 2);
    assert_eq!(merged[2].rules, strings(&["n"]));
}

#[test]
fn superseding_registered_sources() {
    let existing = vec![src("p1", &["a"]), src("p2", &["b", "c"]), src("p3", &["d"])];
    assert!(matches!(supersede_sources(&existing, "p2", &strings(&["b", "c"])), Ok(None)));

    let kept = supersede_sources(&existing, "p4", &strings(&["a", "e"])).unwrap().unwrap();
    let sources: Vec<&str> = kept.iter().map(|s| s.source.as_str()).collect();
    assert_eq!(sources, vec!["p2", "p3", "p4"]);
    assert_eq!(kept[2].rule_names, strings(&["a", "e"]));

    match supersede_sources(&existing, "p5", &strings(&["b"])) {
        Err(UniError::Query { message, query }) => {
            assert_eq!(
                message,
                "cannot redefine rule(s) [\"b\"]: their existing source program also defines [\"c\"]. Clear the registry and re-register single-rule programs."
            );
            assert!(query.is_none());
        }
        _ => panic!("a partial redefinition must be refused"),
    }
}

#[test]
fn bare_rule_name_hints() {
    let names = strings(&["reachable", "Friends"]);
    assert_eq!(
        bare_rule_hint("  reachable ", &names),
        Some("Hint: 'reachable' is a registered Locy rule \u{2014} invoke it with a goal query, e.g. `QUERY reachable [WHERE \u{2026}] [RETURN \u{2026}]`".to_string())
    );
    assert_eq!(
        bare_rule_hint("friends", &names),
        Some("Hint: did you mean the registered Locy rule 'Friends'? Invoke it with a goal query, e.g. `QUERY Friends [WHERE \u{2026}] [RETURN \u{2026}]`".to_string())
    );
    assert_eq!(bare_rule_hint("unknown", &names), None);
    assert_eq!(bare_rule_hint("QUERY reachable", &names), None);
    assert_eq!(bare_rule_hint("", &names), None);
}

#[test]
fn rule_evaluation_builder() {
    let config = LocyConfig {
        params: Params::new(),
        timeout: Duration::from_secs(300),
        max_iterations: 1000,
        allow_partial: false,
    };
    let mut extra = Params::new();
    extra.set("b".to_string(), Value::Int(2));
    let (program, cfg) = LocyBuilder::new("QUERY r RETURN x", config)
        .param("a".to_string(), Value::Int(1))
        .params_map(extra)
        .timeout(Duration::from_secs(5))
        .max_iterations(10)
        .allow_partial(true)
        .into_parts();
    assert_eq!(program, "QUERY r RETURN x");
    assert_eq!(cfg.params.get("a"), Some(&Value::Int(1)));
    assert_eq!(cfg.params.get("b"), Some(&Value::Int(2)));
    assert_eq!(cfg.timeout, Duration::from_secs(5));
    assert_eq!(cfg.max_iterations, 10);
    assert!(cfg.allow_partial);
}

#[test]
fn approximate_facts_are_stamped() {
    let derived = vec![
        ("r".to_string(), vec![vec![("x".to_string(), Value::Int(1))]]),
        ("s".to_string(), vec![vec![("_approximate".to_string(), Value::Bool(false))]]),
        ("t".to_string(), vec![vec![]]),
    ];
    let groups = vec![
        ("r".to_string(), strings(&["g1"])),
        ("s".to_string(), strings(&["g2"])),
        ("t".to_string(), vec![]),
    ];
    let out = uni_db::locy::stamp_approximate(derived, &groups);
    assert_eq!(out.len(), 3);
    assert_eq!(
        out[0].1[0],
        vec![("x".to_string(), Value::Int(1)), ("_approximate".to_string(), Value::Bool(true))]
    );
    assert_eq!(out[1].1[0], vec![("_approximate".to_string(), Value::Bool(true))]);
    assert!(out[2].1[0].is_empty());
}

#[test]
fn derive_outputs_merge_in_command_order() {
    let none: Vec<DeriveOutput<u32, u32, String>> = vec![];
    assert!(merge_derive_outputs(none).is_none());
    let outputs = vec![
        DeriveOutput {
            vertices: vec![("A".to_string(), vec![1u32, 2]), ("B".to_string(), vec![3])],
            edges: vec![10u32],
            queries: vec!["q1".to_string()],
        },
        DeriveOutput {
            vertices: vec![("A".to_string(), vec![4u32])],
            edges: vec![11u32, 12],
            queries: vec!["q2".to_string()],
        },
    ];
    let merged = merge_derive_outputs(outputs).unwrap();
    let a = merged.vertices.iter().find(|(l, _)| l == "A").unwrap();
    assert_eq!(a.1, vec![1, 2, 4]);
    let b = merged.vertices.iter().find(|(l, _)| l == "B").unwrap();
    assert_eq!(b.1, vec![3]);
    assert_eq!(merged.vertices.len(), 2);
    assert_eq!(merged.edges, vec![10, 11, 12]);
    assert_eq!(merged.mutation_queries, strings(&["q1", "q2"]));
}

#[test]
fn persisted_rule_failure_message() {
    assert_eq!(
        uni_db::locy::persisted_rule_error("unknown rule q"),
        UniError::Internal {
            message: "a persisted Locy rule in catalog/locy_rules.json no longer compiles: unknown rule q. Re-register the rule, or open with skip_invalid_locy_rules(true) to skip it.".to_string()
        }
    );
}

#[test]
fn incomplete_evaluation_needs_partial_results_allowed() {
    assert_eq!(incomplete_outcome(None, false), Ok(None));
    assert_eq!(incomplete_outcome(Some("stratum 2 of 3".to_string()), true), Ok(Some("stratum 2 of 3".to_string())));
    assert_eq!(
        incomplete_outcome(Some("stratum 2 of 3".to_string()), false),
        Err(UniError::LocyIncomplete { detail: "stratum 2 of 3".to_string() })
    );
}

#[test]
fn duplicate_program_known_before_compiling() {
    let existing = vec![src("CREATE RULE a AS MATCH (n) YIELD n", &["a"])];
    assert!(already_registered(&existing, "CREATE RULE a AS MATCH (n) YIELD n"));
    assert!(!already_registered(&existing, "CREATE RULE b AS MATCH (n) YIELD n"));
    assert!(!already_registered(&vec![], "x"));
}

#[test]
fn commit_promotes_new_rules_with_their_sources() {
    let tx_names = strings(&["a", "b", "c"]);
    let session_names = strings(&["b"]);
    let new_names = new_rule_names(&tx_names, &session_names);
    assert_eq!(new_names, strings(&["a", "c"]));
    let session_sources = vec![src("S", &["b"])];
    let tx_sources = vec![src("T1", &["a"]), src("S", &["b"]), src("T2", &["b"]), src("T3", &["c", "a"]), src("T1", &["a"])];
    let combined = promotion_sources(&session_sources, &tx_sources, &new_names);
    let texts: Vec<&str> = combined.iter().map(|s| s.source.as_str()).collect();
    assert_eq!(texts, vec!["S", "T1", "T3"]);
    let rebuilt = strings(&["a", "b", "c"]);
    assert!(rebuilt_registry_usable(Some(&rebuilt), &new_names, &session_names));
    let lost = strings(&["a", "c"]);
    assert!(!rebuilt_registry_usable(Some(&lost), &new_names, &session_names));
    assert!(!rebuilt_registry_usable(None, &new_names, &session_names));
}

#[test]
fn registering_the_same_program_twice_changes_nothing() {
    let mut sources = vec![src("P1", &["a"])];
    assert_eq!(register_source(&mut sources, "P2", &strings(&["b"])), Ok(true));
    assert_eq!(sources.len(), 2);
    assert_eq!(register_source(&mut sources, "P2", &strings(&["b"])), Ok(false));
    assert_eq!(sources.len(), 2);
    assert_eq!(sources[1].source, "P2");
    // Redefining every rule of P1 drops it.
    assert_eq!(register_source(&mut sources, "P3", &strings(&["a"])), Ok(true));
    let texts: Vec<&str> = sources.iter().map(|s| s.source.as_str()).collect();
    assert_eq!(texts, vec!["P2", "P3"]);
}
