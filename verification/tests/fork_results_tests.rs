use uni_db::fork::{branch_delete_outcome, cascade_gate, drop_gate, flush_timeout_error, node_blocker};
use uni_db::errors::UniError;
use uni_db::fork::{
    baseline_is_empty, baseline_scan_query, fork_tags, holders_blocker, inflight_blocker,
    lance_tag_name, tag_of, tag_precheck,
};
use uni_db::results::{
    columns_for_results, enforce_memory_limit, estimate_result_bytes, extract_projection_order,
    row_values, PlanShape,
};
use uni_db::value::{estimate_properties_size, estimate_value_size, value_text_of, Value};

fn strings(v: &[&str]) -> Vec<String> {
    v.iter().map(|s| s.to_string()).collect()
}

#[test]
fn fork_tag_names_round_trip() {
    assert_eq!(lance_tag_name("t1", "vertices_P"), "fork_t1_vertices_P");
    assert_eq!(tag_of("fork_t1_vertices_P", "vertices_P"), Some("t1".to_string()));
    assert_eq!(tag_of("fork_a_b_vertices_P", "vertices_P"), Some("a_b".to_string()));
    assert_eq!(tag_of("snap_t1_vertices_P", "vertices_P"), None);
    assert_eq!(tag_of("fork_t1_vertices_Q", "vertices_P"), None);
    let name = lance_tag_name("x", "d");
    assert_eq!(tag_of(&name, "d"), Some("x".to_string()));
}

#[test]
fn fork_tags_listing() {
    let on_disk = vec![
        ("vertices_P".to_string(), strings(&["fork_b_vertices_P", "other", "fork_a_vertices_P"])),
        ("adj_R".to_string(), strings(&["fork_a_adj_R", "fork_c_adj_R"])),
    ];
    assert_eq!(fork_tags(&on_disk), strings(&["a", "b", "c"]));
    assert!(fork_tags(&vec![]).is_empty());
}

#[test]
fn fork_baseline_and_blockers() {
    assert_eq!(baseline_scan_query("Person"), "MATCH (n:`Person`) RETURN n");
    assert_eq!(baseline_scan_query("we`ird"), "MATCH (n:`we``ird`) RETURN n");
    assert!(baseline_is_empty("uninitialized"));
    assert!(!baseline_is_empty("snap-1"));
    assert_eq!(inflight_blocker("f1"), "f1: in-flight tx");
    assert_eq!(holders_blocker("f1", 2), "f1: 2 live session(s)");
}

#[test]
fn result_column_order() {
    let plan = PlanShape::Pass {
        input: Box::new(PlanShape::Project {
            projections: vec![("n.name".to_string(), Some("name".to_string())), ("n.age".to_string(), None)],
        }),
    };
    assert_eq!(extract_projection_order(&plan), Some(strings(&["name", "n.age"])));
    let agg = PlanShape::Aggregate { group_by: strings(&["k"]), aggregates: strings(&["count(*)"]) };
    assert_eq!(extract_projection_order(&agg), Some(strings(&["k", "count(*)"])));
    assert_eq!(extract_projection_order(&PlanShape::Other), None);

    let first = strings(&["b", "a"]);
    assert!(columns_for_results(None, Some(strings(&["x"]))).is_empty());
    assert_eq!(columns_for_results(Some(&first), Some(strings(&["x"]))), strings(&["x"]));
    assert_eq!(columns_for_results(Some(&first), None), strings(&["a", "b"]));
}

#[test]
fn result_rows_and_memory() {
    let row = vec![("a".to_string(), Value::Int(1)), ("b".to_string(), Value::Bool(true))];
    let vals = row_values(&row, &strings(&["b", "zz", "a"]));
    assert_eq!(vals, vec![Value::Bool(true), Value::Null, Value::Int(1)]);
    assert_eq!(estimate_result_bytes(&vec![2, 3], 32), 5 * 96);
    assert_eq!(estimate_result_bytes(&vec![], 32), 0);
    assert!(enforce_memory_limit(10, 0, "q").is_ok());
    assert!(enforce_memory_limit(10, 10, "q").is_ok());
    assert_eq!(
        enforce_memory_limit(11, 10, "q"),
        Err(UniError::Query {
            message: "Query exceeded memory limit (11 bytes > 10 byte limit)".to_string(),
            query: Some("q".to_string()),
        })
    );
}

#[test]
fn value_texts_and_sizes() {
    assert_eq!(value_text_of(&Value::Int(-12)), "-12");
    assert_eq!(value_text_of(&Value::Bool(false)), "false");
    assert_eq!(value_text_of(&Value::Null), "null");
    assert_eq!(value_text_of(&Value::String("s".to_string())), "s");
    assert_eq!(estimate_value_size(&Value::String("abcd".to_string())), 4);
    assert_eq!(estimate_value_size(&Value::List(vec![Value::Int(1), Value::Null])), 17);
    let props = vec![("k".to_string(), Value::Int(1))];
    assert_eq!(estimate_properties_size(&props), 9);
    assert!(Value::Null.is_null());
    assert!(!Value::Int(0).is_null());
}

#[test]
fn fork_drop_gates() {
    assert_eq!(
        drop_gate("p", strings(&["c1", "c2"]), 1),
        Err(UniError::ForkHasChildren { name: "p".to_string(), children: strings(&["c1", "c2"]) })
    );
    assert_eq!(drop_gate("p", vec![], 2), Err(UniError::ForkInflightTx { name: "p".to_string() }));
    assert!(drop_gate("p", vec![], 0).is_ok());
    assert_eq!(flush_timeout_error("f"), UniError::PendingFlushTimeout { name: "f".to_string() });
    assert_eq!(node_blocker("n", true, 3), Some("n: in-flight tx".to_string()));
    assert_eq!(node_blocker("n", false, 3), Some("n: 3 live session(s)".to_string()));
    assert_eq!(node_blocker("n", false, 0), None);
    assert!(cascade_gate(vec![]).is_ok());
    assert_eq!(
        cascade_gate(strings(&["n: in-flight tx"])),
        Err(UniError::ForkSubtreeInUse { blockers: strings(&["n: in-flight tx"]) })
    );
    assert!(branch_delete_outcome("f", None).is_ok());
    assert_eq!(
        branch_delete_outcome("f", Some("ds/br: gone".to_string())),
        Err(UniError::ForkLifecycle {
            name: "f".to_string(),
            stage: "delete_branch".to_string(),
            message: "branch delete failed; fork left Tombstoned for recovery (ds/br: gone)".to_string(),
        })
    );
}

#[test]
fn tagging_refuses_a_tag_already_present() {
    let datasets = vec![
        ("vertices_A".to_string(), vec!["fork_v1_vertices_A".to_string()]),
        ("edges_R".to_string(), vec!["fork_v2_edges_R".to_string()]),
    ];
    assert_eq!(tag_precheck("f", "v3", &datasets), Ok(()));
    assert_eq!(
        tag_precheck("f", "v2", &datasets),
        Err(UniError::ForkLifecycle {
            name: "f".to_string(),
            stage: "tag".to_string(),
            message: "tag 'v2' already present on dataset 'edges_R'".to_string()
        })
    );
    match tag_precheck("f", "v1", &datasets) {
        Err(UniError::ForkLifecycle { message, .. }) => assert!(message.ends_with("'vertices_A'")),
        other => panic!("unexpected {other:?}"),
    }
}
