use std::time::Duration;
use uni_db::bulk::{
    abort_outcome, classify_check_literal, compute_unique_key, evaluate_check, join_texts,
    parse_check_expression, rollback_error, sorted_positions, split_words,
    validate_vertex_batch_constraints, BulkConfig, BulkStats, BulkWriterBuilder, CheckLiteral,
    EdgeData, FlushAction, IndexPlan, RollbackStep,
};
use uni_db::bulk_commit::{CommitAction, CommitEvent, CommitProgress, CommitStage};
use uni_db::errors::UniError;
use uni_db::schema::{ConstraintDef, ConstraintKind, ConstraintTarget, DataType, PropertyMeta};
use uni_db::value::{copy_value, Value};

fn props(pairs: &[(&str, Value)]) -> Vec<(String, Value)> {
    pairs.iter().map(|(k, v)| (k.to_string(), copy_value(v))).collect()
}

#[test]
fn default_bulk_config() {
    let c = BulkConfig::default();
    assert!(c.defer_vector_indexes);
    assert!(c.defer_scalar_indexes);
    assert_eq!(c.batch_size, 10_000);
    assert!(!c.async_indexes);
    assert!(c.validate_constraints);
    assert_eq!(c.max_buffer_size_bytes, 1_073_741_824);
    let s = BulkStats::default();
    assert_eq!(s.vertices_inserted, 0);
    assert!(!s.indexes_pending);
    assert_eq!(s.duration, Duration::ZERO);
}

#[test]
fn builder_requires_writable_database() {
    match BulkWriterBuilder::new(false).build() {
        Err(UniError::Internal { message }) => {
            assert_eq!(message, "BulkWriter requires a writable database instance")
        }
        _ => panic!("expected a refusal"),
    }
    let b = BulkWriterBuilder::new(true).batch_size(2).async_indexes(true).validate_constraints(false);
    assert_eq!(b.config().batch_size, 2);
    assert!(b.config().async_indexes);
    assert!(!b.config().validate_constraints);
    let w = b.build().ok().unwrap();
    assert_eq!(w.config().batch_size, 2);
    assert_eq!(w.stats().vertices_inserted, 0);
}

#[test]
fn buffering_decides_flushes() {
    let mut w = BulkWriterBuilder::new(true).batch_size(2).build().ok().unwrap();
    let a = w.buffer_vertices("Person", vec![(1, props(&[("name", Value::Int(1))]))]);
    assert_eq!(a, FlushAction::Nothing);
    let a = w.buffer_vertices("Person", vec![(2, vec![])]);
    assert_eq!(a, FlushAction::Flush);
    assert_eq!(w.stats().vertices_inserted, 2);
    assert_eq!(w.pending_labels(), vec!["Person".to_string()]);
    let rows = w.take_vertex_buffer("Person").unwrap();
    assert_eq!(rows.len(), 2);
    assert_eq!(rows[0].0, 1);
    assert!(w.take_vertex_buffer("Person").is_none());

    let a = w.buffer_edges("KNOWS", vec![10], vec![EdgeData::new(1, 2, vec![])], 99);
    assert_eq!(a, FlushAction::Nothing);
    let edges = w.take_edge_buffer("KNOWS").unwrap();
    assert_eq!(edges.len(), 1);
    assert_eq!(edges[0].eid, 10);
    assert_eq!(edges[0].version, 1);
    assert_eq!(edges[0].created_at, Some(99));
    assert_eq!(w.touched_edge_type_list(), vec!["KNOWS".to_string()]);
}

#[test]
fn byte_limit_forces_checkpoint() {
    let mut w = BulkWriterBuilder::new(true).max_buffer_size_bytes(1).build().ok().unwrap();
    let a = w.buffer_edges("R", vec![1], vec![EdgeData::new(1, 2, vec![])], 0);
    assert_eq!(a, FlushAction::Checkpoint);
    w.checkpoint_done();
}

#[test]
fn index_plans_and_abort() {
    let mut w = BulkWriterBuilder::new(true).build().ok().unwrap();
    match w.index_plan() {
        IndexPlan::Blocking(l) => assert!(l.is_empty()),
        _ => panic!("deferred indexes rebuild before commit by default"),
    }
    w.buffer_vertices("A", vec![(1, vec![])]);
    assert!(w.needs_table_version("vertices_A"));
    w.record_table_version("vertices_A", Some(3));
    w.record_table_version("vertices_A", Some(9));
    w.record_table_version("adj_R", None);
    assert!(!w.needs_table_version("vertices_A"));
    let steps = w.abort_plan().ok().unwrap();
    assert_eq!(steps.len(), 2);
    match &steps[0] {
        RollbackStep::Rollback { table, version } => {
            assert_eq!(table, "vertices_A");
            assert_eq!(*version, 3);
        }
        _ => panic!(),
    }
    match &steps[1] {
        RollbackStep::Drop { table } => assert_eq!(table, "adj_R"),
        _ => panic!(),
    }
    assert!(w.take_vertex_buffer("A").is_none());

    let mut bg = BulkWriterBuilder::new(true).async_indexes(true).build().ok().unwrap();
    bg.buffer_vertices("A", vec![(1, vec![])]);
    match bg.index_plan() {
        IndexPlan::Background(l) => assert_eq!(l, vec!["A".to_string()]),
        _ => panic!(),
    }
    bg.note_background_tasks(vec!["t1".to_string()]);
    let stats = bg.finish(Duration::from_secs(2), Duration::from_secs(1));
    assert!(stats.indexes_pending);
    assert_eq!(stats.index_task_ids, vec!["t1".to_string()]);
    assert_eq!(stats.duration, Duration::from_secs(2));
    assert_eq!(stats.vertices_inserted, 1);

    let nr = BulkWriterBuilder::new(true)
        .defer_vector_indexes(false)
        .defer_scalar_indexes(false)
        .build()
        .ok()
        .unwrap();
    assert!(matches!(nr.index_plan(), IndexPlan::NoRebuild));
}

#[test]
fn abort_messages() {
    assert_eq!(rollback_error("t", "gone"), "t: gone");
    assert_eq!(join_texts(&vec!["a".to_string(), "b".to_string()], "; "), "a; b");
    assert!(abort_outcome(&vec![]).is_ok());
    assert_eq!(
        abort_outcome(&vec!["t: x".to_string(), "u: y".to_string()]),
        Err(UniError::Internal { message: "Bulk load abort had 2 rollback errors: t: x; u: y".to_string() })
    );
}

#[test]
fn stable_sorted_positions() {
    assert_eq!(sorted_positions(&vec![5, 1, 5, 0]), vec![3, 1, 0, 2]);
    assert!(sorted_positions(&vec![]).is_empty());
}

#[test]
fn unique_keys_of_rows() {
    let p = vec!["a".to_string(), "b".to_string()];
    assert_eq!(
        compute_unique_key(&p, &props(&[("a", Value::Int(-3)), ("b", Value::String("x".to_string()))])),
        Some("-3:x".to_string())
    );
    assert_eq!(compute_unique_key(&p, &props(&[("a", Value::Int(1))])), None);
    assert_eq!(compute_unique_key(&p, &props(&[("a", Value::Int(1)), ("b", Value::Null)])), None);
}

fn person_meta() -> Vec<PropertyMeta> {
    vec![PropertyMeta { name: "name".to_string(), data_type: DataType::String, nullable: false, description: None }]
}

#[test]
fn batch_validation_reports_first_violation() {
    let rows = vec![props(&[("name", Value::String("a".to_string()))]), props(&[("age", Value::Int(3))])];
    let r = validate_vertex_batch_constraints("Person", &rows, &person_meta(), &vec![], &vec![], &vec![]);
    assert_eq!(
        r,
        Err(UniError::Constraint {
            message: "NOT NULL constraint violation at row 1: property 'name' cannot be null for label 'Person'".to_string()
        })
    );

    let unique = vec![ConstraintDef {
        name: "u".to_string(),
        target: ConstraintTarget::Label("Person".to_string()),
        kind: ConstraintKind::Unique { properties: vec!["name".to_string()] },
        enabled: true,
    }];
    let dup = vec![
        props(&[("name", Value::String("a".to_string()))]),
        props(&[("name", Value::String("a".to_string()))]),
    ];
    assert_eq!(
        validate_vertex_batch_constraints("Person", &dup, &person_meta(), &unique, &vec![], &vec![vec![]]),
        Err(UniError::Constraint {
            message: "UNIQUE constraint violation at row 1: duplicate key 'a' in batch".to_string()
        })
    );
    let buffered = vec![(7u64, props(&[("name", Value::String("b".to_string()))]))];
    let one = vec![props(&[("name", Value::String("b".to_string()))])];
    assert_eq!(
        validate_vertex_batch_constraints("Person", &one, &person_meta(), &unique, &buffered, &vec![vec![]]),
        Err(UniError::Constraint {
            message: "UNIQUE constraint violation at row 0: key 'b' conflicts with buffered data".to_string()
        })
    );
    assert!(validate_vertex_batch_constraints("Dog", &one, &vec![], &unique, &buffered, &vec![vec![]]).is_ok());

    let exists = vec![ConstraintDef {
        name: "e".to_string(),
        target: ConstraintTarget::Label("Person".to_string()),
        kind: ConstraintKind::Exists { property: "email".to_string() },
        enabled: true,
    }];
    assert_eq!(
        validate_vertex_batch_constraints("Person", &one, &vec![], &exists, &vec![], &vec![vec![]]),
        Err(UniError::Constraint {
            message: "EXISTS constraint violation at row 0: property 'email' must exist".to_string()
        })
    );

    let check = vec![ConstraintDef {
        name: "adult".to_string(),
        target: ConstraintTarget::Label("Person".to_string()),
        kind: ConstraintKind::Check { expression: "n.age >= 18".to_string() },
        enabled: true,
    }];
    let rows = vec![props(&[("age", Value::Int(20))]), props(&[("age", Value::Int(3))])];
    let outcomes: Vec<Result<bool, String>> = rows
        .iter()
        .map(|r| evaluate_check("n.age >= 18", r).map(|o| o.unwrap()))
        .collect();
    assert_eq!(
        validate_vertex_batch_constraints("Person", &rows, &vec![], &check, &vec![], &vec![outcomes]),
        Err(UniError::Constraint {
            message: "CHECK constraint 'adult' violated at row 1: expression 'n.age >= 18' evaluated to false".to_string()
        })
    );
    let failing: Vec<Result<bool, String>> = vec![Err("Cannot compare incompatible types".to_string()), Ok(true)];
    assert_eq!(
        validate_vertex_batch_constraints("Person", &rows, &vec![], &check, &vec![], &vec![failing]),
        Err(UniError::Constraint { message: "Cannot compare incompatible types".to_string() })
    );
}

#[test]
fn check_expression_parsing() {
    assert_eq!(split_words("  a  b\tc "), vec!["a".to_string(), "b".to_string(), "c".to_string()]);
    let p = parse_check_expression("(n.age >= 18)").unwrap();
    assert_eq!(p.property, "age");
    assert_eq!(p.op, ">=");
    assert_eq!(p.literal, "18");
    assert!(parse_check_expression("a > b AND c").is_none());
    assert!(matches!(classify_check_literal("'x'"), CheckLiteral::Text(t) if t == "x"));
    assert!(matches!(classify_check_literal("42"), CheckLiteral::Int(42)));
    assert!(matches!(classify_check_literal("true"), CheckLiteral::Bool(true)));
    assert!(matches!(classify_check_literal("1.5"), CheckLiteral::FloatOrText(_)));
}

#[test]
fn check_expression_evaluation() {
    let row = props(&[("age", Value::Int(20)), ("name", Value::String("bob".to_string()))]);
    assert_eq!(evaluate_check("n.age > 18", &row), Ok(Some(true)));
    assert_eq!(evaluate_check("n.age < 18", &row), Ok(Some(false)));
    assert_eq!(evaluate_check("n.age = 20", &row), Ok(Some(true)));
    assert_eq!(evaluate_check("n.age <> 20", &row), Ok(Some(false)));
    assert_eq!(evaluate_check("n.name = 'bob'", &row), Ok(Some(true)));
    assert_eq!(evaluate_check("n.name < 'carl'", &row), Ok(Some(true)));
    assert_eq!(evaluate_check("n.missing > 1", &row), Ok(Some(true)));
    assert_eq!(evaluate_check("n.age ~ 1", &row), Ok(Some(true)));
    assert_eq!(evaluate_check("complex expression here ok", &row), Ok(Some(true)));
    assert_eq!(evaluate_check("n.age > 'x'", &row), Err("Cannot compare incompatible types".to_string()));
    assert_eq!(evaluate_check("n.age > 1.5", &row), Ok(None));
}

#[test]
fn decimal_integer_parsing_matches_std() {
    for s in [
        "0", "-0", "+5", "007", "42", "-17", "+", "-", "", " 1", "1 ", "1_000", "12a", "٣",
        "9223372036854775807", "9223372036854775808", "-9223372036854775808", "-9223372036854775809",
        "99999999999999999999999", "-99999999999999999999999x",
    ] {
        assert_eq!(uni_db::text::parse_i64(s), s.parse::<i64>().ok(), "{s}");
    }
    assert_eq!(uni_db::text::parse_i64("-9223372036854775808"), Some(i64::MIN));
}

#[test]
fn snapshot_counts_after_a_load() {
    use_snapshot_counts();
}

fn use_snapshot_counts() {
    use_counts(&mut vec![]);
}

fn use_counts(tables: &mut Vec<(String, uni_db::bulk::TableSnapshot)>) {
    uni_db::bulk::record_table_count(tables, "Person", 10);
    assert_eq!(tables.len(), 1);
    assert_eq!(tables[0].1, uni_db::bulk::TableSnapshot { version: 0, count: 10, lance_version: 0 });
    tables[0].1.version = 7;
    tables[0].1.lance_version = 3;
    uni_db::bulk::record_table_count(tables, "Person", 25);
    uni_db::bulk::record_table_count(tables, "KNOWS", 4);
    assert_eq!(tables.len(), 2);
    assert_eq!(tables[0].1, uni_db::bulk::TableSnapshot { version: 7, count: 25, lance_version: 0 });
    assert_eq!(tables[1].0, "KNOWS");
    assert_eq!(tables[1].1.count, 4);
}

#[test]
fn edge_flush_records_all_three_tables_once() {
    let mut w = BulkWriterBuilder::new(true).build().ok().unwrap();
    w.record_table_version("delta_R_fwd", Some(1));
    w.record_edge_flush_tables("delta_R_fwd", Some(7), "delta_R_bwd", Some(2), "edges_R", None);
    assert!(!w.needs_table_version("delta_R_fwd"));
    assert!(!w.needs_table_version("delta_R_bwd"));
    assert!(!w.needs_table_version("edges_R"));
    // The earlier recorded version is kept: rolling back restores version 1.
    let steps = w.abort_plan().ok().unwrap();
    let fwd = steps.iter().find(|s| matches!(s, RollbackStep::Rollback { table, .. } if table == "delta_R_fwd"));
    match fwd {
        Some(RollbackStep::Rollback { version, .. }) => assert_eq!(*version, 1),
        _ => panic!("forward delta table not restored"),
    }
}

#[test]
fn fresh_writer_statistics_are_the_defaults() {
    let w = BulkWriterBuilder::new(true).build().ok().unwrap();
    let s = w.stats();
    assert_eq!(s.vertices_inserted, 0);
    assert_eq!(s.edges_inserted, 0);
    assert_eq!(s.duration, Duration::ZERO);
    assert_eq!(s.index_build_duration, Duration::ZERO);
    assert!(s.index_task_ids.is_empty());
}

fn run_commit(w: &mut uni_db::bulk::BulkWriter, task_ids: Vec<String>) -> Vec<String> {
    let mut p = CommitProgress::new();
    let mut log = Vec::new();
    let mut event = CommitEvent::Proceed;
    let mut ids = Some(task_ids);
    loop {
        match w.commit_step(&mut p, event) {
            CommitAction::WriteVertices { label, rows } => log.push(format!("v:{label}:{}", rows.len())),
            CommitAction::WriteEdges { edge_type, edges } => log.push(format!("e:{edge_type}:{}", edges.len())),
            CommitAction::RebuildIndexes { label } => log.push(format!("r:{label}")),
            CommitAction::ScheduleRebuilds { labels } => {
                log.push(format!("s:{}", labels.len()));
                event = CommitEvent::Scheduled(ids.take().unwrap_or_default());
                continue;
            }
            CommitAction::WriteSnapshot { labels, edge_types } => {
                log.push(format!("snap:{}:{}", labels.len(), edge_types.len()))
            }
            CommitAction::Done => break,
        }
        event = CommitEvent::Proceed;
    }
    assert_eq!(p.stage(), CommitStage::Done);
    log
}

#[test]
fn blocking_commit_flushes_then_rebuilds_each_label_once() {
    let mut w = BulkWriterBuilder::new(true).build().ok().unwrap();
    w.buffer_vertices("A", vec![(1, vec![]), (2, vec![])]);
    w.buffer_vertices("B", vec![(3, vec![])]);
    w.buffer_vertices("A", vec![(4, vec![])]);
    let log = run_commit(&mut w, vec![]);
    assert_eq!(log, vec!["v:A:3", "v:B:1", "r:A", "r:B", "snap:2:0"]);
    assert_eq!(w.stats().indexes_rebuilt, 2);
    assert!(!w.stats().indexes_pending);
}

#[test]
fn background_commit_schedules_and_rebuilds_nothing() {
    let mut w = BulkWriterBuilder::new(true).async_indexes(true).build().ok().unwrap();
    w.buffer_vertices("A", vec![(1, vec![])]);
    let log = run_commit(&mut w, vec!["t1".to_string()]);
    assert_eq!(log, vec!["v:A:1", "s:1", "snap:1:0"]);
    assert_eq!(w.stats().indexes_rebuilt, 0);
    assert!(w.stats().indexes_pending);
    assert_eq!(w.stats().index_task_ids, vec!["t1".to_string()]);
}

#[test]
fn commit_without_deferred_indexes_goes_straight_to_snapshot() {
    let mut w = BulkWriterBuilder::new(true)
        .defer_vector_indexes(false)
        .defer_scalar_indexes(false)
        .build()
        .ok()
        .unwrap();
    w.buffer_vertices("A", vec![(1, vec![])]);
    let log = run_commit(&mut w, vec![]);
    assert_eq!(log, vec!["v:A:1", "snap:1:0"]);
    assert_eq!(w.stats().indexes_rebuilt, 0);
}
