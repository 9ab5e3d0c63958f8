use uni_db::errors::{map_config_error, map_plan_build_error, time_travel_in_transaction_error};
use uni_db::errors::{
    into_execution_error, into_parse_error, into_query_error, into_stream_error, map_compile_error,
    map_parse_error, map_runtime_error, memory_limit_error, normalize_error_message,
    query_cancelled_error, query_timed_out_error, read_only_violation, UniError,
};
use uni_db::plan_cache::{plan_cache_key, PlanCache, PlanCacheEntry};
use uni_db::value::Value;
use uni_db::verb::classify_verb;

#[test]
fn classify_verb_does_not_panic_on_multibyte_boundaries() {
    for pad in 0..40 {
        let cypher = format!("CREATE (:T)-[:`{}Î`]->(:T)", "x".repeat(pad));
        assert_eq!(classify_verb(&cypher), "write", "panicked or misclassified at pad={pad}");
    }
}

#[test]
fn classify_verb_still_recognises_keywords() {
    assert_eq!(classify_verb("  CREATE INDEX idx ON :T(x)"), "schema");
    assert_eq!(classify_verb("DROP CONSTRAINT c"), "schema");
    assert_eq!(classify_verb("CREATE (:Café {n: 'Ünter'})"), "write");
}

#[test]
fn classify_verb_handles_short_input() {
    assert_eq!(classify_verb("CREATE (:T)"), "write");
    assert_eq!(classify_verb(""), "write");
}

#[test]
fn classify_verb_other_schema_keywords() {
    assert_eq!(classify_verb("create label Person"), "schema");
    assert_eq!(classify_verb("grant read to bob"), "dbms");
    assert_eq!(classify_verb("\n SHOW USERS"), "dbms");
    assert_eq!(classify_verb("MATCH (n) RETURN n"), "write");
}

#[test]
fn plan_cache_key_is_deterministic() {
    let q = "MATCH (n) RETURN n";
    assert_eq!(plan_cache_key(q), plan_cache_key(q));
    assert_ne!(plan_cache_key(q), plan_cache_key("MATCH (m) RETURN m"));
}

#[test]
fn colliding_keys_with_different_query_text_miss() {
    let schema_version = 7;
    let query_a = "MATCH (n:Person) RETURN n";
    let query_b = "CREATE (n:Hacker)";
    let key_a = plan_cache_key(query_a);
    let mut cache: PlanCache<String> = PlanCache::new(10);
    cache.insert(
        key_a,
        PlanCacheEntry {
            plan: "plan_for_query_a".to_string(),
            query: query_a.to_string(),
            schema_version,
            hit_count: 0,
        },
    );
    let colliding_key = key_a;
    assert!(
        cache.get(colliding_key, query_b, schema_version).is_none(),
        "a colliding key with different query text must miss"
    );
    let entry = cache
        .get(key_a, query_a, schema_version)
        .expect("first query must still hit after a collision lookup");
    assert_eq!(entry.plan, "plan_for_query_a", "query A must get its own plan back");
}

#[test]
fn plan_cache_stale_schema_version_evicts() {
    let q = "MATCH (n) RETURN n";
    let key = plan_cache_key(q);
    let mut cache: PlanCache<u32> = PlanCache::new(4);
    cache.insert(key, PlanCacheEntry { plan: 1, query: q.to_string(), schema_version: 3, hit_count: 0 });
    assert!(cache.get(key, q, 4).is_none());
    assert_eq!(cache.len(), 0);
}

#[test]
fn plan_cache_hit_counts_and_eviction() {
    let mut cache: PlanCache<u32> = PlanCache::new(2);
    cache.insert(1, PlanCacheEntry { plan: 10, query: "a".to_string(), schema_version: 0, hit_count: 0 });
    cache.insert(2, PlanCacheEntry { plan: 20, query: "b".to_string(), schema_version: 0, hit_count: 0 });
    let hit = cache.get(1, "a", 0).unwrap();
    assert_eq!(hit.hit_count, 1);
    assert_eq!(hit.plan, 10);
    // Full: the least used entry (key 2) leaves.
    cache.insert(3, PlanCacheEntry { plan: 30, query: "c".to_string(), schema_version: 0, hit_count: 0 });
    assert_eq!(cache.len(), 2);
    assert!(cache.get(2, "b", 0).is_none());
    assert_eq!(cache.get(1, "a", 0).unwrap().plan, 10);
    assert_eq!(cache.get(3, "c", 0).unwrap().plan, 30);
}

#[test]
fn plan_cache_effective_key_with_folded_params() {
    let mut cache: PlanCache<u32> = PlanCache::new(2);
    let params_a = vec![("x".to_string(), Value::Int(1))];
    let params_b = vec![("x".to_string(), Value::Int(2))];
    assert_eq!(cache.effective_key(77, &params_a), 77);
    cache.note_folded_params(77, vec![]);
    assert_eq!(cache.effective_key(77, &params_a), 77);
    cache.note_folded_params(77, vec!["x".to_string()]);
    let ka = cache.effective_key(77, &params_a);
    let kb = cache.effective_key(77, &params_b);
    assert_ne!(ka, 77);
    assert_ne!(ka, kb);
    assert_eq!(ka, cache.effective_key(77, &params_a));
}

#[test]
fn normalize_error_message_tags_known_planner_errors() {
    assert_eq!(
        normalize_error_message("Error during planning: UDF foo is not registered", "RETURN foo()"),
        "SyntaxError: UnknownFunction - Error during planning: UDF foo is not registered"
    );
    assert_eq!(
        normalize_error_message("InvalidNumberOfArguments: Procedure x got 0", "CALL x() YIELD y"),
        "SyntaxError: InvalidArgumentPassingMode - InvalidNumberOfArguments: Procedure x got 0"
    );
    assert_eq!(
        normalize_error_message("InvalidNumberOfArguments: Procedure x got 0", "CALL x()"),
        "ParameterMissing: MissingParameter - InvalidNumberOfArguments: Procedure x got 0"
    );
    assert_eq!(
        normalize_error_message("MERGE node must have a label", "MERGE (n {a: $param})"),
        "SyntaxError: InvalidParameterUse - MERGE node must have a label"
    );
    assert_eq!(
        normalize_error_message("MERGE node must have a label", "MERGE (a)-[:R*]->(b)"),
        "SyntaxError: CreatingVarLength - MERGE node must have a label"
    );
    assert_eq!(
        normalize_error_message("MERGE node must have a label", "MERGE (n) ON CREATE SET x.a = 1"),
        "SyntaxError: UndefinedVariable - MERGE node must have a label"
    );
    assert_eq!(normalize_error_message("MERGE node must have a label", "MERGE (n)"), "MERGE node must have a label");
    assert_eq!(normalize_error_message("something else", "RETURN 1"), "something else");
}

#[test]
fn error_conversions_pick_the_variant() {
    assert_eq!(
        into_parse_error("bad"),
        UniError::Parse { message: "bad".to_string(), context: None }
    );
    assert_eq!(
        into_query_error("Expected aggregate function, got: BinaryOp", "RETURN 1"),
        UniError::Parse {
            message: "SyntaxError: AmbiguousAggregationExpression - Expected aggregate function, got: BinaryOp".to_string(),
            context: Some("RETURN 1".to_string()),
        }
    );
    assert_eq!(
        into_query_error("boom", "RETURN 1"),
        UniError::Query { message: "boom".to_string(), query: Some("RETURN 1".to_string()) }
    );
    assert_eq!(into_execution_error("Query cancelled", "q", None, 5), UniError::Cancelled);
    assert_eq!(into_execution_error("Query timed out", "q", None, 5), UniError::Timeout { timeout_ms: 5 });
    assert_eq!(
        into_execution_error("anything", "q", Some("stopped at 3".to_string()), 5),
        UniError::GraphComputeIncomplete { detail: "stopped at 3".to_string() }
    );
    assert_eq!(
        into_execution_error("TypeError: bad", "q", None, 5),
        UniError::Type { expected: "TypeError: bad".to_string(), actual: String::new() }
    );
    assert_eq!(
        into_execution_error("ConstraintVerificationFailed: x", "q", None, 5),
        UniError::Constraint { message: "ConstraintVerificationFailed: x".to_string() }
    );
    assert_eq!(
        into_stream_error("Query cancelled", "q", None),
        UniError::Query { message: "Query cancelled".to_string(), query: Some("q".to_string()) }
    );
    assert_eq!(query_timed_out_error(9), UniError::Timeout { timeout_ms: 9 });
    assert_eq!(query_cancelled_error(), UniError::Cancelled);
}

#[test]
fn memory_limit_and_read_only_messages() {
    assert_eq!(
        memory_limit_error(2048, 1024, "MATCH (n) RETURN n"),
        UniError::Query {
            message: "Query exceeded memory limit (2048 bytes > 1024 byte limit)".to_string(),
            query: Some("MATCH (n) RETURN n".to_string()),
        }
    );
    match read_only_violation("CREATE (n)") {
        UniError::Query { message, query } => {
            assert!(message.starts_with("Session.query() is read-only."));
            assert_eq!(query, Some("CREATE (n)".to_string()));
        }
        other => panic!("unexpected {other:?}"),
    }
}

#[test]
fn rule_error_mapping() {
    assert_eq!(
        map_parse_error("x"),
        UniError::Parse { message: "LocyParseError: x".to_string(), context: None }
    );
    assert_eq!(
        map_compile_error("y"),
        UniError::Query { message: "LocyCompileError: y".to_string(), query: None }
    );
    assert_eq!(
        map_runtime_error("z", true),
        UniError::Transaction { message: "LocyRuntimeError: z".to_string() }
    );
    assert_eq!(
        map_runtime_error("z", false),
        UniError::Query { message: "LocyRuntimeError: z".to_string(), query: None }
    );
}

#[test]
fn verb_ignores_text_after_the_window() {
    let head = "  CREATE INDEX idx_people_by_name_x ON";
    let long = format!("{head} :Person(name) {}", "é".repeat(100));
    assert_eq!(classify_verb(head), "schema");
    assert_eq!(classify_verb(&long), "schema");
    // A keyword that starts past the window is not seen.
    let late = format!("{}CREATE INDEX", "x".repeat(40));
    assert_eq!(classify_verb(&late), "write");
}

#[test]
fn normalized_text_keeps_the_raw_message() {
    for raw in [
        "Error during planning: UDF f is not registered",
        "MERGE edge must have a type",
        "plain failure",
    ] {
        let n = normalize_error_message(raw, "MERGE (a)-[r]->(b)");
        assert!(n.ends_with(raw));
    }
}

#[test]
fn statement_level_errors() {
    assert_eq!(
        time_travel_in_transaction_error("MATCH (n) RETURN n VERSION AS OF 3"),
        UniError::Query {
            message: "Time-travel queries are not supported within transactions".to_string(),
            query: Some("MATCH (n) RETURN n VERSION AS OF 3".to_string()),
        }
    );
    assert_eq!(
        map_config_error("bad mode"),
        UniError::Query { message: "LocyConfigError: bad mode".to_string(), query: None }
    );
    assert_eq!(
        map_plan_build_error("x"),
        UniError::Query { message: "LocyPlanBuildError: x".to_string(), query: None }
    );
}

#[test]
fn cached_execution_steps() {
    let params = vec![("n".to_string(), Value::Int(5))];
    let mut cache: PlanCache<String> = PlanCache::new(3);
    let q = "MATCH (n) RETURN n LIMIT $n";
    assert!(cache.cached_plan(q, &params, 1).is_none());
    cache.cache_plan(q, &params, vec!["n".to_string()], "limit-5".to_string(), 1);
    assert_eq!(cache.cached_plan(q, &params, 1), Some(&"limit-5".to_string()));
    // Another LIMIT value gets its own entry.
    let other = vec![("n".to_string(), Value::Int(6))];
    assert!(cache.cached_plan(q, &other, 1).is_none());
    // A schema change invalidates the plan.
    assert!(cache.cached_plan(q, &params, 2).is_none());
    assert!(cache.cached_plan(q, &params, 1).is_none());
    // Without folded parameters the plan is shared by every value.
    let plain = "MATCH (n) RETURN n";
    cache.cache_plan(plain, &params, vec![], "scan".to_string(), 1);
    assert_eq!(cache.cached_plan(plain, &other, 1), Some(&"scan".to_string()));
}

#[test]
fn yield_is_found_in_any_case() {
    assert_eq!(
        normalize_error_message("InvalidNumberOfArguments: Procedure p got 0", "call p() yield x"),
        "SyntaxError: InvalidArgumentPassingMode - InvalidNumberOfArguments: Procedure p got 0"
    );
}

#[test]
fn verb_ignores_ascii_case() {
    assert_eq!(classify_verb("create index i on :T(x)"), "schema");
    assert_eq!(classify_verb("CREATE INDEX i ON :T(x)"), "schema");
    assert_eq!(classify_verb("grant role r to u"), "dbms");
    assert_eq!(classify_verb("\u{3000}\u{2028}show users"), "dbms");
    assert_eq!(classify_verb("match (n) return n"), "write");
}

#[test]
fn unrecognised_error_text_is_kept() {
    let raw = "Query error: division by zero";
    assert_eq!(normalize_error_message(raw, "MATCH (n) MERGE (m) RETURN n"), raw);
    assert_eq!(normalize_error_message("", "anything"), "");
}

#[test]
fn yield_is_matched_whatever_its_case() {
    let raw = "InvalidNumberOfArguments: Procedure p expected 1 argument, got 0";
    let upper = normalize_error_message(raw, "CALL p() YIELD x");
    let lower = normalize_error_message(raw, "call p() yield x");
    assert_eq!(upper, lower);
    assert!(lower.starts_with("SyntaxError: InvalidArgumentPassingMode - "));
    assert!(normalize_error_message(raw, "CALL p()").starts_with("ParameterMissing: MissingParameter - "));
}
