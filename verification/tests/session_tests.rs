use std::time::{Duration, Instant};
use uni_db::errors::UniError;
use uni_db::params::Params;
use uni_db::prepared::PreparedPlan;
use uni_db::plan_cache::PlanCache;
use uni_db::session::{
    cached_lookup, settle_cache_miss, MissVerdict, PlanCacheCounters,
    capabilities, merge_params, metrics_snapshot, scratch_gate, should_retry, transaction_gate,
    PinState, SessionMetricsInner, WriteLeaseSummary,
};
use uni_db::transaction::{
    affected_rows, commit_hooks_verdict, start_transaction, version_gap_check, ApplyBuilder, IsolationLevel, TransactionState, WriteGuard,
};
use uni_db::value::Value;

#[test]
fn session_metrics_accumulate_and_wrap() {
    let mut m = SessionMetricsInner::new();
    assert_eq!(m.queries_executed, 0);
    m.record_query(150, 3, 10);
    m.record_query(50, 1, 0);
    m.record_locy();
    m.record_commit();
    m.record_rollback();
    assert_eq!(m.queries_executed, 2);
    assert_eq!(m.total_query_time_us, 200);
    assert_eq!(m.total_rows_returned, 4);
    assert_eq!(m.total_rows_scanned, 10);
    assert_eq!(m.locy_evaluations, 1);
    assert_eq!(m.transactions_committed, 1);
    assert_eq!(m.transactions_rolled_back, 1);
    m.total_rows_returned = u64::MAX;
    m.record_query(0, 2, 0);
    assert_eq!(m.total_rows_returned, 1);

    let now = Instant::now();
    let snap = metrics_snapshot(&m, "s1", now, 4, 5, 6);
    assert_eq!(snap.session_id, "s1");
    assert_eq!(snap.active_since, now);
    assert_eq!(snap.queries_executed, 3);
    assert_eq!(snap.total_query_time, Duration::from_micros(200));
    assert_eq!(snap.plan_cache_hits, 4);
    assert_eq!(snap.plan_cache_misses, 5);
    assert_eq!(snap.plan_cache_size, 6);
}

#[test]
fn session_capabilities_and_gates() {
    let c = capabilities(true, false, Some(WriteLeaseSummary::Local));
    assert!(c.can_write);
    assert!(c.can_pin);
    assert!(c.has_notifications);
    assert_eq!(c.isolation, IsolationLevel::Serialized);
    assert!(matches!(c.write_lease, Some(WriteLeaseSummary::Local)));
    assert!(!capabilities(true, true, None).can_write);
    assert!(!capabilities(false, false, None).can_write);
    assert_eq!(
        transaction_gate(true),
        Err(UniError::ReadOnly { operation: "start_transaction".to_string() })
    );
    assert!(transaction_gate(false).is_ok());
    assert_eq!(
        scratch_gate(true),
        Err(UniError::ReadOnly { operation: "start_scratch_transaction".to_string() })
    );
    assert!(scratch_gate(false).is_ok());
    assert!(should_retry(true, 1, 3));
    assert!(!should_retry(true, 3, 3));
    assert!(!should_retry(false, 0, 3));
}

#[test]
fn pinning_keeps_the_live_handle() {
    let mut p = PinState::new("live");
    assert!(!p.is_pinned());
    p.pin("snap-1");
    p.pin("snap-2");
    assert!(p.is_pinned());
    assert_eq!(*p.current(), "snap-2");
    assert_eq!(*p.live(), "live");
    p.refresh();
    assert!(!p.is_pinned());
    assert_eq!(*p.current(), "live");
    p.refresh();
    assert_eq!(*p.current(), "live");
}

#[test]
fn param_map_set_get_unset() {
    let mut m = Params::new();
    assert!(m.is_empty());
    m.set("a".to_string(), Value::Int(1));
    m.set("b".to_string(), Value::Int(2));
    m.set("a".to_string(), Value::Int(3));
    assert_eq!(m.len(), 2);
    assert_eq!(m.get("a"), Some(&Value::Int(3)));
    assert_eq!(m.unset("a"), Some(Value::Int(3)));
    assert_eq!(m.get("a"), None);
    assert_eq!(m.get("b"), Some(&Value::Int(2)));
    assert_eq!(m.unset("zz"), None);
    let mut other = Params::new();
    other.set("b".to_string(), Value::Int(9));
    other.set("c".to_string(), Value::Bool(true));
    m.extend(other);
    assert_eq!(m.len(), 2);
    assert_eq!(m.get("b"), Some(&Value::Int(9)));
    assert_eq!(m.get_all().len(), 2);
    m.set_all(vec![("z".to_string(), Value::Int(1)), ("z".to_string(), Value::Int(2)), ("b".to_string(), Value::Null)]);
    assert_eq!(m.get("z"), Some(&Value::Int(2)));
    assert_eq!(m.get("b"), Some(&Value::Null));
    assert_eq!(m.len(), 3);
    assert_eq!(m.into_entries().len(), 3);
}

#[test]
fn merge_params_nests_session_values() {
    let mut q = Params::new();
    q.set("x".to_string(), Value::Int(1));
    let merged = merge_params(Params::new(), q);
    assert_eq!(merged.len(), 1);
    assert_eq!(merged.get("session"), None);

    let mut s = Params::new();
    s.set("user".to_string(), Value::String("ann".to_string()));
    s.set("tenant".to_string(), Value::Int(7));
    let mut q = Params::new();
    q.set("x".to_string(), Value::Int(1));
    q.set(
        "session".to_string(),
        Value::Dict(vec![("user".to_string(), Value::String("bob".to_string()))]),
    );
    let merged = merge_params(s, q);
    assert_eq!(merged.get("x"), Some(&Value::Int(1)));
    match merged.get("session") {
        Some(Value::Dict(d)) => {
            assert_eq!(d.len(), 2);
            assert!(d.contains(&("user".to_string(), Value::String("bob".to_string()))));
            assert!(d.contains(&("tenant".to_string(), Value::Int(7))));
        }
        other => panic!("unexpected {other:?}"),
    }

    let mut s = Params::new();
    s.set("user".to_string(), Value::String("ann".to_string()));
    let mut q = Params::new();
    q.set("session".to_string(), Value::Int(3));
    // The query's own `session` value takes precedence.
    assert_eq!(merge_params(s, q).get("session"), Some(&Value::Int(3)));
    let mut s = Params::new();
    s.set("user".to_string(), Value::String("ann".to_string()));
    match merge_params(s, Params::new()).get("session") {
        Some(Value::Dict(d)) => assert_eq!(d, &vec![("user".to_string(), Value::String("ann".to_string()))]),
        other => panic!("unexpected {other:?}"),
    }
}

#[test]
fn transaction_lifecycle() {
    let mut tx = TransactionState::new("tx-1".to_string(), false);
    assert_eq!(tx.id(), "tx-1");
    assert!(tx.check_completed(false).is_ok());
    match tx.check_completed(true) {
        Err(UniError::TransactionExpired { tx_id, hint }) => {
            assert_eq!(tx_id, "tx-1");
            assert!(hint.starts_with("Transaction exceeded its timeout."));
        }
        other => panic!("unexpected {other:?}"),
    }
    let r: Result<u32, UniError> = tx.mark_on_err(Ok(5));
    assert_eq!(r, Ok(5));
    assert!(!tx.is_rollback_only());
    let r: Result<u32, UniError> = tx.mark_on_err(Err(UniError::Cancelled));
    assert_eq!(r, Err(UniError::Cancelled));
    assert!(tx.is_rollback_only());
    assert_eq!(tx.check_completed(false), Err(UniError::TransactionRollbackOnly));
    assert_eq!(tx.commit_check(false, true), Err(UniError::TransactionRollbackOnly));
    let mut g = WriteGuard::new();
    assert!(g.try_acquire("s").is_ok());
    assert!(tx.rollback(&mut g));
    assert!(g.try_acquire("s").is_ok());
    assert!(!tx.rollback(&mut g));
    assert!(g.try_acquire("s").is_err());
    assert!(tx.is_completed());
    assert!(!tx.release_on_drop(&mut g));
    assert!(g.try_acquire("s").is_err());
    assert_eq!(tx.check_completed(false), Err(UniError::TransactionAlreadyCompleted));
}

#[test]
fn commit_checks() {
    let tx = TransactionState::new("t".to_string(), false);
    assert!(tx.commit_check(false, true).is_ok());
    assert_eq!(tx.commit_check(false, false), Err(UniError::ReadOnly { operation: "commit".to_string() }));
    let scratch = TransactionState::new("s".to_string(), true);
    assert_eq!(
        scratch.commit_check(false, true),
        Err(UniError::ReadOnly {
            operation: "commit a scratch transaction (its writes are discarded on drop; use session.tx() to persist)".to_string()
        })
    );
    let mut done = TransactionState::new("d".to_string(), false);
    let mut g = WriteGuard::new();
    assert!(g.try_acquire("s").is_ok());
    done.mark_committed(&mut g);
    assert!(g.try_acquire("s").is_ok());
    assert_eq!(done.commit_check(false, true), Err(UniError::TransactionAlreadyCompleted));
}

#[test]
fn derived_fact_staleness() {
    assert_eq!(version_gap_check(5, 5, false, None), Ok(0));
    assert_eq!(version_gap_check(4, 5, false, None), Ok(0));
    assert_eq!(
        version_gap_check(8, 5, false, None),
        Err(UniError::StaleDerivedFacts { version_gap: 3 })
    );
    assert_eq!(version_gap_check(8, 5, false, Some(3)), Ok(3));
    assert_eq!(version_gap_check(8, 5, true, None), Ok(3));
    let tx = TransactionState::new("t".to_string(), false);
    assert_eq!(tx.apply_check(false, 8, 5, false, Some(2)), Err(UniError::StaleDerivedFacts { version_gap: 3 }));
    assert!(!tx.is_rollback_only());
    let b = ApplyBuilder::new();
    assert!(!b.allow_stale);
    assert_eq!(b.max_version_gap, None);
    let b = b.max_version_gap(4).allow_stale();
    assert!(b.allow_stale);
    assert_eq!(b.max_version_gap, Some(4));
    let b = b.require_fresh();
    assert!(!b.allow_stale);
    assert_eq!(b.max_version_gap, None);
}

#[test]
fn affected_rows_and_write_guard() {
    assert_eq!(affected_rows(3, 10, 20), 3);
    assert_eq!(affected_rows(0, 10, 14), 4);
    assert_eq!(affected_rows(0, 10, 4), 0);
    let mut g = WriteGuard::new();
    assert!(g.try_acquire("s").is_ok());
    match g.try_acquire("s") {
        Err(UniError::WriteContextAlreadyActive { session_id, hint }) => {
            assert_eq!(session_id, "s");
            assert!(hint.starts_with("Only one Transaction, BulkWriter, or Appender"));
        }
        other => panic!("unexpected {other:?}"),
    }
    g.release();
    assert!(g.try_acquire("s").is_ok());
    assert_eq!(IsolationLevel::default().to_string(), "Serialized");
}

#[test]
fn prepared_plans_replan_on_schema_change() {
    let mut p = PreparedPlan::new(1u32, 3);
    assert!(!p.needs_replan(3));
    assert!(p.needs_replan(4));
    assert_eq!(p.replanned(Err("no such label".to_string()), 4, "MATCH (n:X) RETURN n"),
        Err(UniError::Query { message: "no such label".to_string(), query: Some("MATCH (n:X) RETURN n".to_string()) }));
    assert_eq!(*p.plan(), 1);
    assert!(p.needs_replan(4));
    assert!(p.replanned(Ok(2), 4, "q").is_ok());
    assert_eq!(*p.plan(), 2);
    assert!(!p.needs_replan(4));
}

#[test]
fn properties_builder_later_value_wins() {
    use_properties_builder();
}

fn use_properties_builder() {
    let props = uni_db::builder::PropertiesBuilder::new()
        .add("a".to_string(), serde_json::Value::from(1))
        .add("b".to_string(), serde_json::Value::from("x"))
        .add("a".to_string(), serde_json::Value::from(2))
        .build();
    assert_eq!(props.len(), 2);
    assert!(props.contains(&("a".to_string(), serde_json::Value::from(2))));
    assert!(props.contains(&("b".to_string(), serde_json::Value::from("x"))));
    let empty = uni_db::builder::PropertiesBuilder::default().build();
    assert!(empty.is_empty());
}

#[test]
fn refresh_after_many_pins_returns_to_live() {
    let mut p = PinState::new(1u32);
    for snap in 2..6u32 {
        p.pin(snap);
        assert_eq!(*p.live(), 1);
    }
    p.refresh();
    assert_eq!(*p.current(), 1);
    assert!(!p.is_pinned());
}

#[test]
fn starting_transactions_and_the_write_guard() {
    let mut g = WriteGuard::new();
    // A pinned session is refused before the guard is touched.
    assert_eq!(
        start_transaction(&mut g, "s1", true, false, true),
        Err(UniError::ReadOnly { operation: "start_transaction".to_string() })
    );
    assert_eq!(
        start_transaction(&mut g, "s1", true, true, true),
        Err(UniError::ReadOnly { operation: "start_scratch_transaction".to_string() })
    );
    // A read-only database refuses and gives the guard back, every time.
    for _ in 0..2 {
        assert_eq!(
            start_transaction(&mut g, "s1", false, false, false),
            Err(UniError::ReadOnly { operation: "start_transaction".to_string() })
        );
    }
    // One write context at a time.
    assert!(start_transaction(&mut g, "s1", false, false, true).is_ok());
    match start_transaction(&mut g, "s1", false, false, true) {
        Err(UniError::WriteContextAlreadyActive { session_id, .. }) => assert_eq!(session_id, "s1"),
        other => panic!("unexpected {other:?}"),
    }
    let tx = TransactionState::new("t".to_string(), false);
    assert!(tx.release_on_drop(&mut g));
    assert!(start_transaction(&mut g, "s1", false, false, true).is_ok());
}

#[test]
fn cached_read_refused_as_write_caches_nothing() {
    let mut cache: PlanCache<u32> = PlanCache::new(8);
    let mut counters = PlanCacheCounters::new();
    let cypher = "CREATE (n:X)";
    let params: Vec<(String, Value)> = vec![];
    assert!(cached_lookup(&mut cache, &mut counters, cypher, &params, 1).is_none());
    assert_eq!((counters.hits, counters.misses), (0, 1));
    match settle_cache_miss(&mut cache, cypher, &params, 1, MissVerdict::WritesRefused) {
        Err(UniError::Query { message, query }) => {
            assert!(message.starts_with("Session.query() is read-only."));
            assert_eq!(query.as_deref(), Some(cypher));
        }
        other => panic!("unexpected {other:?}"),
    }
    assert_eq!(cache.len(), 0);
    assert_eq!((counters.hits, counters.misses), (0, 1));
}

#[test]
fn cached_read_plans_once_then_hits() {
    let mut cache: PlanCache<u32> = PlanCache::new(8);
    let mut counters = PlanCacheCounters::new();
    let cypher = "MATCH (n) RETURN n";
    let params: Vec<(String, Value)> = vec![];
    assert!(cached_lookup(&mut cache, &mut counters, cypher, &params, 3).is_none());
    let planned = MissVerdict::Planned { plan: 42u32, folded: vec![] };
    assert_eq!(settle_cache_miss(&mut cache, cypher, &params, 3, planned), Ok(()));
    assert_eq!(cache.len(), 1);
    assert_eq!(cached_lookup(&mut cache, &mut counters, cypher, &params, 3), Some(&42));
    assert_eq!((counters.hits, counters.misses), (1, 1));
    // Time travel and failures leave the cache alone.
    assert_eq!(settle_cache_miss(&mut cache, "x", &params, 3, MissVerdict::<u32>::TimeTravel), Ok(()));
    match settle_cache_miss(&mut cache, "x", &params, 3, MissVerdict::<u32>::ParseFailed("bad".to_string())) {
        Err(UniError::Parse { message, context }) => {
            assert_eq!(message, "bad");
            assert!(context.is_none());
        }
        other => panic!("unexpected {other:?}"),
    }
    assert_eq!(cache.len(), 1);
}

#[test]
fn refresh_unpinned_keeps_the_live_handle() {
    let mut p = PinState::new(7u32);
    p.refresh();
    assert_eq!(*p.current(), 7);
    assert!(!p.is_pinned());
}

#[test]
fn commit_hooks_first_refusal_decides() {
    assert_eq!(commit_hooks_verdict(vec![Ok(()), Ok(())], vec![None]), Ok(()));
    assert_eq!(
        commit_hooks_verdict(vec![Ok(()), Err(UniError::Cancelled), Err(UniError::TransactionRollbackOnly)], vec![Some("no".to_string())]),
        Err(UniError::Cancelled)
    );
    assert_eq!(
        commit_hooks_verdict(vec![Ok(())], vec![None, Some("quota".to_string()), Some("later".to_string())]),
        Err(UniError::HookRejected { message: "quota".to_string() })
    );
}
