//! Session state that the query paths consult: metrics counters and their
//! snapshot, capabilities, version pinning, the parameter merge, the read
//! path's choice between the plan cache and a custom configuration, and the
//! plan-cache steps of a cached execution.
use vstd::prelude::*;
use std::time::{Duration, Instant};
use crate::errors::UniError;
use crate::params::Params;
use crate::plan_cache::{PlanCache, bumped, cached_plan_for, folded_after, key_for, same_query, text_key};
use crate::errors::{into_parse_error, into_query_error, normalized, read_only_violation, read_only_text};
use crate::text::starts_with;
use crate::text::owned;
use crate::transaction::IsolationLevel;
use crate::value::Value;

verus! {

/// `std::time::Instant`, carried as an opaque value.
#[verifier::external_type_specification]
#[verifier::external_body]
pub struct ExInstant(Instant);

/// The counters a session accumulates (each wraps on overflow, as an atomic
/// counter does).
pub struct SessionMetricsInner {
    pub queries_executed: u64,
    pub locy_evaluations: u64,
    pub total_query_time_us: u64,
    pub transactions_committed: u64,
    pub transactions_rolled_back: u64,
    pub total_rows_returned: u64,
    pub total_rows_scanned: u64,
}

/// `a + b` wrapped to 64 bits.
pub open spec fn wrap_add(a: u64, b: u64) -> u64 {
    ((a as int + b as int) % 0x1_0000_0000_0000_0000) as u64
}

impl SessionMetricsInner {
    /// All counters at zero.
    pub fn new() -> (r: Self)
        ensures
            r.queries_executed == 0,
            r.locy_evaluations == 0,
            r.total_query_time_us == 0,
            r.transactions_committed == 0,
            r.transactions_rolled_back == 0,
            r.total_rows_returned == 0,
            r.total_rows_scanned == 0,
    {
        SessionMetricsInner {
            queries_executed: 0,
            locy_evaluations: 0,
            total_query_time_us: 0,
            transactions_committed: 0,
            transactions_rolled_back: 0,
            total_rows_returned: 0,
            total_rows_scanned: 0,
        }
    }

    /// Counts one executed query with its time and rows.
    pub fn record_query(&mut self, time_us: u64, rows_returned: u64, rows_scanned: u64)
        ensures
            final(self).queries_executed == wrap_add(old(self).queries_executed, 1),
            final(self).total_query_time_us == wrap_add(old(self).total_query_time_us, time_us),
            final(self).total_rows_returned == wrap_add(old(self).total_rows_returned, rows_returned),
            final(self).total_rows_scanned == wrap_add(old(self).total_rows_scanned, rows_scanned),
            final(self).locy_evaluations == old(self).locy_evaluations,
            final(self).transactions_committed == old(self).transactions_committed,
            final(self).transactions_rolled_back == old(self).transactions_rolled_back,
    {
        self.queries_executed = self.queries_executed.wrapping_add(1);
        self.total_query_time_us = self.total_query_time_us.wrapping_add(time_us);
        self.total_rows_returned = self.total_rows_returned.wrapping_add(rows_returned);
        self.total_rows_scanned = self.total_rows_scanned.wrapping_add(rows_scanned);
    }

    /// Counts one rule-program evaluation.
    pub fn record_locy(&mut self)
        ensures
            final(self).locy_evaluations == wrap_add(old(self).locy_evaluations, 1),
            final(self).queries_executed == old(self).queries_executed,
            final(self).transactions_committed == old(self).transactions_committed,
            final(self).transactions_rolled_back == old(self).transactions_rolled_back,
    {
        self.locy_evaluations = self.locy_evaluations.wrapping_add(1);
    }

    /// Counts one committed transaction.
    pub fn record_commit(&mut self)
        ensures
            final(self).transactions_committed == wrap_add(old(self).transactions_committed, 1),
            final(self).transactions_rolled_back == old(self).transactions_rolled_back,
            final(self).queries_executed == old(self).queries_executed,
    {
        self.transactions_committed = self.transactions_committed.wrapping_add(1);
    }

    /// Counts one rolled-back transaction.
    pub fn record_rollback(&mut self)
        ensures
            final(self).transactions_rolled_back == wrap_add(old(self).transactions_rolled_back, 1),
            final(self).transactions_committed == old(self).transactions_committed,
            final(self).queries_executed == old(self).queries_executed,
    {
        self.transactions_rolled_back = self.transactions_rolled_back.wrapping_add(1);
    }
}

/// Snapshot of session-level metrics.
#[derive(Debug, Clone)]
pub struct SessionMetrics {
    pub session_id: String,
    /// When the session was created.
    pub active_since: Instant,
    pub queries_executed: u64,
    pub locy_evaluations: u64,
    /// Total time spent executing queries.
    pub total_query_time: Duration,
    pub transactions_committed: u64,
    pub transactions_rolled_back: u64,
    pub total_rows_returned: u64,
    /// Rows read by scans (a query answered from an index or cached plan
    /// alone contributes nothing).
    pub total_rows_scanned: u64,
    pub plan_cache_hits: u64,
    pub plan_cache_misses: u64,
    pub plan_cache_size: usize,
}

/// `Instant`'s `Clone`: `Instant` is `Copy`, so the clone is the value itself.
pub assume_specification[ <std::time::Instant as Clone>::clone ](i: &Instant) -> (r: Instant)
    ensures
        r == *i,
;

/// The `Duration` of `us` microseconds.
pub uninterp spec fn micros_duration(us: u64) -> Duration;

/// `Duration::from_micros`: believed to be a function of the count alone
/// (named `micros_duration`).
#[verifier::external_body]
pub(crate) fn duration_from_micros(us: u64) -> (r: Duration)
    ensures
        r == micros_duration(us),
{
    Duration::from_micros(us)
}

/// The metrics snapshot of session `session_id`, created at `active_since`,
/// from its counters and its plan cache's hit, miss and size figures.
pub fn metrics_snapshot(
    inner: &SessionMetricsInner,
    session_id: &str,
    active_since: Instant,
    plan_cache_hits: u64,
    plan_cache_misses: u64,
    plan_cache_size: usize,
) -> (r: SessionMetrics)
    ensures
        r.session_id@ == session_id@,
        r.active_since == active_since,
        r.queries_executed == inner.queries_executed,
        r.locy_evaluations == inner.locy_evaluations,
        r.total_query_time == micros_duration(inner.total_query_time_us),
        r.transactions_committed == inner.transactions_committed,
        r.transactions_rolled_back == inner.transactions_rolled_back,
        r.total_rows_returned == inner.total_rows_returned,
        r.total_rows_scanned == inner.total_rows_scanned,
        r.plan_cache_hits == plan_cache_hits,
        r.plan_cache_misses == plan_cache_misses,
        r.plan_cache_size == plan_cache_size,
{
    SessionMetrics {
        session_id: owned(session_id),
        active_since,
        queries_executed: inner.queries_executed,
        locy_evaluations: inner.locy_evaluations,
        total_query_time: duration_from_micros(inner.total_query_time_us),
        transactions_committed: inner.transactions_committed,
        transactions_rolled_back: inner.transactions_rolled_back,
        total_rows_returned: inner.total_rows_returned,
        total_rows_scanned: inner.total_rows_scanned,
        plan_cache_hits,
        plan_cache_misses,
        plan_cache_size,
    }
}

/// Summary of the write lease strategy in effect.
#[derive(Debug, Clone)]
pub enum WriteLeaseSummary {
    /// Local single-process lock.
    Local,
    /// DynamoDB-based distributed lease.
    DynamoDB { table: String },
    /// Custom lease provider.
    Custom,
}

/// What a session can do in its current mode.
#[derive(Debug, Clone)]
pub struct SessionCapabilities {
    /// Whether the session can start transactions and write.
    pub can_write: bool,
    /// Whether the session supports pinning to a version.
    pub can_pin: bool,
    /// The isolation level of the session's transactions.
    pub isolation: IsolationLevel,
    /// Whether commit notifications are available.
    pub has_notifications: bool,
    /// The write lease strategy, if any.
    pub write_lease: Option<WriteLeaseSummary>,
}

/// The capabilities of a session over a database that accepts writes when
/// `writable`, pinned when `pinned`: it writes only when the database does
/// and it is not pinned; it can always pin and be notified.
pub fn capabilities(writable: bool, pinned: bool, write_lease: Option<WriteLeaseSummary>) -> (r: SessionCapabilities)
    ensures
        r.can_write == (writable && !pinned),
        r.can_pin,
        r.isolation == IsolationLevel::Serialized,
        r.has_notifications,
        r.write_lease == write_lease,
{
    SessionCapabilities {
        can_write: writable && !pinned,
        can_pin: true,
        isolation: IsolationLevel::default(),
        has_notifications: true,
        write_lease,
    }
}

/// Whether a pinned session may start a transaction: it may not.
pub fn transaction_gate(pinned: bool) -> (r: Result<(), UniError>)
    ensures
        pinned ==> (r matches Err(UniError::ReadOnly { operation }) && operation@ == "start_transaction"@),
        !pinned ==> r is Ok,
{
    if pinned {
        return Err(UniError::ReadOnly { operation: owned("start_transaction") });
    }
    Ok(())
}

/// Whether a pinned session may start a scratch transaction: it may not.
pub fn scratch_gate(pinned: bool) -> (r: Result<(), UniError>)
    ensures
        pinned ==> (r matches Err(UniError::ReadOnly { operation }) && operation@
            == "start_scratch_transaction"@),
        !pinned ==> r is Ok,
{
    if pinned {
        return Err(UniError::ReadOnly { operation: owned("start_scratch_transaction") });
    }
    Ok(())
}

/// Whether a failed attempt is retried: only a retriable failure, and only
/// while attempts remain.
pub fn should_retry(retriable: bool, attempt: u32, max_attempts: u32) -> (r: bool)
    ensures
        r == (retriable && attempt < max_attempts),
{
    retriable && attempt < max_attempts
}

/// Which database handle a session reads through: the live one, or a pinned
/// snapshot with the live one kept aside.
pub struct PinState<H> {
    current: H,
    kept_live: Option<H>,
}

impl<H> PinState<H> {
    /// The handle reads go through.
    pub closed spec fn spec_current(&self) -> H {
        self.current
    }

    /// The live handle.
    pub closed spec fn spec_live(&self) -> H {
        match self.kept_live {
            Some(o) => o,
            None => self.current,
        }
    }

    pub closed spec fn spec_pinned(&self) -> bool {
        self.kept_live is Some
    }

    /// An unpinned session reads through its live handle.
    pub proof fn lemma_unpinned_reads_live(&self)
        ensures
            !self.spec_pinned() ==> self.spec_current() == self.spec_live(),
    {
    }

    /// Unpinned, reading through `live`.
    pub fn new(live: H) -> (r: Self)
        ensures
            r.spec_current() == live,
            r.spec_live() == live,
            !r.spec_pinned(),
    {
        PinState { current: live, kept_live: None }
    }

    /// Whether the session is pinned.
    pub fn is_pinned(&self) -> (r: bool)
        ensures
            r == self.spec_pinned(),
    {
        self.kept_live.is_some()
    }

    /// The handle reads go through.
    pub fn current(&self) -> (r: &H)
        ensures
            *r == self.spec_current(),
    {
        &self.current
    }

    /// The live handle, from which snapshots are resolved.
    pub fn live(&self) -> (r: &H)
        ensures
            *r == self.spec_live(),
    {
        match &self.kept_live {
            Some(o) => o,
            None => &self.current,
        }
    }

    /// Pins to `snapshot`; the live handle is kept however often the session
    /// is re-pinned.
    pub fn pin(&mut self, snapshot: H)
        ensures
            final(self).spec_current() == snapshot,
            final(self).spec_live() == old(self).spec_live(),
            final(self).spec_pinned(),
    {
        let mut prev = PinState { current: snapshot, kept_live: None };
        std::mem::swap(self, &mut prev);
        let PinState { current: old_current, kept_live } = prev;
        match kept_live {
            Some(o) => {
                self.kept_live = Some(o);
            },
            None => {
                self.kept_live = Some(old_current);
            },
        }
    }

    /// Unpins: reads go through the live handle again.
    pub fn refresh(&mut self)
        ensures
            final(self).spec_current() == old(self).spec_live(),
            final(self).spec_live() == old(self).spec_live(),
            !final(self).spec_pinned(),
            !old(self).spec_pinned() ==> final(self).spec_current() == old(self).spec_current(),
    {
        let taken = self.kept_live.take();
        match taken {
            Some(o) => {
                self.current = o;
            },
            None => {},
        }
    }
}

/// However often a session is re-pinned, refreshing brings its reads back
/// to the live handle it had before the first pin.
pub proof fn law_refresh_returns_to_live<H>(start: PinState<H>, pinned: PinState<H>, refreshed: PinState<H>)
    requires
        pinned.spec_live() == start.spec_live(),
        refreshed.spec_current() == pinned.spec_live(),
        !refreshed.spec_pinned(),
    ensures
        refreshed.spec_current() == start.spec_live(),
        refreshed.spec_live() == start.spec_live(),
{
    assert(refreshed.spec_live() == refreshed.spec_current());
}

/// `after` is what pinning `before` gives (see [`PinState::pin`]): pinned,
/// with the same live handle.
pub open spec fn pin_step<H>(before: PinState<H>, after: PinState<H>) -> bool {
    after.spec_live() == before.spec_live() && after.spec_pinned()
}

proof fn lemma_pins_keep_live<H>(states: Seq<PinState<H>>, i: int)
    requires
        0 <= i < states.len(),
        forall|j: int| 0 <= j < states.len() - 1 ==> pin_step(#[trigger] states[j], states[j + 1]),
    ensures
        states[i].spec_live() == states[0].spec_live(),
    decreases i,
{
    if i > 0 {
        lemma_pins_keep_live(states, i - 1);
        assert(pin_step(states[i - 1], states[i]));
    }
}

/// A session that starts unpinned and is pinned any number of times, then
/// refreshed, reads through the handle it started with: the live one, not
/// an intermediate pin.
pub proof fn law_pins_then_refresh<H>(states: Seq<PinState<H>>, refreshed: PinState<H>)
    requires
        states.len() >= 1,
        !states[0].spec_pinned(),
        forall|j: int| 0 <= j < states.len() - 1 ==> pin_step(#[trigger] states[j], states[j + 1]),
        refreshed.spec_current() == states.last().spec_live(),
        !refreshed.spec_pinned(),
    ensures
        refreshed.spec_current() == states[0].spec_current(),
{
    lemma_pins_keep_live(states, states.len() - 1);
    states[0].lemma_unpinned_reads_live();
}

/// The value `k` has in the merged `session` map: the query's own binding
/// in an existing `session` map wins over the session's parameter.
pub open spec fn merged_lookup(q: Map<Seq<char>, Value>, s: Map<Seq<char>, Value>, k: Seq<char>) -> Option<Value> {
    let from_query = if q.contains_key("session"@) {
        match q["session"@] {
            Value::Dict(existing) => crate::plan_cache::param_lookup(existing@, k),
            _ => None,
        }
    } else {
        None
    };
    if from_query is Some {
        from_query
    } else if s.contains_key(k) {
        Some(s[k])
    } else {
        None
    }
}

/// Whether the query binds `session` to something other than a map.
pub open spec fn session_bound_to_non_map(q: Map<Seq<char>, Value>) -> bool {
    q.contains_key("session"@) && !(q["session"@] is Dict)
}

/// The parameters a query runs with: its own, plus the session's under the
/// name `session` — merged into an existing map bound there (the query's own
/// entries win), or bound as a new map when the query binds no `session`.
/// Per-query parameters take precedence: a `session` the query binds to
/// anything other than a map is kept as it is. Without session parameters
/// the query's are used as they are.
pub fn merge_params(session_params: Params, query_params: Params) -> (r: Params)
    requires
        session_params.wf(),
        query_params.wf(),
    ensures
        r.wf(),
        session_params.view_map().len() == 0 ==> r.view_map() == query_params.view_map(),
        session_bound_to_non_map(query_params.view_map()) ==> r.view_map() == query_params.view_map(),
        session_params.view_map().len() > 0 && !session_bound_to_non_map(query_params.view_map()) ==> {
            &&& r.view_map().remove("session"@) == query_params.view_map().remove("session"@)
            &&& r.view_map().contains_key("session"@)
            &&& r.view_map()["session"@] matches Value::Dict(d) && forall|k: Seq<char>|
                #![trigger crate::plan_cache::param_lookup(d@, k)]
                crate::plan_cache::param_lookup(d@, k) == merged_lookup(
                    query_params.view_map(),
                    session_params.view_map(),
                    k,
                )
        },
{
    if session_params.is_empty() {
        return query_params;
    }
    let keep = match query_params.get("session") {
        Some(Value::Dict(_)) => false,
        Some(_) => true,
        None => false,
    };
    if keep {
        return query_params;
    }
    let mut q = query_params;
    let ghost q0 = q.view_map();
    let ghost s0 = session_params.view_map();
    let ghost se = session_params.spec_entries();
    let prior = q.unset("session");
    let merged = match prior {
        Some(Value::Dict(existing)) => {
            let mut d = existing;
            let ghost ex = d@;
            let entries = session_params.into_entries();
            for e in it: entries
                invariant
                    it.seq() == se,
                    crate::params::distinct_names(se),
                    forall|k: Seq<char>|
                        #![trigger crate::plan_cache::param_lookup(d@, k)]
                        crate::plan_cache::param_lookup(d@, k) == if crate::plan_cache::param_lookup(ex, k) is Some {
                            crate::plan_cache::param_lookup(ex, k)
                        } else {
                            crate::plan_cache::param_lookup(se.take(it.index()), k)
                        },
            {
                let ghost before = d@;
                let ghost idx = it.index();
                let (k, v) = e;
                let ghost kk = k@;
                let ghost vv = v;
                match crate::plan_cache::find_param(&d, &k) {
                    Some(_) => {
                        proof {
                            assert forall|x: Seq<char>| #![trigger crate::plan_cache::param_lookup(d@, x)]
                                crate::plan_cache::param_lookup(d@, x) == if crate::plan_cache::param_lookup(ex, x) is Some {
                                    crate::plan_cache::param_lookup(ex, x)
                                } else {
                                    crate::plan_cache::param_lookup(se.take(idx + 1), x)
                                } by {
                                crate::plan_cache::lemma_lookup_push(se.take(idx), se[idx], x);
                                assert(se.take(idx + 1) =~= se.take(idx).push(se[idx]));
                            }
                        }
                    },
                    None => {
                        d.push((k, v));
                        proof {
                            assert forall|x: Seq<char>| #![trigger crate::plan_cache::param_lookup(d@, x)]
                                crate::plan_cache::param_lookup(d@, x) == if crate::plan_cache::param_lookup(ex, x) is Some {
                                    crate::plan_cache::param_lookup(ex, x)
                                } else {
                                    crate::plan_cache::param_lookup(se.take(idx + 1), x)
                                } by {
                                crate::plan_cache::lemma_lookup_push(before, d@.last(), x);
                                assert(before.push(d@.last()) =~= d@);
                                crate::plan_cache::lemma_lookup_push(se.take(idx), se[idx], x);
                                assert(se.take(idx + 1) =~= se.take(idx).push(se[idx]));
                            }
                        }
                    },
                }
            }
            proof {
                assert(se.take(se.len() as int) =~= se);
            }
            d
        },
        _ => session_params.into_entries(),
    };
    proof {
        assert forall|k: Seq<char>| #![trigger crate::plan_cache::param_lookup(se, k)]
            crate::plan_cache::param_lookup(se, k) == if s0.contains_key(k) { Some(s0[k]) } else { None } by {
            if s0.contains_key(k) {
                let i = choose|i: int| 0 <= i < se.len() && (#[trigger] se[i]).0@ == k;
                crate::params::lemma_entry_at(se, i);
                assert forall|j: int| 0 <= j < i implies (#[trigger] se[j]).0@ != k by {
                    assert(se[j].0@ != se[i].0@);
                }
                crate::plan_cache::lemma_lookup_first(se, k, i);
            } else {
                assert forall|j: int| 0 <= j < se.len() implies (#[trigger] se[j]).0@ != k by {
                    if se[j].0@ == k {
                        assert(crate::params::binds(se, k));
                    }
                }
                crate::plan_cache::lemma_lookup_absent(se, k);
            }
        }
    }
    let ghost mv = merged@;
    q.set(owned("session"), Value::Dict(merged));
    proof {
        assert(q.view_map().remove("session"@) =~= q0.remove("session"@));
    }
    q
}

/// The plan cache's hit and miss counts (each wraps on overflow, as an
/// atomic counter does).
pub struct PlanCacheCounters {
    pub hits: u64,
    pub misses: u64,
}

impl PlanCacheCounters {
    /// Both counts at zero.
    pub fn new() -> (r: Self)
        ensures
            r.hits == 0 && r.misses == 0,
    {
        PlanCacheCounters { hits: 0, misses: 0 }
    }
}

/// The lookup step of a cached read: the cached plan for `cypher` with the
/// bound parameters `params` at schema version `schema_version`, if any,
/// with the hit or the miss counted (see [`PlanCache::cached_plan`]).
pub fn cached_lookup<'a, P>(
    cache: &'a mut PlanCache<P>,
    counters: &mut PlanCacheCounters,
    cypher: &str,
    params: &Vec<(String, Value)>,
    schema_version: u32,
) -> (r: Option<&'a P>)
    requires
        cached_plan_for(old(cache).entries(), key_for(old(cache).folded(), text_key(cypher@), params@), cypher@, schema_version) is Some
            ==> old(cache).entries()[key_for(old(cache).folded(), text_key(cypher@), params@)].hit_count < u64::MAX,
    ensures
        final(cache).folded() == old(cache).folded(),
        final(cache).capacity() == old(cache).capacity(),
        ({
            let k = key_for(old(cache).folded(), text_key(cypher@), params@);
            &&& (r is Some) == (cached_plan_for(old(cache).entries(), k, cypher@, schema_version) is Some)
            &&& r is Some ==> *r->0 == cached_plan_for(old(cache).entries(), k, cypher@, schema_version)->0
            &&& r is Some ==> final(cache).entries() == old(cache).entries().insert(k, bumped(old(cache).entries()[k]))
            &&& !same_query(old(cache).entries(), k, cypher@) ==> final(cache).entries() == old(cache).entries()
            &&& same_query(old(cache).entries(), k, cypher@) && r is None ==> final(cache).entries()
                == old(cache).entries().remove(k)
        }),
        r is Some ==> final(counters).hits == wrap_add(old(counters).hits, 1) && final(counters).misses
            == old(counters).misses,
        r is None ==> final(counters).misses == wrap_add(old(counters).misses, 1) && final(counters).hits
            == old(counters).hits,
{
    let r = cache.cached_plan(cypher, params, schema_version);
    if r.is_some() {
        counters.hits = counters.hits.wrapping_add(1);
    } else {
        counters.misses = counters.misses.wrapping_add(1);
    }
    r
}

/// What the parser, the read-only check and the planner made of a query
/// whose plan was not cached.
pub enum MissVerdict<P> {
    /// The parser refused it, with this text.
    ParseFailed(String),
    /// It parsed, but it writes (a mutation clause, a write nested in a
    /// subquery, or a write procedure).
    WritesRefused,
    /// A read at an earlier version: run without the cache.
    TimeTravel,
    /// The planner refused it, with this text.
    PlanFailed(String),
    /// Planned, folding the parameters `folded` into `plan`.
    Planned { plan: P, folded: Vec<String> },
}

/// The rest of a cached read after a miss, given the verdict on the query:
/// a parse failure, a write and a planning failure are refused, in that
/// order of checking, before anything is cached; a time-travel read runs
/// without touching the cache; a planned read is cached under its effective
/// key (see [`PlanCache::cache_plan`]) and then runs.
pub fn settle_cache_miss<P>(
    cache: &mut PlanCache<P>,
    cypher: &str,
    params: &Vec<(String, Value)>,
    schema_version: u32,
    verdict: MissVerdict<P>,
) -> (r: Result<(), UniError>)
    ensures
        match verdict {
            MissVerdict::ParseFailed(m) => (r matches Err(UniError::Parse { message, context })
                && message@ == m@ && context is None) && *final(cache) == *old(cache),
            MissVerdict::WritesRefused => (r matches Err(UniError::Query { message, query: Some(q) })
                && message@ == read_only_text() && q@ == cypher@) && *final(cache) == *old(cache),
            MissVerdict::TimeTravel => r is Ok && *final(cache) == *old(cache),
            MissVerdict::PlanFailed(m) => (r matches Err(e) && (if starts_with(normalized(m@, cypher@), "SyntaxError:"@) {
                e matches UniError::Parse { message, context: Some(c) } && message@ == normalized(m@, cypher@) && c@ == cypher@
            } else {
                e matches UniError::Query { message, query: Some(q) } && message@ == normalized(m@, cypher@) && q@ == cypher@
            })) && *final(cache) == *old(cache),
            MissVerdict::Planned { plan, folded } => r is Ok
                && final(cache).capacity() == old(cache).capacity()
                && final(cache).folded() == folded_after(old(cache).folded(), old(cache).capacity(), text_key(cypher@), folded)
                && ({
                    let k = key_for(final(cache).folded(), text_key(cypher@), params@);
                    &&& final(cache).entries().contains_key(k)
                    &&& final(cache).entries()[k].plan == plan
                    &&& final(cache).entries()[k].query@ == cypher@
                    &&& final(cache).entries()[k].schema_version == schema_version
                    &&& final(cache).entries()[k].hit_count == 0
                }),
        },
{
    match verdict {
        MissVerdict::ParseFailed(m) => Err(into_parse_error(m.as_str())),
        MissVerdict::WritesRefused => Err(read_only_violation(cypher)),
        MissVerdict::TimeTravel => Ok(()),
        MissVerdict::PlanFailed(m) => Err(into_query_error(m.as_str(), cypher)),
        MissVerdict::Planned { plan, folded } => {
            cache.cache_plan(cypher, params, folded, plan, schema_version);
            Ok(())
        },
    }
}

} // verus!
