//! Transaction lifecycle: which statements and commits a transaction still
//! accepts, how a failed statement poisons it, the staleness rule for
//! applying derived facts, and the one-write-context-per-session guard.
use vstd::prelude::*;
use crate::errors::UniError;
use crate::text::owned;

verus! {

/// Transaction isolation levels.
#[derive(Debug, Clone, Copy, PartialEq, Eq, Hash, Structural)]
#[non_exhaustive]
pub enum IsolationLevel {
    /// Serialized isolation.
    Serialized,
}

impl Default for IsolationLevel {
    fn default() -> (r: Self)
        ensures
            r == IsolationLevel::Serialized,
    {
        IsolationLevel::Serialized
    }
}

impl IsolationLevel {
    /// The level's display name.
    pub fn to_string(&self) -> (r: String)
        ensures
            r@ == "Serialized"@,
    {
        match self {
            IsolationLevel::Serialized => owned("Serialized"),
        }
    }
}

/// Result of applying a set of derived facts to a transaction.
#[derive(Debug)]
pub struct ApplyResult {
    /// Number of mutation queries replayed.
    pub facts_applied: usize,
    /// Number of versions committed between evaluating the facts and applying
    /// them; 0 means the data was fresh.
    pub version_gap: u64,
}

/// The hint carried by an expired-transaction error.
pub open spec fn expired_hint() -> Seq<char> {
    "Transaction exceeded its timeout. All operations are rejected. The transaction will auto-rollback on drop."@
}

/// The hint carried by a second-write-context error.
pub open spec fn write_context_hint() -> Seq<char> {
    "Only one Transaction, BulkWriter, or Appender can be active per Session at a time. Commit or rollback the active one first, or create a separate Session for concurrent writes."@
}

/// The lifecycle flags of a transaction.
pub ghost struct TxModel {
    /// Committed or rolled back.
    pub completed: bool,
    /// A statement failed: only rollback is possible.
    pub rollback_only: bool,
    /// A scratch transaction, whose writes are always discarded.
    pub ephemeral: bool,
}

/// Why a statement is refused, if it is: a completed transaction first, then
/// a poisoned one, then one past its deadline.
pub open spec fn refusal(m: TxModel, expired: bool) -> Option<int> {
    if m.completed {
        Some(0)
    } else if m.rollback_only {
        Some(1)
    } else if expired {
        Some(2)
    } else {
        None
    }
}

/// `e` is the error for refusal `k` of transaction `id`.
pub open spec fn refusal_error(k: int, id: Seq<char>, e: UniError) -> bool {
    if k == 0 {
        e == UniError::TransactionAlreadyCompleted
    } else if k == 1 {
        e == UniError::TransactionRollbackOnly
    } else {
        e matches UniError::TransactionExpired { tx_id, hint } && tx_id@ == id && hint@ == expired_hint()
    }
}

/// The flags after a statement ran: a failure poisons the transaction.
pub open spec fn after_statement(m: TxModel, failed: bool) -> TxModel {
    TxModel { rollback_only: m.rollback_only || failed, ..m }
}

/// The flags after a rollback.
pub open spec fn after_rollback(m: TxModel) -> TxModel {
    TxModel { completed: true, ..m }
}

/// The lifecycle state of one transaction.
pub struct TransactionState {
    id: String,
    completed: bool,
    rollback_only: bool,
    ephemeral: bool,
}

impl TransactionState {
    pub closed spec fn model(&self) -> TxModel {
        TxModel { completed: self.completed, rollback_only: self.rollback_only, ephemeral: self.ephemeral }
    }

    pub closed spec fn spec_id(&self) -> Seq<char> {
        self.id@
    }

    /// A fresh transaction named `id` (a scratch one when `ephemeral`).
    pub fn new(id: String, ephemeral: bool) -> (r: Self)
        ensures
            r.model() == (TxModel { completed: false, rollback_only: false, ephemeral }),
            r.spec_id() == id@,
    {
        TransactionState { id, completed: false, rollback_only: false, ephemeral }
    }

    /// The transaction's id.
    pub fn id(&self) -> (r: &str)
        ensures
            r@ == self.spec_id(),
    {
        self.id.as_str()
    }

    /// Whether the transaction was committed or rolled back.
    pub fn is_completed(&self) -> (r: bool)
        ensures
            r == self.model().completed,
    {
        self.completed
    }

    /// Whether a failed statement left the transaction rollback-only.
    pub fn is_rollback_only(&self) -> (r: bool)
        ensures
            r == self.model().rollback_only,
    {
        self.rollback_only
    }

    /// Whether a statement may run now; `expired` says whether the
    /// transaction's deadline has passed.
    pub fn check_completed(&self, expired: bool) -> (r: Result<(), UniError>)
        ensures
            match refusal(self.model(), expired) {
                None => r is Ok,
                Some(k) => r matches Err(e) && refusal_error(k, self.spec_id(), e),
            },
    {
        if self.completed {
            return Err(UniError::TransactionAlreadyCompleted);
        }
        if self.rollback_only {
            return Err(UniError::TransactionRollbackOnly);
        }
        if expired {
            return Err(
                UniError::TransactionExpired {
                    tx_id: self.id.clone(),
                    hint: owned(
                        "Transaction exceeded its timeout. All operations are rejected. The transaction will auto-rollback on drop.",
                    ),
                },
            );
        }
        Ok(())
    }

    /// Passes a statement's result through, poisoning the transaction when it
    /// failed.
    pub fn mark_on_err<T>(&mut self, r: Result<T, UniError>) -> (out: Result<T, UniError>)
        ensures
            out == r,
            final(self).model() == after_statement(old(self).model(), r is Err),
            final(self).spec_id() == old(self).spec_id(),
    {
        if r.is_err() {
            self.rollback_only = true;
        }
        r
    }

    /// Whether the transaction may commit: it must accept statements, must
    /// not be a scratch transaction, and the database must accept writes.
    pub fn commit_check(&self, expired: bool, writable: bool) -> (r: Result<(), UniError>)
        ensures
            match refusal(self.model(), expired) {
                Some(k) => r matches Err(e) && refusal_error(k, self.spec_id(), e),
                None => if self.model().ephemeral {
                    r matches Err(UniError::ReadOnly { operation }) && operation@
                        == "commit a scratch transaction (its writes are discarded on drop; use session.tx() to persist)"@
                } else if !writable {
                    r matches Err(UniError::ReadOnly { operation }) && operation@ == "commit"@
                } else {
                    r is Ok
                },
            },
    {
        self.check_completed(expired)?;
        if self.ephemeral {
            return Err(
                UniError::ReadOnly {
                    operation: owned(
                        "commit a scratch transaction (its writes are discarded on drop; use session.tx() to persist)",
                    ),
                },
            );
        }
        if !writable {
            return Err(UniError::ReadOnly { operation: owned("commit") });
        }
        Ok(())
    }

    /// Records a successful commit, which gives the session's write guard
    /// back.
    pub fn mark_committed(&mut self, guard: &mut WriteGuard)
        ensures
            final(self).model() == after_rollback(old(self).model()),
            final(self).spec_id() == old(self).spec_id(),
            !final(guard).is_active(),
    {
        self.completed = true;
        guard.release();
    }

    /// Rolls back: always succeeds, and a second rollback changes nothing.
    /// The answer says whether this call completed the transaction; only
    /// then does it give the session's write guard back (and count a
    /// rollback).
    pub fn rollback(&mut self, guard: &mut WriteGuard) -> (r: bool)
        ensures
            r == !old(self).model().completed,
            final(self).model() == after_rollback(old(self).model()),
            final(self).spec_id() == old(self).spec_id(),
            r ==> !final(guard).is_active(),
            !r ==> final(guard).is_active() == old(guard).is_active(),
    {
        if self.completed {
            return false;
        }
        self.completed = true;
        guard.release();
        true
    }

    /// What dropping the transaction does to the session's write guard: it
    /// gives the guard back unless commit or rollback already did. The
    /// answer says whether it did.
    pub fn release_on_drop(&self, guard: &mut WriteGuard) -> (r: bool)
        ensures
            r == !self.model().completed,
            r ==> !final(guard).is_active(),
            !r ==> final(guard).is_active() == old(guard).is_active(),
    {
        if self.completed {
            return false;
        }
        guard.release();
        true
    }

    /// Whether a set of derived facts evaluated at version `evaluated_at`
    /// may be applied at version `current_version`, and with which gap.
    ///
    /// Freshness is required unless `allow_stale`: the gap (saturating) must
    /// not exceed `max_gap` (0 when unset). A stale rejection does not poison
    /// the transaction.
    pub fn apply_check(
        &self,
        expired: bool,
        current_version: u64,
        evaluated_at: u64,
        allow_stale: bool,
        max_gap: Option<u64>,
    ) -> (r: Result<u64, UniError>)
        ensures
            match refusal(self.model(), expired) {
                Some(k) => r matches Err(e) && refusal_error(k, self.spec_id(), e),
                None => r == stale_check(current_version, evaluated_at, allow_stale, max_gap),
            },
    {
        self.check_completed(expired)?;
        version_gap_check(current_version, evaluated_at, allow_stale, max_gap)
    }
}

/// The gap between evaluation and apply, or the staleness error.
pub open spec fn stale_check(current_version: u64, evaluated_at: u64, allow_stale: bool, max_gap: Option<u64>) -> Result<u64, UniError> {
    let gap: u64 = if current_version >= evaluated_at { (current_version - evaluated_at) as u64 } else { 0 };
    let max: u64 = match max_gap { Some(m) => m, None => 0 };
    if !allow_stale && gap > max {
        Err(UniError::StaleDerivedFacts { version_gap: gap })
    } else {
        Ok(gap)
    }
}

/// The version gap of derived facts, or the staleness error (see
/// [`stale_check`]).
pub fn version_gap_check(current_version: u64, evaluated_at: u64, allow_stale: bool, max_gap: Option<u64>) -> (r: Result<u64, UniError>)
    ensures
        r == stale_check(current_version, evaluated_at, allow_stale, max_gap),
{
    let gap = current_version.saturating_sub(evaluated_at);
    let max = match max_gap {
        Some(m) => m,
        None => 0,
    };
    if !allow_stale && gap > max {
        Err(UniError::StaleDerivedFacts { version_gap: gap })
    } else {
        Ok(gap)
    }
}

/// Staleness controls for applying derived facts; fresh-required by default.
pub struct ApplyBuilder {
    pub allow_stale: bool,
    pub max_version_gap: Option<u64>,
}

impl ApplyBuilder {
    /// Fresh-required: no stale apply, no gap allowance.
    pub fn new() -> (r: Self)
        ensures
            !r.allow_stale,
            r.max_version_gap is None,
    {
        ApplyBuilder { allow_stale: false, max_version_gap: None }
    }

    /// Requires that nothing was committed between evaluation and apply.
    pub fn require_fresh(self) -> (r: Self)
        ensures
            !r.allow_stale,
            r.max_version_gap is None,
    {
        ApplyBuilder { allow_stale: false, max_version_gap: None }
    }

    /// Applies whatever the gap.
    pub fn allow_stale(self) -> (r: Self)
        ensures
            r.allow_stale,
            r.max_version_gap == self.max_version_gap,
    {
        ApplyBuilder { allow_stale: true, max_version_gap: self.max_version_gap }
    }

    /// Allows a gap of up to `n` versions.
    pub fn max_version_gap(self, n: u64) -> (r: Self)
        ensures
            r.allow_stale == self.allow_stale,
            r.max_version_gap == Some(n),
    {
        ApplyBuilder { allow_stale: self.allow_stale, max_version_gap: Some(n) }
    }
}

/// The rows a statement affected: the rows it returned, or when it returned
/// none, how many mutations it added to the transaction's buffer.
pub fn affected_rows(result_rows: usize, mutations_before: usize, mutations_after: usize) -> (r: usize)
    ensures
        result_rows == 0 ==> r == (if mutations_after >= mutations_before {
            mutations_after - mutations_before
        } else {
            0
        }),
        result_rows > 0 ==> r == result_rows,
{
    if result_rows == 0 {
        mutations_after.saturating_sub(mutations_before)
    } else {
        result_rows
    }
}

/// The session's write-context guard: at most one transaction, bulk writer
/// or appender writes through a session at a time.
pub struct WriteGuard {
    active: bool,
}

impl WriteGuard {
    pub closed spec fn is_active(&self) -> bool {
        self.active
    }

    /// A released guard.
    pub fn new() -> (r: Self)
        ensures
            !r.is_active(),
    {
        WriteGuard { active: false }
    }

    /// Takes the guard for a new write context of session `session_id`;
    /// refused while another context holds it.
    pub fn try_acquire(&mut self, session_id: &str) -> (r: Result<(), UniError>)
        ensures
            final(self).is_active(),
            !old(self).is_active() ==> r is Ok,
            old(self).is_active() ==> (r matches Err(UniError::WriteContextAlreadyActive { session_id: s, hint })
                && s@ == session_id@ && hint@ == write_context_hint()),
    {
        if self.active {
            return Err(
                UniError::WriteContextAlreadyActive {
                    session_id: owned(session_id),
                    hint: owned(
                        "Only one Transaction, BulkWriter, or Appender can be active per Session at a time. Commit or rollback the active one first, or create a separate Session for concurrent writes.",
                    ),
                },
            );
        }
        self.active = true;
        Ok(())
    }

    /// Releases the guard.
    pub fn release(&mut self)
        ensures
            !final(self).is_active(),
    {
        self.active = false;
    }
}

/// Whether the commit hooks let a commit go on, given the answers of the
/// session's own hooks (`hooks`, in the order they run) and then of the
/// hooks registered with the database (`registered`: a rejection's reason,
/// or `None` to go on): the first refusal decides, and answers after it are
/// ignored (so a caller may stop asking there). A session hook's error is
/// passed on as it is; a registered hook's rejection becomes a
/// hook-rejected error carrying its reason.
pub fn commit_hooks_verdict(hooks: Vec<Result<(), UniError>>, registered: Vec<Option<String>>) -> (r: Result<
    (),
    UniError,
>)
    ensures
        match first_err(hooks@, 0) {
            Some(k) => r == hooks@[k],
            None => match first_some(registered@, 0) {
                Some(k) => r matches Err(UniError::HookRejected { message }) && registered@[k] == Some(message),
                None => r is Ok,
            },
        },
{
    let ghost hs = hooks@;
    let ghost rs = registered@;
    for h in it: hooks
        invariant
            it.seq() == hs,
            first_err(hs, 0) == first_err(hs, it.index() as int),
    {
        if h.is_err() {
            proof {
                assert(first_err(hs, it.index() as int) == Some(it.index() as int));
            }
            return h;
        }
    }
    for g in it: registered
        invariant
            it.seq() == rs,
            hs == hooks@,
            rs == registered@,
            first_err(hs, 0) is None,
            first_some(rs, 0) == first_some(rs, it.index() as int),
    {
        match g {
            Some(reason) => {
                proof {
                    assert(first_some(rs, it.index() as int) == Some(it.index() as int));
                }
                return Err(UniError::HookRejected { message: reason });
            },
            None => {},
        }
    }
    Ok(())
}

/// The position of the first error of `v` from position `i`.
pub open spec fn first_err<T>(v: Seq<Result<T, UniError>>, i: int) -> Option<int>
    decreases v.len() - i,
{
    if i < 0 || i >= v.len() {
        None
    } else if v[i] is Err {
        Some(i)
    } else {
        first_err(v, i + 1)
    }
}

/// The position of the first present entry of `v` from position `i`.
pub open spec fn first_some<T>(v: Seq<Option<T>>, i: int) -> Option<int>
    decreases v.len() - i,
{
    if i < 0 || i >= v.len() {
        None
    } else if v[i] is Some {
        Some(i)
    } else {
        first_some(v, i + 1)
    }
}

/// Why opening a write context is refused, if it is: a pinned session first,
/// then a context already holding the guard, then a database opened without
/// a writer.
pub open spec fn start_refusal(active: bool, pinned: bool, writable: bool) -> Option<int> {
    if pinned {
        Some(0)
    } else if active {
        Some(1)
    } else if !writable {
        Some(2)
    } else {
        None
    }
}

/// Whether the guard is held after an attempt to open a write context: a
/// pinned session leaves it alone, and a database without a writer gives
/// back the guard the attempt took.
pub open spec fn guard_after_start(active: bool, pinned: bool, writable: bool) -> bool {
    if pinned {
        active
    } else {
        active || writable
    }
}

/// The name of the operation a pinned session refuses.
pub open spec fn pinned_operation(scratch: bool) -> Seq<char> {
    if scratch {
        "start_scratch_transaction"@
    } else {
        "start_transaction"@
    }
}

/// `e` is the error for start refusal `k` of session `session_id`.
pub open spec fn start_error(k: int, session_id: Seq<char>, scratch: bool, e: UniError) -> bool {
    if k == 0 {
        e matches UniError::ReadOnly { operation } && operation@ == pinned_operation(scratch)
    } else if k == 1 {
        e matches UniError::WriteContextAlreadyActive { session_id: s, hint } && s@ == session_id
            && hint@ == write_context_hint()
    } else {
        e matches UniError::ReadOnly { operation } && operation@ == "start_transaction"@
    }
}

/// Opens a transaction (a scratch one when `scratch`) on session
/// `session_id`, whose write guard is `guard`: refused on a pinned session,
/// while another write context holds the guard, and on a database opened
/// without a writer, where the guard taken is given back at once.
pub fn start_transaction(guard: &mut WriteGuard, session_id: &str, pinned: bool, scratch: bool, writable: bool) -> (r: Result<(), UniError>)
    ensures
        match start_refusal(old(guard).is_active(), pinned, writable) {
            Some(k) => r matches Err(e) && start_error(k, session_id@, scratch, e),
            None => r is Ok,
        },
        final(guard).is_active() == guard_after_start(old(guard).is_active(), pinned, writable),
{
    if pinned {
        if scratch {
            return Err(UniError::ReadOnly { operation: owned("start_scratch_transaction") });
        }
        return Err(UniError::ReadOnly { operation: owned("start_transaction") });
    }
    guard.try_acquire(session_id)?;
    if !writable {
        guard.release();
        return Err(UniError::ReadOnly { operation: owned("start_transaction") });
    }
    Ok(())
}

/// At most one write context per session: once a transaction of a
/// writable, unpinned session is open, the next start is refused as a second
/// write context; once it commits, rolls back or is dropped (each of which
/// gives the guard back), the next start succeeds.
pub proof fn law_one_write_context(active: bool)
    ensures
        start_refusal(active, false, true) is None ==> guard_after_start(active, false, true)
            && start_refusal(guard_after_start(active, false, true), false, true) == Some(1int),
        start_refusal(false, false, true) is None,
{
}

/// On a database opened without a writer every start is refused as
/// read-only and leaves the guard free, so a repeated start is refused the
/// same way, never as a second write context.
pub proof fn law_read_only_start_leaves_guard_free(active: bool)
    requires
        !active,
    ensures
        start_refusal(active, false, false) == Some(2int),
        !guard_after_start(active, false, false),
        start_refusal(guard_after_start(active, false, false), false, false) == Some(2int),
{
}

/// A failed statement leaves the transaction refusing every later statement
/// (and commit) until it completes, whatever its deadline says.
pub proof fn law_failed_statement_poisons(m: TxModel, expired: bool)
    requires
        !m.completed,
    ensures
        refusal(after_statement(m, true), expired) == Some(1int),
{
}

/// Rolling back twice is the same as rolling back once.
pub proof fn law_rollback_idempotent(m: TxModel)
    ensures
        after_rollback(after_rollback(m)) == after_rollback(m),
{
}

/// A completed transaction refuses every statement as already completed.
pub proof fn law_completed_refuses(m: TxModel, expired: bool)
    ensures
        refusal(after_rollback(m), expired) == Some(0int),
{
}

/// With the default options, facts are applied only when nothing was
/// committed since they were evaluated.
pub proof fn law_fresh_by_default(current_version: u64, evaluated_at: u64)
    ensures
        stale_check(current_version, evaluated_at, false, None) is Ok <==> current_version <= evaluated_at,
{
}

/// A looser gap allowance never turns an accepted apply into a rejected one.
pub proof fn law_gap_allowance_monotone(current_version: u64, evaluated_at: u64, a: u64, b: u64)
    requires
        a <= b,
        stale_check(current_version, evaluated_at, false, Some(a)) is Ok,
    ensures
        stale_check(current_version, evaluated_at, false, Some(b)) is Ok,
{
}

} // verus!
