//! The library's error type and the classification of backend error text into
//! stable, user-facing error kinds.
use vstd::prelude::*;
use crate::text::{
    all_ascii, ascii_lower, ascii_lower_char, chars_of, contains, ends_with, occurs_at, has_char, push_str, push_u64, nat_digits, starts_with, str_lower,
    str_upper, string_from, text_contains, text_starts_with, to_lower, to_upper,
};

verus! {

/// Errors surfaced by the database API.
#[derive(Debug, Clone, PartialEq, Eq)]
pub enum UniError {
    /// A syntax or parse error; `context` carries the statement when known.
    Parse { message: String, context: Option<String> },
    /// A query-level (compile-time or runtime) error.
    Query { message: String, query: Option<String> },
    /// A runtime type error.
    Type { expected: String, actual: String },
    /// A constraint verification failure.
    Constraint { message: String },
    /// Evaluation stopped before completion; `detail` describes how far it got.
    GraphComputeIncomplete { detail: String },
    /// A rule evaluation ran out of budget before it completed, and partial
    /// results were not allowed; `detail` describes how far it got.
    LocyIncomplete { detail: String },
    /// The statement was cancelled.
    Cancelled,
    /// The statement exceeded its time budget.
    Timeout { timeout_ms: u64 },
    /// A schema definition error.
    Schema { message: String },
    /// The operation needs a writer that this handle does not have.
    ReadOnly { operation: String },
    /// The transaction was already committed or rolled back.
    TransactionAlreadyCompleted,
    /// A statement failed earlier, so only rollback is possible.
    TransactionRollbackOnly,
    /// The transaction exceeded its timeout.
    TransactionExpired { tx_id: String, hint: String },
    /// Derived facts were evaluated too many versions ago to be applied.
    StaleDerivedFacts { version_gap: u64 },
    /// A commit hook rejected the commit, for this reason.
    HookRejected { message: String },
    /// Another write context is already active on the session.
    WriteContextAlreadyActive { session_id: String, hint: String },
    /// A label is not declared in the schema.
    LabelNotFound { label: String },
    /// An edge type is not declared in the schema.
    EdgeTypeNotFound { edge_type: String },
    /// An argument is not acceptable.
    InvalidArgument { arg: String, message: String },
    /// Authentication did not succeed.
    AuthenticationFailed { reason: String },
    /// A transaction-level failure inside rule evaluation.
    Transaction { message: String },
    /// The database path does not exist.
    NotFound { path: String },
    /// An input the storage layer cannot use (such as a malformed storage URL).
    Io { message: String },
    /// A fork lifecycle step failed.
    ForkLifecycle { name: String, stage: String, message: String },
    /// A fork with child forks cannot be dropped on its own.
    ForkHasChildren { name: String, children: Vec<String> },
    /// A fork with a transaction in flight cannot be dropped.
    ForkInflightTx { name: String },
    /// A fork's pending flushes did not drain in time.
    PendingFlushTimeout { name: String },
    /// Some fork of a subtree is still in use.
    ForkSubtreeInUse { blockers: Vec<String> },
    /// An internal failure.
    Internal { message: String },
}

/// The canonical text for backend error text `raw` produced while running
/// `cypher` (classification tags are prepended; everything else is kept).
pub open spec fn normalized(raw: Seq<char>, cypher: Seq<char>) -> Seq<char> {
    let up = str_upper(cypher);
    let low = str_lower(cypher);
    if contains(raw, "Error during planning: UDF"@) && contains(raw, "is not registered"@) {
        "SyntaxError: UnknownFunction - "@ + raw
    } else if contains(raw, "_cypher_in(): second argument must be a list"@) {
        "TypeError: InvalidArgumentType - "@ + raw
    } else if contains(raw, "InvalidNumberOfArguments: Procedure"@) && contains(raw, "got 0"@) {
        if contains(up, "YIELD"@) {
            "SyntaxError: InvalidArgumentPassingMode - "@ + raw
        } else {
            "ParameterMissing: MissingParameter - "@ + raw
        }
    } else if contains(raw, "Function count not implemented or is aggregate"@)
        || contains(raw, "Physical plan does not support logical expression AggregateFunction"@)
        || contains(raw, "Expected aggregate function, got: ListComprehension"@) {
        "SyntaxError: InvalidAggregation - "@ + raw
    } else if contains(raw, "Expected aggregate function, got: BinaryOp"@) {
        "SyntaxError: AmbiguousAggregationExpression - "@ + raw
    } else if contains(raw, no_field_me_age_count()) {
        "SyntaxError: UndefinedVariable - "@ + raw
    } else if contains(raw, no_field_me_age_sum()) {
        "SyntaxError: AmbiguousAggregationExpression - "@ + raw
    } else if contains(raw, "MERGE edge must have a type"@)
        || contains(raw, "MERGE does not support multiple edge types"@) {
        "SyntaxError: NoSingleRelationshipType - "@ + raw
    } else if contains(raw, "MERGE node must have a label"@) {
        if contains(cypher, "$param"@) {
            "SyntaxError: InvalidParameterUse - "@ + raw
        } else if cypher.contains('*') && contains(cypher, "-[:"@) {
            "SyntaxError: CreatingVarLength - "@ + raw
        } else if contains(low, "on create set x."@) || contains(low, "on match set x."@) {
            "SyntaxError: UndefinedVariable - "@ + raw
        } else {
            raw
        }
    } else {
        raw
    }
}

/// The planner message naming an undefined `me.age` next to `count(you.age)`.
pub open spec fn no_field_me_age_count() -> Seq<char> {
    "Schema error: No field named \"me.age\". Valid fields are \"count(you.age)\"."@
}

/// The planner message naming an undefined `me.age` next to an ambiguous sum.
pub open spec fn no_field_me_age_sum() -> Seq<char> {
    "Schema error: No field named \"me.age\". Valid fields are \"me.age + you.age\", \"count(*)\"."@
}

/// Text holding `long` holds whatever `long` holds at `at`.
proof fn lemma_contains_within(p: Seq<char>, long: Seq<char>, short: Seq<char>, at: int)
    requires
        contains(p, long),
        occurs_at(long, short, at),
    ensures
        contains(p, short),
{
    let i = choose|i: int| occurs_at(p, long, i);
    assert(p.subrange(i + at, i + at + short.len()) =~= p.subrange(i, i + long.len()).subrange(at, at + short.len()));
    assert(occurs_at(p, short, i + at));
}

/// Error text that mentions none of the recognised failures is kept as it
/// is, whatever the statement: it holds no "Error during planning",
/// "_cypher_in", "InvalidNumberOfArguments", "aggregate" or "Aggregate",
/// "Schema error" or "MERGE".
pub proof fn law_unrecognised_text_kept(raw: Seq<char>, cypher: Seq<char>)
    requires
        !contains(raw, "Error during planning"@),
        !contains(raw, "_cypher_in"@),
        !contains(raw, "InvalidNumberOfArguments"@),
        !contains(raw, "aggregate"@),
        !contains(raw, "Aggregate"@),
        !contains(raw, "Schema error"@),
        !contains(raw, "MERGE"@),
    ensures
        normalized(raw, cypher) == raw,
{
    reveal_strlit("Error during planning");
    reveal_strlit("Error during planning: UDF");
    reveal_strlit("_cypher_in");
    reveal_strlit("_cypher_in(): second argument must be a list");
    reveal_strlit("InvalidNumberOfArguments");
    reveal_strlit("InvalidNumberOfArguments: Procedure");
    reveal_strlit("aggregate");
    reveal_strlit("Aggregate");
    reveal_strlit("Function count not implemented or is aggregate");
    reveal_strlit("Physical plan does not support logical expression AggregateFunction");
    reveal_strlit("Expected aggregate function, got: ListComprehension");
    reveal_strlit("Expected aggregate function, got: BinaryOp");
    reveal_strlit("Schema error");
    reveal_strlit("Schema error: No field named \"me.age\". Valid fields are \"count(you.age)\".");
    reveal_strlit("Schema error: No field named \"me.age\". Valid fields are \"me.age + you.age\", \"count(*)\".");
    reveal_strlit("MERGE");
    reveal_strlit("MERGE edge must have a type");
    reveal_strlit("MERGE does not support multiple edge types");
    reveal_strlit("MERGE node must have a label");
    if contains(raw, "Error during planning: UDF"@) {
        assert("Error during planning: UDF"@.subrange(0, 21) =~= "Error during planning"@);
        lemma_contains_within(raw, "Error during planning: UDF"@, "Error during planning"@, 0);
    }
    if contains(raw, "_cypher_in(): second argument must be a list"@) {
        assert("_cypher_in(): second argument must be a list"@.subrange(0, 10) =~= "_cypher_in"@);
        lemma_contains_within(raw, "_cypher_in(): second argument must be a list"@, "_cypher_in"@, 0);
    }
    if contains(raw, "InvalidNumberOfArguments: Procedure"@) {
        assert("InvalidNumberOfArguments: Procedure"@.subrange(0, 24) =~= "InvalidNumberOfArguments"@);
        lemma_contains_within(raw, "InvalidNumberOfArguments: Procedure"@, "InvalidNumberOfArguments"@, 0);
    }
    if contains(raw, "Function count not implemented or is aggregate"@) {
        assert("Function count not implemented or is aggregate"@.subrange(37, 46) =~= "aggregate"@);
        lemma_contains_within(raw, "Function count not implemented or is aggregate"@, "aggregate"@, 37);
    }
    if contains(raw, "Physical plan does not support logical expression AggregateFunction"@) {
        assert("Physical plan does not support logical expression AggregateFunction"@.subrange(50, 59)
            =~= "Aggregate"@);
        lemma_contains_within(
            raw,
            "Physical plan does not support logical expression AggregateFunction"@,
            "Aggregate"@,
            50,
        );
    }
    if contains(raw, "Expected aggregate function, got: ListComprehension"@) {
        assert("Expected aggregate function, got: ListComprehension"@.subrange(9, 18) =~= "aggregate"@);
        lemma_contains_within(raw, "Expected aggregate function, got: ListComprehension"@, "aggregate"@, 9);
    }
    if contains(raw, "Expected aggregate function, got: BinaryOp"@) {
        assert("Expected aggregate function, got: BinaryOp"@.subrange(9, 18) =~= "aggregate"@);
        lemma_contains_within(raw, "Expected aggregate function, got: BinaryOp"@, "aggregate"@, 9);
    }
    if contains(raw, no_field_me_age_count()) {
        assert(no_field_me_age_count().subrange(0, 12) =~= "Schema error"@);
        lemma_contains_within(raw, no_field_me_age_count(), "Schema error"@, 0);
    }
    if contains(raw, no_field_me_age_sum()) {
        assert(no_field_me_age_sum().subrange(0, 12) =~= "Schema error"@);
        lemma_contains_within(raw, no_field_me_age_sum(), "Schema error"@, 0);
    }
    if contains(raw, "MERGE edge must have a type"@) {
        assert("MERGE edge must have a type"@.subrange(0, 5) =~= "MERGE"@);
        lemma_contains_within(raw, "MERGE edge must have a type"@, "MERGE"@, 0);
    }
    if contains(raw, "MERGE does not support multiple edge types"@) {
        assert("MERGE does not support multiple edge types"@.subrange(0, 5) =~= "MERGE"@);
        lemma_contains_within(raw, "MERGE does not support multiple edge types"@, "MERGE"@, 0);
    }
    if contains(raw, "MERGE node must have a label"@) {
        assert("MERGE node must have a label"@.subrange(0, 5) =~= "MERGE"@);
        lemma_contains_within(raw, "MERGE node must have a label"@, "MERGE"@, 0);
    }
}

proof fn lemma_lowered_aggregate(raw: Seq<char>, w: Seq<char>)
    requires
        w == "aggregate"@ || w == "Aggregate"@,
        contains(raw, w),
    ensures
        contains(ascii_lower(raw), "aggregate"@),
{
    reveal_strlit("aggregate");
    reveal_strlit("Aggregate");
    let i = choose|i: int| occurs_at(raw, w, i);
    let low = ascii_lower(raw);
    assert(low.subrange(i, i + 9) =~= w.map_values(|c: char| ascii_lower_char(c)));
    assert(w.map_values(|c: char| ascii_lower_char(c)) =~= "aggregate"@);
    assert(occurs_at(low, "aggregate"@, i));
}

/// The same for ASCII error text, with the aggregate marker looked for in
/// the lowercased text (whatever the case of its letters).
pub proof fn law_unrecognised_ascii_text_kept(raw: Seq<char>, cypher: Seq<char>)
    requires
        all_ascii(raw),
        !contains(raw, "Error during planning"@),
        !contains(raw, "_cypher_in"@),
        !contains(raw, "InvalidNumberOfArguments"@),
        !contains(str_lower(raw), "aggregate"@),
        !contains(raw, "Schema error"@),
        !contains(raw, "MERGE"@),
    ensures
        normalized(raw, cypher) == raw,
{
    if contains(raw, "aggregate"@) {
        lemma_lowered_aggregate(raw, "aggregate"@);
    }
    if contains(raw, "Aggregate"@) {
        lemma_lowered_aggregate(raw, "Aggregate"@);
    }
    law_unrecognised_text_kept(raw, cypher);
}

/// `prefix` followed by `raw`, as a `String`.
fn prefixed(prefix: &str, raw: &str) -> (r: String)
    ensures
        r@ == prefix@ + raw@,
{
    let mut v = chars_of(prefix);
    push_str(&mut v, raw);
    string_from(&v)
}

/// Normalize backend/planner error text into canonical Cypher/TCK codes.
///
/// The behavior of the statement is untouched; only the message text gains
/// a stable classification prefix where one is recognized.
pub fn normalize_error_message(raw: &str, cypher: &str) -> (r: String)
    ensures
        r@ == normalized(raw@, cypher@),
{
    let rw = chars_of(raw);
    let cq = chars_of(cypher);
    let up_s = to_upper(cypher);
    let low_s = to_lower(cypher);
    let up = chars_of(up_s.as_str());
    let low = chars_of(low_s.as_str());
    if text_contains(&rw, "Error during planning: UDF") && text_contains(&rw, "is not registered") {
        prefixed("SyntaxError: UnknownFunction - ", raw)
    } else if text_contains(&rw, "_cypher_in(): second argument must be a list") {
        prefixed("TypeError: InvalidArgumentType - ", raw)
    } else if text_contains(&rw, "InvalidNumberOfArguments: Procedure") && text_contains(&rw, "got 0") {
        if text_contains(&up, "YIELD") {
            prefixed("SyntaxError: InvalidArgumentPassingMode - ", raw)
        } else {
            prefixed("ParameterMissing: MissingParameter - ", raw)
        }
    } else if text_contains(&rw, "Function count not implemented or is aggregate")
        || text_contains(&rw, "Physical plan does not support logical expression AggregateFunction")
        || text_contains(&rw, "Expected aggregate function, got: ListComprehension")
    {
        prefixed("SyntaxError: InvalidAggregation - ", raw)
    } else if text_contains(&rw, "Expected aggregate function, got: BinaryOp") {
        prefixed("SyntaxError: AmbiguousAggregationExpression - ", raw)
    } else if text_contains(&rw, "Schema error: No field named \"me.age\". Valid fields are \"count(you.age)\".") {
        prefixed("SyntaxError: UndefinedVariable - ", raw)
    } else if text_contains(&rw, "Schema error: No field named \"me.age\". Valid fields are \"me.age + you.age\", \"count(*)\".") {
        prefixed("SyntaxError: AmbiguousAggregationExpression - ", raw)
    } else if text_contains(&rw, "MERGE edge must have a type")
        || text_contains(&rw, "MERGE does not support multiple edge types")
    {
        prefixed("SyntaxError: NoSingleRelationshipType - ", raw)
    } else if text_contains(&rw, "MERGE node must have a label") {
        if text_contains(&cq, "$param") {
            prefixed("SyntaxError: InvalidParameterUse - ", raw)
        } else if has_char(&cq, '*') && text_contains(&cq, "-[:") {
            prefixed("SyntaxError: CreatingVarLength - ", raw)
        } else if text_contains(&low, "on create set x.") || text_contains(&low, "on match set x.") {
            prefixed("SyntaxError: UndefinedVariable - ", raw)
        } else {
            string_from(&rw)
        }
    } else {
        string_from(&rw)
    }
}

/// Convert a parse error's text into `UniError::Parse`.
pub fn into_parse_error(message: &str) -> (r: UniError)
    ensures
        r matches UniError::Parse { message: m, context: c } && m@ == message@ && c is None,
{
    UniError::Parse { message: string_from(&chars_of(message)), context: None }
}

/// Convert a planner/compile-time error's text into a `UniError`.
///
/// Normalized text starting with `SyntaxError:` becomes a parse error
/// carrying the statement as context; everything else is a query error.
pub fn into_query_error(message: &str, cypher: &str) -> (r: UniError)
    ensures
        ({
            let msg = normalized(message@, cypher@);
            if starts_with(msg, "SyntaxError:"@) {
                r matches UniError::Parse { message: m, context: Some(c) } && m@ == msg && c@ == cypher@
            } else {
                r matches UniError::Query { message: m, query: Some(q) } && m@ == msg && q@ == cypher@
            }
        }),
{
    let msg = normalize_error_message(message, cypher);
    let mv = chars_of(msg.as_str());
    if text_starts_with(&mv, "SyntaxError:") {
        UniError::Parse { message: msg, context: Some(string_from(&chars_of(cypher))) }
    } else {
        UniError::Query { message: msg, query: Some(string_from(&chars_of(cypher))) }
    }
}

/// The kinds an executor or stream error's text is classified into.
pub open spec fn execution_error_spec(
    msg: Seq<char>,
    cypher: Seq<char>,
    tagged: Option<Seq<char>>,
    timeout_ms: u64,
    streaming: bool,
    r: UniError,
) -> bool {
    if tagged is Some {
        r matches UniError::GraphComputeIncomplete { detail: d } && d@ == tagged->0
    } else if !streaming && contains(msg, "Query cancelled"@) {
        r == UniError::Cancelled
    } else if !streaming && contains(msg, "Query timed out"@) {
        r == (UniError::Timeout { timeout_ms })
    } else if !streaming && contains(msg, "Query exceeded memory limit"@) {
        r matches UniError::Query { message: m, query: Some(q) } && m@ == msg && q@ == cypher
    } else if contains(msg, "TypeError:"@) {
        r matches UniError::Type { expected: e, actual: a } && e@ == msg && a@.len() == 0
    } else if starts_with(msg, "ConstraintVerificationFailed:"@) {
        r matches UniError::Constraint { message: m } && m@ == msg
    } else {
        r matches UniError::Query { message: m, query: Some(q) } && m@ == msg && q@ == cypher
    }
}

fn classify_normalized(
    msg: String,
    cypher: &str,
    tagged: Option<String>,
    timeout_ms: u64,
    streaming: bool,
) -> (r: UniError)
    ensures
        execution_error_spec(
            msg@,
            cypher@,
            match tagged { Some(t) => Some(t@), None => None },
            timeout_ms,
            streaming,
            r,
        ),
{
    let mv = chars_of(msg.as_str());
    match tagged {
        Some(t) => UniError::GraphComputeIncomplete { detail: t },
        None => {
            if !streaming && text_contains(&mv, "Query cancelled") {
                UniError::Cancelled
            } else if !streaming && text_contains(&mv, "Query timed out") {
                query_timed_out_error(timeout_ms)
            } else if !streaming && text_contains(&mv, "Query exceeded memory limit") {
                UniError::Query { message: msg, query: Some(string_from(&chars_of(cypher))) }
            } else if text_contains(&mv, "TypeError:") {
                UniError::Type { expected: msg, actual: String::new() }
            } else if text_starts_with(&mv, "ConstraintVerificationFailed:") {
                UniError::Constraint { message: msg }
            } else {
                UniError::Query { message: msg, query: Some(string_from(&chars_of(cypher))) }
            }
        }
    }
}

/// Convert an executor/runtime error's text into a `UniError`.
///
/// `tagged` is the incomplete-evaluation detail the compute layer encoded in
/// the normalized message, when it did; `timeout_ms` is the statement's
/// effective time budget, reattached to a bare "Query timed out".
pub fn into_execution_error(
    message: &str,
    cypher: &str,
    tagged: Option<String>,
    timeout_ms: u64,
) -> (r: UniError)
    ensures
        execution_error_spec(
            normalized(message@, cypher@),
            cypher@,
            match tagged { Some(t) => Some(t@), None => None },
            timeout_ms,
            false,
            r,
        ),
{
    let msg = normalize_error_message(message, cypher);
    classify_normalized(msg, cypher, tagged, timeout_ms, false)
}

/// Convert a streaming-execution error's text into a `UniError`: the
/// execution classification without its cancellation, timeout and memory
/// arms (the cursor guard raises those itself).
pub fn into_stream_error(message: &str, cypher: &str, tagged: Option<String>) -> (r: UniError)
    ensures
        execution_error_spec(
            normalized(message@, cypher@),
            cypher@,
            match tagged { Some(t) => Some(t@), None => None },
            0,
            true,
            r,
        ),
{
    let msg = normalize_error_message(message, cypher);
    classify_normalized(msg, cypher, tagged, 0, true)
}

/// The error every path raises when the statement's time budget elapses.
pub fn query_timed_out_error(timeout_ms: u64) -> (r: UniError)
    ensures
        r == (UniError::Timeout { timeout_ms }),
{
    UniError::Timeout { timeout_ms }
}

/// The error the cursor path raises when its cancellation fires.
pub fn query_cancelled_error() -> (r: UniError)
    ensures
        r == UniError::Cancelled,
{
    UniError::Cancelled
}

/// The message of the memory-limit error.
pub open spec fn memory_limit_text(estimated: nat, max: nat) -> Seq<char> {
    "Query exceeded memory limit ("@ + nat_digits(estimated) + " bytes > "@ + nat_digits(max)
        + " byte limit)"@
}

/// The error raised when a result's estimated size exceeds `max_mem` bytes.
pub fn memory_limit_error(estimated_bytes: usize, max_mem: usize, cypher: &str) -> (r: UniError)
    ensures
        r matches UniError::Query { message: m, query: Some(q) }
            && m@ == memory_limit_text(estimated_bytes as nat, max_mem as nat) && q@ == cypher@,
{
    let mut v = chars_of("Query exceeded memory limit (");
    push_u64(&mut v, estimated_bytes as u64);
    push_str(&mut v, " bytes > ");
    push_u64(&mut v, max_mem as u64);
    push_str(&mut v, " byte limit)");
    UniError::Query { message: string_from(&v), query: Some(string_from(&chars_of(cypher))) }
}

/// The message of the error returned when a session read carries writes.
pub open spec fn read_only_text() -> Seq<char> {
    "Session.query() is read-only. Mutation clauses (CREATE, MERGE, DELETE, SET, REMOVE) require a transaction. Use session.tx() to start one."@
}

/// The error returned when a session read is rejected for containing
/// mutation clauses.
pub fn read_only_violation(cypher: &str) -> (r: UniError)
    ensures
        r matches UniError::Query { message: m, query: Some(q) } && m@ == read_only_text()
            && q@ == cypher@,
{
    UniError::Query {
        message: string_from(&chars_of(
            "Session.query() is read-only. Mutation clauses (CREATE, MERGE, DELETE, SET, REMOVE) require a transaction. Use session.tx() to start one.",
        )),
        query: Some(string_from(&chars_of(cypher))),
    }
}

/// A rule-program parse failure.
pub fn map_parse_error(detail: &str) -> (r: UniError)
    ensures
        r matches UniError::Parse { message: m, context: None } && m@ == "LocyParseError: "@ + detail@,
{
    UniError::Parse { message: prefixed("LocyParseError: ", detail), context: None }
}

/// A rule-program compile failure.
pub fn map_compile_error(detail: &str) -> (r: UniError)
    ensures
        r matches UniError::Query { message: m, query: None } && m@ == "LocyCompileError: "@ + detail@,
{
    UniError::Query { message: prefixed("LocyCompileError: ", detail), query: None }
}

/// A rule-program runtime failure; a failed savepoint is a transaction error.
pub fn map_runtime_error(detail: &str, savepoint_failed: bool) -> (r: UniError)
    ensures
        savepoint_failed ==> (r matches UniError::Transaction { message: m }
            && m@ == "LocyRuntimeError: "@ + detail@),
        !savepoint_failed ==> (r matches UniError::Query { message: m, query: None }
            && m@ == "LocyRuntimeError: "@ + detail@),
{
    if savepoint_failed {
        UniError::Transaction { message: prefixed("LocyRuntimeError: ", detail) }
    } else {
        UniError::Query { message: prefixed("LocyRuntimeError: ", detail), query: None }
    }
}

/// The error for a time-travel statement inside a transaction.
pub fn time_travel_in_transaction_error(cypher: &str) -> (r: UniError)
    ensures
        r matches UniError::Query { message: m, query: Some(q) }
            && m@ == "Time-travel queries are not supported within transactions"@ && q@ == cypher@,
{
    UniError::Query {
        message: string_from(&chars_of("Time-travel queries are not supported within transactions")),
        query: Some(string_from(&chars_of(cypher))),
    }
}

/// The error for a rule-evaluation configuration that does not resolve.
pub fn map_config_error(detail: &str) -> (r: UniError)
    ensures
        r matches UniError::Query { message: m, query: None } && m@ == "LocyConfigError: "@ + detail@,
{
    UniError::Query { message: prefixed("LocyConfigError: ", detail), query: None }
}

/// The error for a rule program whose evaluation plan cannot be built.
pub fn map_plan_build_error(detail: &str) -> (r: UniError)
    ensures
        r matches UniError::Query { message: m, query: None } && m@ == "LocyPlanBuildError: "@ + detail@,
{
    UniError::Query { message: prefixed("LocyPlanBuildError: ", detail), query: None }
}

/// Normalizing never loses the backend's text: the result is that text,
/// possibly behind a classification prefix.
pub proof fn law_normalized_keeps_raw(raw: Seq<char>, cypher: Seq<char>)
    ensures
        ends_with(normalized(raw, cypher), raw),
        exists|prefix: Seq<char>| normalized(raw, cypher) == prefix + raw,
{
    let n = normalized(raw, cypher);
    let prefix = n.subrange(0, n.len() - raw.len());
    assert(n.len() >= raw.len());
    assert(n.subrange(n.len() - raw.len(), n.len() as int) =~= raw);
    assert(prefix + raw =~= n);
}

} // verus!
