//! Bulk loading: configuration, the bookkeeping of a bulk writer (buffers,
//! touched elements, table versions kept for rollback, statistics) and the
//! decisions it takes (when to flush, what to rebuild, how to roll back),
//! and constraint validation of vertex batches.
use vstd::prelude::*;
use std::time::Duration;
use crate::errors::UniError;
use crate::text::{
    char_whitespace, chars_of, i64_parse, is_whitespace, nat_digits, owned, parse_i64, push_str, push_u64, string_from,
    text_less, text_lt, texts,
};
use crate::value::{Value, estimate_properties_size, pairs_size, value_text, value_text_of};
use crate::plan_cache::{find_param, param_lookup};
use crate::schema::{ConstraintDef, ConstraintKind, ConstraintTarget, PropertyMeta, opt_text};
use crate::session::{duration_from_micros, micros_duration};

verus! {

// ---------------------------------------------------------------------------
// Configuration
// ---------------------------------------------------------------------------

/// Configuration for bulk loading.
pub struct BulkConfig {
    /// Whether to defer vector index building until commit.
    pub defer_vector_indexes: bool,
    /// Whether to defer scalar index building until commit.
    pub defer_scalar_indexes: bool,
    /// Number of rows buffered per label or edge type before a flush.
    pub batch_size: usize,
    /// Whether to build indexes in the background after commit.
    pub async_indexes: bool,
    /// Whether to validate NOT NULL, UNIQUE, EXISTS and CHECK constraints.
    pub validate_constraints: bool,
    /// Buffered bytes at which every buffer is flushed (a checkpoint).
    pub max_buffer_size_bytes: usize,
}

/// The default configuration: indexes deferred and rebuilt synchronously,
/// batches of 10 000 rows, constraints validated, 1 GiB of buffer.
pub open spec fn default_config(c: BulkConfig) -> bool {
    &&& c.defer_vector_indexes
    &&& c.defer_scalar_indexes
    &&& c.batch_size == 10_000
    &&& !c.async_indexes
    &&& c.validate_constraints
    &&& c.max_buffer_size_bytes == 1_073_741_824
}

impl Default for BulkConfig {
    fn default() -> (r: Self)
        ensures
            default_config(r),
    {
        BulkConfig {
            defer_vector_indexes: true,
            defer_scalar_indexes: true,
            batch_size: 10_000,
            async_indexes: false,
            validate_constraints: true,
            max_buffer_size_bytes: 1_073_741_824,
        }
    }
}

/// Builder for a bulk writer.
pub struct BulkWriterBuilder {
    config: BulkConfig,
    writable: bool,
}

impl BulkWriterBuilder {
    /// The configuration being built.
    pub closed spec fn spec_config(&self) -> BulkConfig {
        self.config
    }

    /// Whether the database the writer is for accepts writes.
    pub closed spec fn spec_writable(&self) -> bool {
        self.writable
    }

    /// A builder with the default configuration, for a database that accepts
    /// writes when `writable`.
    pub fn new(writable: bool) -> (r: Self)
        ensures
            default_config(r.spec_config()),
            r.spec_writable() == writable,
    {
        BulkWriterBuilder { config: BulkConfig::default(), writable }
    }

    /// The configuration being built.
    pub fn config(&self) -> (r: &BulkConfig)
        ensures
            *r == self.spec_config(),
    {
        &self.config
    }

    pub fn defer_vector_indexes(self, defer: bool) -> (r: Self)
        ensures
            r.spec_config() == (BulkConfig { defer_vector_indexes: defer, ..self.spec_config() }),
            r.spec_writable() == self.spec_writable(),
    {
        let mut b = self;
        b.config.defer_vector_indexes = defer;
        b
    }

    pub fn defer_scalar_indexes(self, defer: bool) -> (r: Self)
        ensures
            r.spec_config() == (BulkConfig { defer_scalar_indexes: defer, ..self.spec_config() }),
            r.spec_writable() == self.spec_writable(),
    {
        let mut b = self;
        b.config.defer_scalar_indexes = defer;
        b
    }

    pub fn batch_size(self, size: usize) -> (r: Self)
        ensures
            r.spec_config() == (BulkConfig { batch_size: size, ..self.spec_config() }),
            r.spec_writable() == self.spec_writable(),
    {
        let mut b = self;
        b.config.batch_size = size;
        b
    }

    pub fn async_indexes(self, async_: bool) -> (r: Self)
        ensures
            r.spec_config() == (BulkConfig { async_indexes: async_, ..self.spec_config() }),
            r.spec_writable() == self.spec_writable(),
    {
        let mut b = self;
        b.config.async_indexes = async_;
        b
    }

    pub fn validate_constraints(self, validate: bool) -> (r: Self)
        ensures
            r.spec_config() == (BulkConfig { validate_constraints: validate, ..self.spec_config() }),
            r.spec_writable() == self.spec_writable(),
    {
        let mut b = self;
        b.config.validate_constraints = validate;
        b
    }

    pub fn max_buffer_size_bytes(self, size: usize) -> (r: Self)
        ensures
            r.spec_config() == (BulkConfig { max_buffer_size_bytes: size, ..self.spec_config() }),
            r.spec_writable() == self.spec_writable(),
    {
        let mut b = self;
        b.config.max_buffer_size_bytes = size;
        b
    }

    /// The writer; refused when the database does not accept writes.
    pub fn build(self) -> (r: Result<BulkWriter, UniError>)
        ensures
            self.spec_writable() ==> (r matches Ok(w) && w.spec_config() == self.spec_config()
                && w.fresh()),
            !self.spec_writable() ==> (r matches Err(UniError::Internal { message })
                && message@ == "BulkWriter requires a writable database instance"@),
    {
        if !self.writable {
            return Err(UniError::Internal { message: owned("BulkWriter requires a writable database instance") });
        }
        let w = BulkWriter {
            config: self.config,
            stats: BulkStats::default(),
            pending_vertices: Vec::new(),
            pending_edges: Vec::new(),
            touched_labels: Vec::new(),
            touched_edge_types: Vec::new(),
            initial_table_versions: Vec::new(),
            buffer_size_bytes: 0,
            committed: false,
        };
        proof {
            assert(buffer_map(w.pending_vertices@) =~= Map::<Seq<char>, Seq<(u64, Vec<(String, Value)>)>>::empty());
            assert(buffer_map(w.pending_edges@) =~= Map::<Seq<char>, Seq<EdgeEntry>>::empty());
            assert(texts(w.touched_labels@).to_set() =~= Set::<Seq<char>>::empty());
            assert(texts(w.touched_edge_types@).to_set() =~= Set::<Seq<char>>::empty());
            assert(version_map(w.initial_table_versions@) =~= Map::<Seq<char>, Option<u64>>::empty());
        }
        Ok(w)
    }
}

// ---------------------------------------------------------------------------
// Progress and statistics
// ---------------------------------------------------------------------------

#[derive(Debug, Clone)]
pub enum BulkPhase {
    Inserting,
    RebuildingIndexes { label: String },
    Finalizing,
}

#[derive(Debug, Clone)]
pub struct BulkProgress {
    pub phase: BulkPhase,
    pub rows_processed: usize,
    pub total_rows: Option<usize>,
    pub current_label: Option<String>,
    pub elapsed: Duration,
}

#[derive(Debug, Clone)]
pub struct BulkStats {
    pub vertices_inserted: usize,
    pub edges_inserted: usize,
    pub indexes_rebuilt: usize,
    pub duration: Duration,
    pub index_build_duration: Duration,
    /// Task ids of background index rebuilds (when `async_indexes`).
    pub index_task_ids: Vec<String>,
    /// Whether index building was left to the background.
    pub indexes_pending: bool,
}

/// `Duration`'s `Clone`: `Duration` is `Copy`, so the clone is the value itself.
pub assume_specification[ <std::time::Duration as Clone>::clone ](d: &Duration) -> (r: Duration)
    ensures
        r == *d,
;

/// A zero duration: no microseconds.
fn zero_duration() -> (r: Duration)
    ensures
        r == micros_duration(0),
{
    duration_from_micros(0)
}

impl Default for BulkStats {
    fn default() -> (r: Self)
        ensures
            r.vertices_inserted == 0,
            r.edges_inserted == 0,
            r.indexes_rebuilt == 0,
            r.index_task_ids@.len() == 0,
            !r.indexes_pending,
            r.duration == micros_duration(0),
            r.index_build_duration == micros_duration(0),
    {
        BulkStats {
            vertices_inserted: 0,
            edges_inserted: 0,
            indexes_rebuilt: 0,
            duration: zero_duration(),
            index_build_duration: zero_duration(),
            index_task_ids: Vec::new(),
            indexes_pending: false,
        }
    }
}

/// Edge data for bulk insertion.
pub struct EdgeData {
    pub src_vid: u64,
    pub dst_vid: u64,
    pub properties: Vec<(String, Value)>,
}

impl EdgeData {
    pub fn new(src_vid: u64, dst_vid: u64, properties: Vec<(String, Value)>) -> (r: Self)
        ensures
            r.src_vid == src_vid,
            r.dst_vid == dst_vid,
            r.properties == properties,
    {
        EdgeData { src_vid, dst_vid, properties }
    }
}

/// A buffered edge, ready to be written.
pub struct EdgeEntry {
    pub src_vid: u64,
    pub dst_vid: u64,
    pub eid: u64,
    pub version: u64,
    pub properties: Vec<(String, Value)>,
    pub created_at: Option<i64>,
    pub updated_at: Option<i64>,
}


// ---------------------------------------------------------------------------
// Buffers keyed by label or edge type
// ---------------------------------------------------------------------------

/// No key occurs twice.
pub open spec fn unique_keys<T>(b: Seq<(String, Vec<T>)>) -> bool {
    forall|i: int, j: int| 0 <= i < j < b.len() ==> (#[trigger] b[i]).0@ != (#[trigger] b[j]).0@
}

/// Some buffer is kept under `key`.
pub open spec fn has_key<T>(b: Seq<(String, Vec<T>)>, key: Seq<char>) -> bool {
    exists|i: int| 0 <= i < b.len() && (#[trigger] b[i]).0@ == key
}

/// The rows buffered under `key` (none when there is no such buffer).
pub open spec fn rows_of<T>(b: Seq<(String, Vec<T>)>, key: Seq<char>) -> Seq<T> {
    if has_key(b, key) {
        b[choose|i: int| 0 <= i < b.len() && (#[trigger] b[i]).0@ == key].1@
    } else {
        Seq::empty()
    }
}

pub proof fn lemma_rows_at<T>(b: Seq<(String, Vec<T>)>, i: int)
    requires
        unique_keys(b),
        0 <= i < b.len(),
    ensures
        has_key(b, b[i].0@),
        rows_of(b, b[i].0@) == b[i].1@,
{
    assert(has_key(b, b[i].0@));
    let j = choose|j: int| 0 <= j < b.len() && (#[trigger] b[j]).0@ == b[i].0@;
    if j != i {
        if j < i {
            assert(b[j].0@ != b[i].0@);
        } else {
            assert(b[i].0@ != b[j].0@);
        }
    }
}

fn key_position<T>(b: &Vec<(String, Vec<T>)>, key: &String) -> (r: Option<usize>)
    ensures
        match r {
            Some(i) => i < b@.len() && b@[i as int].0@ == key@,
            None => !has_key(b@, key@),
        },
{
    let mut i: usize = 0;
    while i < b.len()
        invariant
            i <= b@.len(),
            forall|j: int| 0 <= j < i ==> (#[trigger] b@[j]).0@ != key@,
        decreases b.len() - i,
    {
        if b[i].0 == *key {
            return Some(i);
        }
        i = i + 1;
    }
    None
}

/// Appends `rows` to the buffer of `key`, creating it if needed; returns how
/// many rows that buffer then holds.
pub(crate) fn append_rows<T>(b: &mut Vec<(String, Vec<T>)>, key: &String, rows: Vec<T>) -> (n: usize)
    requires
        unique_keys(old(b)@),
    ensures
        unique_keys(final(b)@),
        has_key(final(b)@, key@),
        rows_of(final(b)@, key@) == rows_of(old(b)@, key@) + rows@,
        forall|k: Seq<char>| k != key@ ==> #[trigger] rows_of(final(b)@, k) == rows_of(old(b)@, k),
        forall|k: Seq<char>| k != key@ ==> #[trigger] has_key(final(b)@, k) == has_key(old(b)@, k),
        n == rows_of(final(b)@, key@).len(),
{
    let mut rows = rows;
    match key_position(b, key) {
        Some(i) => {
            proof {
                lemma_rows_at(b@, i as int);
            }
            let ghost before = b@;
            let (k, mut v) = b.remove(i);
            v.append(&mut rows);
            let n = v.len();
            b.insert(i, (k, v));
            proof {
                assert(b@ =~= before.update(i as int, b@[i as int]));
                assert forall|x: int, y: int| 0 <= x < y < b@.len() implies (#[trigger] b@[x]).0@
                    != (#[trigger] b@[y]).0@ by {
                    assert(before[x].0@ != before[y].0@);
                }
                lemma_rows_at(b@, i as int);
                assert forall|k: Seq<char>| k != key@ implies #[trigger] has_key(b@, k) == has_key(before, k) by {
                    if has_key(before, k) {
                        let j = choose|j: int| 0 <= j < before.len() && (#[trigger] before[j]).0@ == k;
                        assert(b@[j].0@ == k);
                    }
                    if has_key(b@, k) {
                        let j = choose|j: int| 0 <= j < b@.len() && (#[trigger] b@[j]).0@ == k;
                        assert(before[j].0@ == k);
                    }
                }
                assert forall|k: Seq<char>| k != key@ implies #[trigger] rows_of(b@, k) == rows_of(before, k) by {
                    if has_key(before, k) {
                        let j = choose|j: int| 0 <= j < before.len() && (#[trigger] before[j]).0@ == k;
                        lemma_rows_at(before, j);
                        lemma_rows_at(b@, j);
                    }
                }
            }
            n
        },
        None => {
            let ghost before = b@;
            let n = rows.len();
            b.push((key.clone(), rows));
            proof {
                let last = b@.len() - 1;
                assert forall|x: int, y: int| 0 <= x < y < b@.len() implies (#[trigger] b@[x]).0@
                    != (#[trigger] b@[y]).0@ by {
                    if y == last {
                        assert(before[x].0@ != key@);
                    } else {
                        assert(before[x].0@ != before[y].0@);
                    }
                }
                lemma_rows_at(b@, last);
                assert(rows_of(before, key@) =~= Seq::<T>::empty());
                assert forall|k: Seq<char>| k != key@ implies #[trigger] has_key(b@, k) == has_key(before, k) by {
                    if has_key(before, k) {
                        let j = choose|j: int| 0 <= j < before.len() && (#[trigger] before[j]).0@ == k;
                        assert(b@[j].0@ == k);
                    }
                    if has_key(b@, k) {
                        let j = choose|j: int| 0 <= j < b@.len() && (#[trigger] b@[j]).0@ == k;
                        assert(before[j].0@ == k);
                    }
                }
                assert forall|k: Seq<char>| k != key@ implies #[trigger] rows_of(b@, k) == rows_of(before, k) by {
                    if has_key(before, k) {
                        let j = choose|j: int| 0 <= j < before.len() && (#[trigger] before[j]).0@ == k;
                        lemma_rows_at(before, j);
                        lemma_rows_at(b@, j);
                    }
                }
            }
            n
        },
    }
}

/// Removes the buffer of `key` and hands its rows out.
fn take_rows<T>(b: &mut Vec<(String, Vec<T>)>, key: &String) -> (r: Option<Vec<T>>)
    requires
        unique_keys(old(b)@),
    ensures
        unique_keys(final(b)@),
        match r {
            Some(v) => has_key(old(b)@, key@) && v@ == rows_of(old(b)@, key@),
            None => !has_key(old(b)@, key@),
        },
        !has_key(final(b)@, key@),
        forall|k: Seq<char>| k != key@ ==> #[trigger] rows_of(final(b)@, k) == rows_of(old(b)@, k),
        forall|k: Seq<char>| k != key@ ==> #[trigger] has_key(final(b)@, k) == has_key(old(b)@, k),
{
    match key_position(b, key) {
        Some(i) => {
            proof {
                lemma_rows_at(b@, i as int);
            }
            let ghost before = b@;
            let (_k, v) = b.remove(i);
            proof {
                assert(b@ =~= before.remove(i as int));
                assert forall|x: int, y: int| 0 <= x < y < b@.len() implies (#[trigger] b@[x]).0@
                    != (#[trigger] b@[y]).0@ by {
                    let x0 = if x < i { x } else { x + 1 };
                    let y0 = if y < i { y } else { y + 1 };
                    assert(b@[x] == before[x0]);
                    assert(b@[y] == before[y0]);
                    assert(before[x0].0@ != before[y0].0@);
                }
                if has_key(b@, key@) {
                    let j = choose|j: int| 0 <= j < b@.len() && (#[trigger] b@[j]).0@ == key@;
                    let j0 = if j < i { j } else { j + 1 };
                    assert(b@[j] == before[j0]);
                    if j0 < i {
                        assert(before[j0].0@ != before[i as int].0@);
                    } else {
                        assert(before[i as int].0@ != before[j0].0@);
                    }
                }
                assert forall|k: Seq<char>| k != key@ implies #[trigger] has_key(b@, k) == has_key(before, k) by {
                    if has_key(before, k) {
                        let j = choose|j: int| 0 <= j < before.len() && (#[trigger] before[j]).0@ == k;
                        if j < i {
                            assert(b@[j].0@ == k);
                        } else {
                            assert(j != i);
                            assert(b@[j - 1].0@ == k);
                        }
                    }
                    if has_key(b@, k) {
                        let j = choose|j: int| 0 <= j < b@.len() && (#[trigger] b@[j]).0@ == k;
                        let j0 = if j < i { j } else { j + 1 };
                        assert(before[j0].0@ == k);
                    }
                }
                assert forall|k: Seq<char>| k != key@ implies #[trigger] rows_of(b@, k) == rows_of(before, k) by {
                    if has_key(before, k) {
                        let j = choose|j: int| 0 <= j < before.len() && (#[trigger] before[j]).0@ == k;
                        lemma_rows_at(before, j);
                        let j1 = if j < i { j } else { j - 1 };
                        assert(j != i);
                        assert(b@[j1] == before[j]);
                        lemma_rows_at(b@, j1);
                    }
                }
            }
            Some(v)
        },
        None => None,
    }
}

/// The keys that have a buffer, in buffer order.
fn key_list<T>(b: &Vec<(String, Vec<T>)>) -> (r: Vec<String>)
    ensures
        r@.len() == b@.len(),
        forall|i: int| 0 <= i < b@.len() ==> #[trigger] r@[i] == b@[i].0,
{
    let mut out: Vec<String> = Vec::new();
    let mut i: usize = 0;
    while i < b.len()
        invariant
            i <= b@.len(),
            out@.len() == i,
            forall|j: int| 0 <= j < i ==> #[trigger] out@[j] == b@[j].0,
        decreases b.len() - i,
    {
        out.push(b[i].0.clone());
        i = i + 1;
    }
    out
}


/// The buffers as a map from key to buffered rows.
pub open spec fn buffer_map<T>(b: Seq<(String, Vec<T>)>) -> Map<Seq<char>, Seq<T>> {
    Map::new(|k: Seq<char>| has_key(b, k), |k: Seq<char>| rows_of(b, k))
}

/// Adds `s` to a list of distinct texts unless it is already there.
pub(crate) fn add_unique(v: &mut Vec<String>, s: &String)
    requires
        texts(old(v)@).no_duplicates(),
    ensures
        texts(final(v)@).no_duplicates(),
        texts(final(v)@).to_set() == texts(old(v)@).to_set().insert(s@),
{
    let ghost before = v@;
    if !crate::text::text_in(v, s) {
        v.push(s.clone());
        proof {
            assert(texts(v@) =~= texts(before).push(s@));
            texts(before).lemma_push_to_set_commute(s@);
        }
    } else {
        proof {
            assert(texts(before).to_set() =~= texts(before).to_set().insert(s@));
        }
    }
}

/// What to do after buffering rows.
#[derive(Debug, Clone, Copy, PartialEq, Eq, Structural)]
pub enum FlushAction {
    /// The buffered bytes reached the limit: flush every buffer.
    Checkpoint,
    /// This buffer reached the batch size: flush it.
    Flush,
    /// Keep buffering.
    Nothing,
}

/// The action after buffering, given the buffered bytes, the byte limit, the
/// rows now in the buffer written to and the batch size.
pub open spec fn flush_action(buffered: int, max: int, rows: int, batch: int) -> FlushAction {
    if buffered >= max {
        FlushAction::Checkpoint
    } else if rows >= batch {
        FlushAction::Flush
    } else {
        FlushAction::Nothing
    }
}

/// Estimated bytes of buffered vertex rows: the size of their properties.
pub open spec fn rows_size(rows: Seq<(u64, Vec<(String, Value)>)>) -> int
    decreases rows.len(),
{
    if rows.len() == 0 {
        0
    } else {
        rows_size(rows.drop_last()) + pairs_size(rows.last().1@)
    }
}

/// Estimated bytes of buffered edges: 32 per edge plus its properties.
pub open spec fn edges_size(edges: Seq<EdgeData>) -> int
    decreases edges.len(),
{
    if edges.len() == 0 {
        0
    } else {
        edges_size(edges.drop_last()) + 32 + pairs_size(edges.last().properties@)
    }
}

proof fn lemma_rows_size_prefix(rows: Seq<(u64, Vec<(String, Value)>)>, i: int)
    requires
        0 <= i <= rows.len(),
    ensures
        rows_size(rows.take(i)) <= rows_size(rows),
        rows_size(rows.take(i)) >= 0,
    decreases rows.len(),
{
    if i < rows.len() {
        assert(rows.drop_last().take(i) =~= rows.take(i));
        lemma_rows_size_prefix(rows.drop_last(), i);
        crate::value::lemma_pairs_size_nonneg_top(rows.last().1@);
    } else {
        assert(rows.take(i) =~= rows);
        if rows.len() > 0 {
            lemma_rows_size_prefix(rows.drop_last(), rows.len() - 1);
            assert(rows.drop_last().take(rows.len() - 1) =~= rows.drop_last());
            crate::value::lemma_pairs_size_nonneg_top(rows.last().1@);
        }
    }
}

proof fn lemma_edges_size_prefix(edges: Seq<EdgeData>, i: int)
    requires
        0 <= i <= edges.len(),
    ensures
        edges_size(edges.take(i)) <= edges_size(edges),
        edges_size(edges.take(i)) >= 0,
    decreases edges.len(),
{
    if i < edges.len() {
        assert(edges.drop_last().take(i) =~= edges.take(i));
        lemma_edges_size_prefix(edges.drop_last(), i);
        crate::value::lemma_pairs_size_nonneg_top(edges.last().properties@);
    } else {
        assert(edges.take(i) =~= edges);
        if edges.len() > 0 {
            lemma_edges_size_prefix(edges.drop_last(), edges.len() - 1);
            assert(edges.drop_last().take(edges.len() - 1) =~= edges.drop_last());
            crate::value::lemma_pairs_size_nonneg_top(edges.last().properties@);
        }
    }
}

/// The buffered form of edge `e` given id `eid` at time `now`: version 1,
/// created and updated at `now`.
pub open spec fn edge_entry_of(e: EdgeData, eid: u64, now: i64) -> EdgeEntry {
    EdgeEntry {
        src_vid: e.src_vid,
        dst_vid: e.dst_vid,
        eid,
        version: 1,
        properties: e.properties,
        created_at: Some(now),
        updated_at: Some(now),
    }
}

/// The bookkeeping of a bulk load: rows buffered per label and edge type,
/// the elements written to, the versions tables had before their first
/// write (for rollback), the buffered byte estimate and the statistics.
/// Storage writes are made by the caller as the writer's answers direct.
pub struct BulkWriter {
    config: BulkConfig,
    stats: BulkStats,
    pending_vertices: Vec<(String, Vec<(u64, Vec<(String, Value)>)>)>,
    pending_edges: Vec<(String, Vec<EdgeEntry>)>,
    touched_labels: Vec<String>,
    touched_edge_types: Vec<String>,
    initial_table_versions: Vec<(String, Option<u64>)>,
    buffer_size_bytes: usize,
    committed: bool,
}

/// The recorded (table, version) pairs as a map.
pub open spec fn version_map(v: Seq<(String, Option<u64>)>) -> Map<Seq<char>, Option<u64>> {
    Map::new(
        |k: Seq<char>| exists|i: int| 0 <= i < v.len() && (#[trigger] v[i]).0@ == k,
        |k: Seq<char>| v[choose|i: int| 0 <= i < v.len() && (#[trigger] v[i]).0@ == k].1,
    )
}

/// The recorded versions after recording `version` for `table`: a table
/// already recorded keeps its first version.
pub open spec fn with_recorded_version(m: Map<Seq<char>, Option<u64>>, table: Seq<char>, version: Option<u64>) -> Map<Seq<char>, Option<u64>> {
    if m.contains_key(table) {
        m
    } else {
        m.insert(table, version)
    }
}

impl BulkWriter {
    pub closed spec fn spec_config(&self) -> BulkConfig {
        self.config
    }

    pub closed spec fn spec_stats(&self) -> BulkStats {
        self.stats
    }

    /// Buffered vertex rows (id, properties) per label.
    pub closed spec fn vertex_buffers(&self) -> Map<Seq<char>, Seq<(u64, Vec<(String, Value)>)>> {
        buffer_map(self.pending_vertices@)
    }

    /// Buffered edges per edge type.
    pub closed spec fn edge_buffers(&self) -> Map<Seq<char>, Seq<EdgeEntry>> {
        buffer_map(self.pending_edges@)
    }

    pub closed spec fn touched_labels(&self) -> Set<Seq<char>> {
        texts(self.touched_labels@).to_set()
    }

    pub closed spec fn touched_edge_types(&self) -> Set<Seq<char>> {
        texts(self.touched_edge_types@).to_set()
    }

    /// The version each table had before the load first wrote to it
    /// (`None`: the table did not exist).
    pub closed spec fn table_versions(&self) -> Map<Seq<char>, Option<u64>> {
        version_map(self.initial_table_versions@)
    }

    /// The recorded (table, version) pairs, in the order they were recorded.
    pub closed spec fn recorded_tables(&self) -> Seq<(String, Option<u64>)> {
        self.initial_table_versions@
    }

    pub closed spec fn buffered_bytes(&self) -> nat {
        self.buffer_size_bytes as nat
    }

    pub closed spec fn is_committed(&self) -> bool {
        self.committed
    }

    /// Internal consistency: one buffer per key, distinct touched names and
    /// one recorded version per table.
    pub closed spec fn wf(&self) -> bool {
        &&& unique_keys(self.pending_vertices@)
        &&& unique_keys(self.pending_edges@)
        &&& texts(self.touched_labels@).no_duplicates()
        &&& texts(self.touched_edge_types@).no_duplicates()
        &&& forall|i: int, j: int|
            0 <= i < j < self.initial_table_versions@.len() ==> (#[trigger] self.initial_table_versions@[i]).0@
                != (#[trigger] self.initial_table_versions@[j]).0@
    }

    /// A writer with nothing buffered, touched or recorded.
    pub open spec fn fresh(&self) -> bool {
        &&& self.wf()
        &&& self.vertex_buffers() == Map::<Seq<char>, Seq<(u64, Vec<(String, Value)>)>>::empty()
        &&& self.edge_buffers() == Map::<Seq<char>, Seq<EdgeEntry>>::empty()
        &&& self.touched_labels() == Set::<Seq<char>>::empty()
        &&& self.touched_edge_types() == Set::<Seq<char>>::empty()
        &&& self.table_versions() == Map::<Seq<char>, Option<u64>>::empty()
        &&& self.buffered_bytes() == 0
        &&& !self.is_committed()
        &&& self.spec_stats().vertices_inserted == 0
        &&& self.spec_stats().edges_inserted == 0
        &&& self.spec_stats().indexes_rebuilt == 0
        &&& !self.spec_stats().indexes_pending
        &&& self.spec_stats().index_task_ids@.len() == 0
        &&& self.spec_stats().duration == micros_duration(0)
        &&& self.spec_stats().index_build_duration == micros_duration(0)
    }

    /// The configuration.
    pub fn config(&self) -> (r: &BulkConfig)
        ensures
            *r == self.spec_config(),
    {
        &self.config
    }

    /// The statistics so far.
    pub fn stats(&self) -> (r: &BulkStats)
        ensures
            *r == self.spec_stats(),
    {
        &self.stats
    }

    /// Buffers the vertices `rows` (allocated id, properties) of `label`.
    ///
    /// The buffered byte estimate grows by the rows' property sizes and the
    /// label is marked touched. The answer is to checkpoint once the estimate
    /// reaches `max_buffer_size_bytes`, else to flush this label's buffer once
    /// it holds `batch_size` rows.
    pub fn buffer_vertices(&mut self, label: &str, rows: Vec<(u64, Vec<(String, Value)>)>) -> (action: FlushAction)
        requires
            old(self).wf(),
            old(self).buffered_bytes() + rows_size(rows@) <= usize::MAX,
            old(self).spec_stats().vertices_inserted + rows@.len() <= usize::MAX,
        ensures
            final(self).wf(),
            final(self).vertex_buffers() == old(self).vertex_buffers().insert(
                label@,
                (if old(self).vertex_buffers().contains_key(label@) {
                    old(self).vertex_buffers()[label@]
                } else {
                    Seq::empty()
                }) + rows@,
            ),
            final(self).edge_buffers() == old(self).edge_buffers(),
            final(self).touched_labels() == old(self).touched_labels().insert(label@),
            final(self).touched_edge_types() == old(self).touched_edge_types(),
            final(self).table_versions() == old(self).table_versions(),
            final(self).buffered_bytes() == old(self).buffered_bytes() + rows_size(rows@),
            final(self).spec_stats().vertices_inserted == old(self).spec_stats().vertices_inserted
                + rows@.len(),
            final(self).spec_stats().edges_inserted == old(self).spec_stats().edges_inserted,
            final(self).spec_config() == old(self).spec_config(),
            final(self).is_committed() == old(self).is_committed(),
            action == flush_action(
                final(self).buffered_bytes() as int,
                final(self).spec_config().max_buffer_size_bytes as int,
                final(self).vertex_buffers()[label@].len() as int,
                final(self).spec_config().batch_size as int,
            ),
    {
        let key = owned(label);
        let mut added: usize = 0;
        let mut i: usize = 0;
        proof {
            lemma_rows_size_prefix(rows@, 0);
        }
        while i < rows.len()
            invariant
                i <= rows@.len(),
                added == rows_size(rows@.take(i as int)),
                self.buffer_size_bytes + rows_size(rows@) <= usize::MAX,
            decreases rows.len() - i,
        {
            proof {
                assert(rows@.take(i + 1).drop_last() =~= rows@.take(i as int));
                lemma_rows_size_prefix(rows@, i + 1);
                crate::value::lemma_pairs_size_nonneg_top(rows@[i as int].1@);
            }
            let sz = estimate_properties_size(&rows[i].1);
            added = added + sz;
            i = i + 1;
        }
        proof {
            assert(rows@.take(rows@.len() as int) =~= rows@);
        }
        let n = rows.len();
        let ghost old_buffers = self.pending_vertices@;
        let count = append_rows(&mut self.pending_vertices, &key, rows);
        proof {
            assert(buffer_map(self.pending_vertices@) =~= buffer_map(old_buffers).insert(
                label@,
                (if buffer_map(old_buffers).contains_key(label@) {
                    buffer_map(old_buffers)[label@]
                } else {
                    Seq::empty()
                }) + rows@,
            ));
        }
        add_unique(&mut self.touched_labels, &key);
        self.buffer_size_bytes = self.buffer_size_bytes + added;
        self.stats.vertices_inserted = self.stats.vertices_inserted + n;
        if self.buffer_size_bytes >= self.config.max_buffer_size_bytes {
            FlushAction::Checkpoint
        } else if count >= self.config.batch_size {
            FlushAction::Flush
        } else {
            FlushAction::Nothing
        }
    }

    /// Buffers `edges` of `edge_type` under the allocated ids `eids`, created
    /// at `now`.
    ///
    /// Each edge is buffered with version 1; the buffered byte estimate grows
    /// by 32 bytes per edge plus its property size, and the edge type is
    /// marked touched. The answer is chosen as for vertices.
    pub fn buffer_edges(&mut self, edge_type: &str, eids: Vec<u64>, edges: Vec<EdgeData>, now: i64) -> (action: FlushAction)
        requires
            old(self).wf(),
            eids@.len() == edges@.len(),
            old(self).buffered_bytes() + edges_size(edges@) <= usize::MAX,
            old(self).spec_stats().edges_inserted + edges@.len() <= usize::MAX,
        ensures
            final(self).wf(),
            final(self).edge_buffers() == old(self).edge_buffers().insert(
                edge_type@,
                (if old(self).edge_buffers().contains_key(edge_type@) {
                    old(self).edge_buffers()[edge_type@]
                } else {
                    Seq::empty()
                }) + Seq::new(edges@.len(), |i: int| edge_entry_of(edges@[i], eids@[i], now)),
            ),
            final(self).vertex_buffers() == old(self).vertex_buffers(),
            final(self).touched_edge_types() == old(self).touched_edge_types().insert(edge_type@),
            final(self).touched_labels() == old(self).touched_labels(),
            final(self).table_versions() == old(self).table_versions(),
            final(self).buffered_bytes() == old(self).buffered_bytes() + edges_size(edges@),
            final(self).spec_stats().edges_inserted == old(self).spec_stats().edges_inserted
                + edges@.len(),
            final(self).spec_stats().vertices_inserted == old(self).spec_stats().vertices_inserted,
            final(self).spec_config() == old(self).spec_config(),
            final(self).is_committed() == old(self).is_committed(),
            action == flush_action(
                final(self).buffered_bytes() as int,
                final(self).spec_config().max_buffer_size_bytes as int,
                final(self).edge_buffers()[edge_type@].len() as int,
                final(self).spec_config().batch_size as int,
            ),
    {
        let key = owned(edge_type);
        let ghost input = edges@;
        let mut entries: Vec<EdgeEntry> = Vec::new();
        let mut added: usize = 0;
        let mut i: usize = 0;
        for e in it: edges
            invariant
                it.seq() == input,
                i == it.index(),
                i <= input.len(),
                eids@.len() == input.len(),
                entries@.len() == i,
                forall|j: int| 0 <= j < i ==> #[trigger] entries@[j] == edge_entry_of(input[j], eids@[j], now),
                added == edges_size(input.take(i as int)),
                self.buffer_size_bytes + edges_size(input) <= usize::MAX,
        {
            proof {
                assert(input.take(i + 1).drop_last() =~= input.take(i as int));
                lemma_edges_size_prefix(input, i + 1);
                crate::value::lemma_pairs_size_nonneg_top(input[i as int].properties@);
            }
            let sz = estimate_properties_size(&e.properties);
            added = added + 32 + sz;
            entries.push(EdgeEntry {
                src_vid: e.src_vid,
                dst_vid: e.dst_vid,
                eid: eids[i],
                version: 1,
                properties: e.properties,
                created_at: Some(now),
                updated_at: Some(now),
            });
            i = entries.len();
        }
        proof {
            assert(input.take(input.len() as int) =~= input);
            assert(entries@ =~= Seq::new(input.len(), |j: int| edge_entry_of(input[j], eids@[j], now)));
        }
        let n = entries.len();
        let ghost old_buffers = self.pending_edges@;
        let count = append_rows(&mut self.pending_edges, &key, entries);
        proof {
            assert(buffer_map(self.pending_edges@) =~= buffer_map(old_buffers).insert(
                edge_type@,
                (if buffer_map(old_buffers).contains_key(edge_type@) {
                    buffer_map(old_buffers)[edge_type@]
                } else {
                    Seq::empty()
                }) + Seq::new(input.len(), |j: int| edge_entry_of(input[j], eids@[j], now)),
            ));
        }
        add_unique(&mut self.touched_edge_types, &key);
        self.buffer_size_bytes = self.buffer_size_bytes + added;
        self.stats.edges_inserted = self.stats.edges_inserted + n;
        if self.buffer_size_bytes >= self.config.max_buffer_size_bytes {
            FlushAction::Checkpoint
        } else if count >= self.config.batch_size {
            FlushAction::Flush
        } else {
            FlushAction::Nothing
        }
    }

    /// Removes the vertex buffer of `label` for flushing.
    pub fn take_vertex_buffer(&mut self, label: &str) -> (r: Option<Vec<(u64, Vec<(String, Value)>)>>)
        requires
            old(self).wf(),
        ensures
            final(self).wf(),
            match r {
                Some(v) => old(self).vertex_buffers().contains_key(label@) && v@
                    == old(self).vertex_buffers()[label@],
                None => !old(self).vertex_buffers().contains_key(label@),
            },
            final(self).vertex_buffers() == old(self).vertex_buffers().remove(label@),
            final(self).edge_buffers() == old(self).edge_buffers(),
            final(self).touched_labels() == old(self).touched_labels(),
            final(self).touched_edge_types() == old(self).touched_edge_types(),
            final(self).table_versions() == old(self).table_versions(),
            final(self).buffered_bytes() == old(self).buffered_bytes(),
            final(self).spec_stats() == old(self).spec_stats(),
            final(self).spec_config() == old(self).spec_config(),
            final(self).is_committed() == old(self).is_committed(),
    {
        let key = owned(label);
        let ghost before = self.pending_vertices@;
        let r = take_rows(&mut self.pending_vertices, &key);
        proof {
            assert(buffer_map(self.pending_vertices@) =~= buffer_map(before).remove(label@));
        }
        r
    }

    /// Removes the edge buffer of `edge_type` for flushing.
    pub fn take_edge_buffer(&mut self, edge_type: &str) -> (r: Option<Vec<EdgeEntry>>)
        requires
            old(self).wf(),
        ensures
            final(self).wf(),
            match r {
                Some(v) => old(self).edge_buffers().contains_key(edge_type@) && v@
                    == old(self).edge_buffers()[edge_type@],
                None => !old(self).edge_buffers().contains_key(edge_type@),
            },
            final(self).edge_buffers() == old(self).edge_buffers().remove(edge_type@),
            final(self).vertex_buffers() == old(self).vertex_buffers(),
            final(self).touched_labels() == old(self).touched_labels(),
            final(self).touched_edge_types() == old(self).touched_edge_types(),
            final(self).table_versions() == old(self).table_versions(),
            final(self).buffered_bytes() == old(self).buffered_bytes(),
            final(self).spec_stats() == old(self).spec_stats(),
            final(self).spec_config() == old(self).spec_config(),
            final(self).is_committed() == old(self).is_committed(),
    {
        let key = owned(edge_type);
        let ghost before = self.pending_edges@;
        let r = take_rows(&mut self.pending_edges, &key);
        proof {
            assert(buffer_map(self.pending_edges@) =~= buffer_map(before).remove(edge_type@));
        }
        r
    }

    /// The labels that have a vertex buffer.
    pub fn pending_labels(&self) -> (r: Vec<String>)
        requires
            self.wf(),
        ensures
            texts(r@).to_set() == self.vertex_buffers().dom(),
    {
        let r = key_list(&self.pending_vertices);
        proof {
            assert forall|k: Seq<char>| texts(r@).to_set().contains(k) <==> self.vertex_buffers().dom().contains(k) by {
                if texts(r@).to_set().contains(k) {
                    let i = choose|i: int| 0 <= i < texts(r@).len() && texts(r@)[i] == k;
                    assert(self.pending_vertices@[i].0@ == k);
                }
                if self.vertex_buffers().dom().contains(k) {
                    let i = choose|i: int| 0 <= i < self.pending_vertices@.len() && (#[trigger] self.pending_vertices@[i]).0@ == k;
                    assert(texts(r@)[i] == k);
                }
            }
            assert(texts(r@).to_set() =~= self.vertex_buffers().dom());
        }
        r
    }

    /// The edge types that have an edge buffer.
    pub fn pending_edge_types(&self) -> (r: Vec<String>)
        requires
            self.wf(),
        ensures
            texts(r@).to_set() == self.edge_buffers().dom(),
    {
        let r = key_list(&self.pending_edges);
        proof {
            assert forall|k: Seq<char>| texts(r@).to_set().contains(k) <==> self.edge_buffers().dom().contains(k) by {
                if texts(r@).to_set().contains(k) {
                    let i = choose|i: int| 0 <= i < texts(r@).len() && texts(r@)[i] == k;
                    assert(self.pending_edges@[i].0@ == k);
                }
                if self.edge_buffers().dom().contains(k) {
                    let i = choose|i: int| 0 <= i < self.pending_edges@.len() && (#[trigger] self.pending_edges@[i]).0@ == k;
                    assert(texts(r@)[i] == k);
                }
            }
            assert(texts(r@).to_set() =~= self.edge_buffers().dom());
        }
        r
    }

    /// After a checkpoint flushed every buffer, the byte estimate starts over.
    pub fn checkpoint_done(&mut self)
        requires
            old(self).wf(),
        ensures
            final(self).buffered_bytes() == 0,
            final(self).wf(),
            final(self).vertex_buffers() == old(self).vertex_buffers(),
            final(self).edge_buffers() == old(self).edge_buffers(),
            final(self).touched_labels() == old(self).touched_labels(),
            final(self).touched_edge_types() == old(self).touched_edge_types(),
            final(self).table_versions() == old(self).table_versions(),
            final(self).spec_stats() == old(self).spec_stats(),
            final(self).spec_config() == old(self).spec_config(),
            final(self).is_committed() == old(self).is_committed(),
    {
        self.buffer_size_bytes = 0;
    }

    /// Whether no version has been recorded yet for `table` (its version must
    /// then be read before the load first writes to it).
    pub fn needs_table_version(&self, table: &str) -> (r: bool)
        ensures
            r == !self.table_versions().contains_key(table@),
    {
        let key = owned(table);
        let mut i: usize = 0;
        while i < self.initial_table_versions.len()
            invariant
                i <= self.initial_table_versions@.len(),
                key@ == table@,
                forall|j: int| 0 <= j < i ==> (#[trigger] self.initial_table_versions@[j]).0@ != table@,
            decreases self.initial_table_versions.len() - i,
        {
            if self.initial_table_versions[i].0 == key {
                return false;
            }
            i = i + 1;
        }
        true
    }

    /// Records the version `table` had before the load first wrote to it;
    /// a table's first recorded version is kept.
    pub fn record_table_version(&mut self, table: &str, version: Option<u64>)
        requires
            old(self).wf(),
        ensures
            final(self).wf(),
            final(self).table_versions() == if old(self).table_versions().contains_key(table@) {
                old(self).table_versions()
            } else {
                old(self).table_versions().insert(table@, version)
            },
            final(self).vertex_buffers() == old(self).vertex_buffers(),
            final(self).edge_buffers() == old(self).edge_buffers(),
            final(self).touched_labels() == old(self).touched_labels(),
            final(self).touched_edge_types() == old(self).touched_edge_types(),
            final(self).buffered_bytes() == old(self).buffered_bytes(),
            final(self).spec_stats() == old(self).spec_stats(),
            final(self).spec_config() == old(self).spec_config(),
            final(self).is_committed() == old(self).is_committed(),
    {
        if self.needs_table_version(table) {
            let ghost before = self.initial_table_versions@;
            self.initial_table_versions.push((owned(table), version));
            proof {
                let v = self.initial_table_versions@;
                let last = v.len() - 1;
                assert forall|i: int, j: int| 0 <= i < j < v.len() implies (#[trigger] v[i]).0@
                    != (#[trigger] v[j]).0@ by {
                    if j == last {
                        assert(v[i] == before[i]);
                        assert(!(exists|k: int| 0 <= k < before.len() && (#[trigger] before[k]).0@ == table@));
                    } else {
                        assert(before[i].0@ != before[j].0@);
                    }
                }
                assert forall|k: Seq<char>| #[trigger] version_map(v).contains_key(k) == version_map(before).insert(table@, version).contains_key(k) by {
                    if exists|x: int| 0 <= x < before.len() && (#[trigger] before[x]).0@ == k {
                        let x = choose|x: int| 0 <= x < before.len() && (#[trigger] before[x]).0@ == k;
                        assert(v[x].0@ == k);
                    }
                    if k == table@ {
                        assert(v[last].0@ == k);
                    }
                    if exists|x: int| 0 <= x < v.len() && (#[trigger] v[x]).0@ == k {
                        let x = choose|x: int| 0 <= x < v.len() && (#[trigger] v[x]).0@ == k;
                        if x < last {
                            assert(before[x].0@ == k);
                        }
                    }
                }
                assert forall|k: Seq<char>| #[trigger] version_map(v).contains_key(k) implies version_map(v)[k] == version_map(before).insert(table@, version)[k] by {
                    let x = choose|x: int| 0 <= x < v.len() && (#[trigger] v[x]).0@ == k;
                    if k == table@ {
                        if x != last {
                            assert(v[x].0@ != v[last].0@);
                        }
                    } else {
                        let y = choose|y: int| 0 <= y < before.len() && (#[trigger] before[y]).0@ == k;
                        assert(v[y].0@ == k);
                        if x != y {
                            if x < y {
                                assert(v[x].0@ != v[y].0@);
                            } else {
                                assert(v[y].0@ != v[x].0@);
                            }
                        }
                    }
                }
                assert(version_map(v) =~= version_map(before).insert(table@, version));
            }
        }
    }

    /// Records, before an edge type's buffer is first written, the versions
    /// its forward delta, backward delta and main edge tables had: each table
    /// not recorded yet gets the version given for it; a table already
    /// recorded keeps its first version (the version given is then unused).
    pub fn record_edge_flush_tables(
        &mut self,
        fwd: &str,
        fwd_version: Option<u64>,
        bwd: &str,
        bwd_version: Option<u64>,
        main: &str,
        main_version: Option<u64>,
    )
        requires
            old(self).wf(),
        ensures
            final(self).wf(),
            final(self).table_versions() == with_recorded_version(
                with_recorded_version(with_recorded_version(old(self).table_versions(), fwd@, fwd_version), bwd@, bwd_version),
                main@,
                main_version,
            ),
            final(self).table_versions().contains_key(fwd@),
            final(self).table_versions().contains_key(bwd@),
            final(self).table_versions().contains_key(main@),
            forall|t: Seq<char>| #[trigger] old(self).table_versions().contains_key(t) ==> final(self).table_versions().contains_key(t)
                && final(self).table_versions()[t] == old(self).table_versions()[t],
            final(self).vertex_buffers() == old(self).vertex_buffers(),
            final(self).edge_buffers() == old(self).edge_buffers(),
            final(self).touched_labels() == old(self).touched_labels(),
            final(self).touched_edge_types() == old(self).touched_edge_types(),
            final(self).buffered_bytes() == old(self).buffered_bytes(),
            final(self).spec_stats() == old(self).spec_stats(),
            final(self).spec_config() == old(self).spec_config(),
            final(self).is_committed() == old(self).is_committed(),
    {
        self.record_table_version(fwd, fwd_version);
        self.record_table_version(bwd, bwd_version);
        self.record_table_version(main, main_version);
    }

    /// The labels written to, each once.
    pub fn touched_label_list(&self) -> (r: Vec<String>)
        requires
            self.wf(),
        ensures
            texts(r@).to_set() == self.touched_labels(),
            texts(r@).no_duplicates(),
    {
        crate::text::copy_strings(&self.touched_labels)
    }

    /// The edge types written to, each once.
    pub fn touched_edge_type_list(&self) -> (r: Vec<String>)
        requires
            self.wf(),
        ensures
            texts(r@).to_set() == self.touched_edge_types(),
            texts(r@).no_duplicates(),
    {
        crate::text::copy_strings(&self.touched_edge_types)
    }

    /// How indexes are rebuilt at commit: not at all unless vector or scalar
    /// indexes were deferred; in the background when `async_indexes` and some
    /// label was written; otherwise label by label before commit returns.
    pub fn index_plan(&self) -> (r: IndexPlan)
        requires
            self.wf(),
        ensures
            !self.spec_config().defer_vector_indexes && !self.spec_config().defer_scalar_indexes
                ==> r is NoRebuild,
            (self.spec_config().defer_vector_indexes || self.spec_config().defer_scalar_indexes)
                && self.spec_config().async_indexes && self.touched_labels().len() > 0 ==> (r matches IndexPlan::Background(l)
                && texts(l@).to_set() == self.touched_labels() && texts(l@).no_duplicates()),
            (self.spec_config().defer_vector_indexes || self.spec_config().defer_scalar_indexes)
                && !(self.spec_config().async_indexes && self.touched_labels().len() > 0) ==> (r matches IndexPlan::Blocking(l)
                && texts(l@).to_set() == self.touched_labels() && texts(l@).no_duplicates()),
    {
        if self.config.defer_vector_indexes || self.config.defer_scalar_indexes {
            let labels = self.touched_label_list();
            proof {
                texts(labels@).unique_seq_to_set();
            }
            if self.config.async_indexes && labels.len() > 0 {
                IndexPlan::Background(labels)
            } else {
                proof {
                    if labels@.len() == 0 {
                        assert(texts(labels@) =~= Seq::<Seq<char>>::empty());
                        assert(texts(labels@).to_set() =~= Set::<Seq<char>>::empty());
                    }
                }
                IndexPlan::Blocking(labels)
            }
        } else {
            IndexPlan::NoRebuild
        }
    }

    /// Counts one label whose indexes were rebuilt.
    pub fn note_index_rebuilt(&mut self)
        requires
            old(self).spec_stats().indexes_rebuilt < usize::MAX,
        ensures
            final(self).spec_stats().indexes_rebuilt == old(self).spec_stats().indexes_rebuilt + 1,
            final(self).spec_stats().vertices_inserted == old(self).spec_stats().vertices_inserted,
            final(self).spec_stats().edges_inserted == old(self).spec_stats().edges_inserted,
            final(self).spec_stats().index_task_ids == old(self).spec_stats().index_task_ids,
            final(self).spec_stats().indexes_pending == old(self).spec_stats().indexes_pending,
            final(self).wf() == old(self).wf(),
            final(self).vertex_buffers() == old(self).vertex_buffers(),
            final(self).edge_buffers() == old(self).edge_buffers(),
            final(self).touched_labels() == old(self).touched_labels(),
            final(self).touched_edge_types() == old(self).touched_edge_types(),
            final(self).table_versions() == old(self).table_versions(),
            final(self).spec_config() == old(self).spec_config(),
            final(self).is_committed() == old(self).is_committed(),
    {
        let ghost before = *self;
        self.stats.indexes_rebuilt = self.stats.indexes_rebuilt + 1;
        proof {
            assert(self.initial_table_versions@ == before.initial_table_versions@);
            assert(self.wf() == before.wf());
        }
    }

    /// Records the background rebuild tasks: indexes are then pending.
    pub fn note_background_tasks(&mut self, task_ids: Vec<String>)
        ensures
            final(self).spec_stats().index_task_ids == task_ids,
            final(self).spec_stats().indexes_pending,
            final(self).spec_stats().vertices_inserted == old(self).spec_stats().vertices_inserted,
            final(self).spec_stats().edges_inserted == old(self).spec_stats().edges_inserted,
            final(self).spec_stats().indexes_rebuilt == old(self).spec_stats().indexes_rebuilt,
            final(self).wf() == old(self).wf(),
            final(self).vertex_buffers() == old(self).vertex_buffers(),
            final(self).edge_buffers() == old(self).edge_buffers(),
            final(self).touched_labels() == old(self).touched_labels(),
            final(self).touched_edge_types() == old(self).touched_edge_types(),
            final(self).table_versions() == old(self).table_versions(),
            final(self).spec_config() == old(self).spec_config(),
            final(self).is_committed() == old(self).is_committed(),
    {
        let ghost before = *self;
        self.stats.index_task_ids = task_ids;
        self.stats.indexes_pending = true;
        proof {
            assert(self.initial_table_versions@ == before.initial_table_versions@);
            assert(self.wf() == before.wf());
        }
    }

    /// Marks the load committed and hands out its statistics with the total
    /// and index-build durations.
    pub fn finish(self, duration: Duration, index_build_duration: Duration) -> (r: BulkStats)
        ensures
            r.vertices_inserted == self.spec_stats().vertices_inserted,
            r.edges_inserted == self.spec_stats().edges_inserted,
            r.indexes_rebuilt == self.spec_stats().indexes_rebuilt,
            r.index_task_ids == self.spec_stats().index_task_ids,
            r.indexes_pending == self.spec_stats().indexes_pending,
            r.duration == duration,
            r.index_build_duration == index_build_duration,
    {
        let mut w = self;
        w.committed = true;
        w.stats.duration = duration;
        w.stats.index_build_duration = index_build_duration;
        w.stats
    }

    /// What aborting rolls back: each table written to goes back to the
    /// version it had, and a table the load created is dropped. A committed
    /// load cannot be aborted. Every buffer is discarded.
    pub fn abort_plan(&mut self) -> (r: Result<Vec<RollbackStep>, UniError>)
        requires
            old(self).wf(),
        ensures
            old(self).is_committed() ==> (r matches Err(UniError::Internal { message })
                && message@ == "Cannot abort: bulk load already committed"@),
            !old(self).is_committed() ==> (r matches Ok(steps) && steps@.len()
                == old(self).recorded_tables().len() && forall|i: int|
                0 <= i < steps@.len() ==> rollback_step_for(
                    #[trigger] steps@[i],
                    old(self).recorded_tables()[i],
                )),
            !old(self).is_committed() ==> final(self).vertex_buffers().dom().is_empty()
                && final(self).edge_buffers().dom().is_empty() && final(self).buffered_bytes() == 0,
            final(self).wf(),
    {
        if self.committed {
            return Err(UniError::Internal { message: owned("Cannot abort: bulk load already committed") });
        }
        self.pending_vertices.clear();
        self.pending_edges.clear();
        self.buffer_size_bytes = 0;
        let mut steps: Vec<RollbackStep> = Vec::new();
        let mut i: usize = 0;
        while i < self.initial_table_versions.len()
            invariant
                i <= self.initial_table_versions@.len(),
                steps@.len() == i,
                forall|j: int| 0 <= j < i ==> rollback_step_for(#[trigger] steps@[j], self.initial_table_versions@[j]),
            decreases self.initial_table_versions.len() - i,
        {
            let (t, v) = &self.initial_table_versions[i];
            let step = match v {
                Some(ver) => RollbackStep::Rollback { table: t.clone(), version: *ver },
                None => RollbackStep::Drop { table: t.clone() },
            };
            steps.push(step);
            i = i + 1;
        }
        proof {
            assert(buffer_map(self.pending_vertices@).dom() =~= Set::<Seq<char>>::empty());
            assert(buffer_map(self.pending_edges@).dom() =~= Set::<Seq<char>>::empty());
        }
        Ok(steps)
    }
}


/// What a snapshot records of one table.
#[derive(Debug, Clone, Copy, PartialEq, Eq, Structural)]
pub struct TableSnapshot {
    pub version: u64,
    pub count: u64,
    pub lance_version: u64,
}

/// The snapshot entry of `table` after a load counted `count` rows in it:
/// the recorded version is kept (0 for a table not yet recorded), the count
/// replaced, and the store version reset to 0.
pub open spec fn counted_entry(tables: Map<Seq<char>, TableSnapshot>, table: Seq<char>, count: u64) -> TableSnapshot {
    TableSnapshot {
        version: if tables.contains_key(table) { tables[table].version } else { 0 },
        count,
        lance_version: 0,
    }
}

/// Records in a snapshot's per-table entries that `table` now holds `count`
/// rows (see [`counted_entry`]).
pub fn record_table_count(tables: &mut Vec<(String, TableSnapshot)>, table: &str, count: u64)
    requires
        crate::params::distinct_names(old(tables)@),
    ensures
        crate::params::distinct_names(final(tables)@),
        crate::params::entry_map(final(tables)@) == crate::params::entry_map(old(tables)@).insert(
            table@,
            counted_entry(crate::params::entry_map(old(tables)@), table@, count),
        ),
{
    let version = recorded_version(tables, table);
    crate::params::bind_entry(tables, owned(table), TableSnapshot { version, count, lance_version: 0 });
}

fn recorded_version(tables: &Vec<(String, TableSnapshot)>, table: &str) -> (r: u64)
    requires
        crate::params::distinct_names(tables@),
    ensures
        r == counted_entry(crate::params::entry_map(tables@), table@, 0).version,
{
    let mut i: usize = 0;
    while i < tables.len()
        invariant
            i <= tables@.len(),
            crate::params::distinct_names(tables@),
            forall|j: int| 0 <= j < i ==> (#[trigger] tables@[j]).0@ != table@,
        decreases tables.len() - i,
    {
        if same_text_str(&tables[i].0, table) {
            proof {
                crate::params::lemma_entry_at(tables@, i as int);
            }
            return tables[i].1.version;
        }
        i = i + 1;
    }
    proof {
        assert(!crate::params::entry_map(tables@).contains_key(table@));
    }
    0
}

fn same_text_str(a: &String, b: &str) -> (r: bool)
    ensures
        r == (a@ == b@),
{
    *a == owned(b)
}

/// How indexes are rebuilt at commit.
pub enum IndexPlan {
    /// No index building was deferred.
    NoRebuild,
    /// Rebuild the indexes of these labels before commit returns.
    Blocking(Vec<String>),
    /// Schedule rebuilds of these labels in the background.
    Background(Vec<String>),
}

/// One step of rolling a table back.
pub enum RollbackStep {
    /// Restore `table` to `version`.
    Rollback { table: String, version: u64 },
    /// Drop `table`, which the load created.
    Drop { table: String },
}

/// `s` is the rollback step for the recorded (table, version) pair `t`.
pub open spec fn rollback_step_for(s: RollbackStep, t: (String, Option<u64>)) -> bool {
    match t.1 {
        Some(v) => s matches RollbackStep::Rollback { table, version } && table == t.0 && version == v,
        None => s matches RollbackStep::Drop { table } && table == t.0,
    }
}

/// The text describing a table that failed to roll back.
pub open spec fn rollback_error_text(table: Seq<char>, error: Seq<char>) -> Seq<char> {
    table + ": "@ + error
}

/// Describes a table that failed to roll back.
pub fn rollback_error(table: &str, error: &str) -> (r: String)
    ensures
        r@ == rollback_error_text(table@, error@),
{
    let mut v = crate::text::chars_of(table);
    crate::text::push_str(&mut v, ": ");
    crate::text::push_str(&mut v, error);
    crate::text::string_from(&v)
}

/// The texts joined with `sep` between them.
pub open spec fn joined(v: Seq<Seq<char>>, sep: Seq<char>) -> Seq<char>
    decreases v.len(),
{
    if v.len() == 0 {
        Seq::empty()
    } else if v.len() == 1 {
        v[0]
    } else {
        joined(v.drop_last(), sep) + sep + v.last()
    }
}

/// Joins texts with `sep` between them.
pub fn join_texts(v: &Vec<String>, sep: &str) -> (r: String)
    ensures
        r@ == joined(texts(v@), sep@),
{
    let mut out: Vec<char> = Vec::new();
    let mut i: usize = 0;
    while i < v.len()
        invariant
            i <= v@.len(),
            out@ == joined(texts(v@).take(i as int), sep@),
        decreases v.len() - i,
    {
        if i > 0 {
            crate::text::push_str(&mut out, sep);
        }
        crate::text::push_str(&mut out, v[i].as_str());
        proof {
            assert(texts(v@).take(i + 1).drop_last() =~= texts(v@).take(i as int));
            if i == 0 {
                assert(texts(v@).take(1)[0] == v@[0]@);
            }
        }
        i = i + 1;
    }
    proof {
        assert(texts(v@).take(v@.len() as int) =~= texts(v@));
    }
    crate::text::string_from(&out)
}

/// How an abort ends given the rollback failures: success when there were
/// none, otherwise one error naming how many and each of them.
pub fn abort_outcome(errors: &Vec<String>) -> (r: Result<(), UniError>)
    ensures
        errors@.len() == 0 ==> r is Ok,
        errors@.len() > 0 ==> (r matches Err(UniError::Internal { message }) && message@
            == "Bulk load abort had "@ + crate::text::nat_digits(errors@.len()) + " rollback errors: "@
            + joined(texts(errors@), "; "@)),
{
    if errors.len() == 0 {
        return Ok(());
    }
    let mut v = crate::text::chars_of("Bulk load abort had ");
    crate::text::push_u64(&mut v, errors.len() as u64);
    crate::text::push_str(&mut v, " rollback errors: ");
    let j = join_texts(errors, "; ");
    crate::text::push_str(&mut v, j.as_str());
    Err(UniError::Internal { message: crate::text::string_from(&v) })
}

/// `order` lists every index below `keys.len()` once, by key and, for equal
/// keys, by index: the order of a stable sort by key.
pub open spec fn stable_order(keys: Seq<u64>, order: Seq<usize>) -> bool {
    &&& order.len() == keys.len()
    &&& forall|i: int| 0 <= i < order.len() ==> (#[trigger] order[i]) < keys.len()
    &&& forall|a: int, b: int|
        0 <= a < b < order.len() ==> keys[#[trigger] order[a] as int] < keys[#[trigger] order[b] as int]
            || (keys[order[a] as int] == keys[order[b] as int] && order[a] < order[b])
}

/// The positions of `keys` in stably sorted order (the forward delta is
/// written in source-id order, the backward delta in destination-id order).
pub fn sorted_positions(keys: &Vec<u64>) -> (r: Vec<usize>)
    ensures
        stable_order(keys@, r@),
        r@.no_duplicates(),
{
    let mut out: Vec<usize> = Vec::new();
    let mut i: usize = 0;
    while i < keys.len()
        invariant
            i <= keys@.len(),
            out@.len() == i,
            forall|k: int| 0 <= k < out@.len() ==> (#[trigger] out@[k]) < i,
            forall|a: int, b: int|
                0 <= a < b < out@.len() ==> keys@[#[trigger] out@[a] as int] < keys@[#[trigger] out@[b] as int]
                    || (keys@[out@[a] as int] == keys@[out@[b] as int] && out@[a] < out@[b]),
        decreases keys.len() - i,
    {
        let k = keys[i];
        let mut p: usize = 0;
        while p < out.len() && keys[out[p]] <= k
            invariant
                p <= out@.len(),
                forall|q: int| 0 <= q < out@.len() ==> (#[trigger] out@[q]) < i,
                i < keys@.len(),
                k == keys@[i as int],
                forall|q: int| 0 <= q < p ==> keys@[#[trigger] out@[q] as int] <= k,
            decreases out.len() - p,
        {
            p = p + 1;
        }
        let ghost before = out@;
        out.insert(p, i);
        proof {
            assert(forall|q: int| 0 <= q < p ==> out@[q] == before[q]);
            assert(forall|q: int| p < q < out@.len() ==> out@[q] == before[q - 1]);
            assert forall|a: int, b: int| 0 <= a < b < out@.len() implies keys@[#[trigger] out@[a] as int]
                < keys@[#[trigger] out@[b] as int] || (keys@[out@[a] as int] == keys@[out@[b] as int]
                && out@[a] < out@[b]) by {
                if b < p {
                } else if b == p {
                    assert(keys@[before[a] as int] <= k);
                } else if a < p {
                    assert(out@[b] == before[b - 1]);
                    assert(before[a] < i);
                } else if a == p {
                    assert(out@[b] == before[b - 1]);
                    if b - 1 == p {
                        assert(!(keys@[before[p as int] as int] <= k));
                    } else {
                        assert(!(keys@[before[p as int] as int] <= k));
                        assert(keys@[before[p as int] as int] < keys@[before[b - 1] as int]
                            || keys@[before[p as int] as int] == keys@[before[b - 1] as int]);
                    }
                } else {
                    assert(out@[a] == before[a - 1]);
                    assert(out@[b] == before[b - 1]);
                }
            }
        }
        i = i + 1;
    }
    proof {
        assert forall|a: int, b: int| 0 <= a < out@.len() && 0 <= b < out@.len() && a != b implies out@[a] != out@[b] by {
            if a < b {
                assert(keys@[out@[a] as int] < keys@[out@[b] as int] || out@[a] < out@[b]);
            } else {
                assert(keys@[out@[b] as int] < keys@[out@[a] as int] || out@[b] < out@[a]);
            }
        }
    }
    out
}


// ---------------------------------------------------------------------------
// Constraint validation of vertex batches
// ---------------------------------------------------------------------------

/// Property `name` is absent from `row` or null.
pub open spec fn missing_or_null(row: Seq<(String, Value)>, name: Seq<char>) -> bool {
    match param_lookup(row, name) {
        None => true,
        Some(v) => v is Null,
    }
}

fn is_missing_or_null(row: &Vec<(String, Value)>, name: &String) -> (r: bool)
    ensures
        r == missing_or_null(row@, name@),
{
    match find_param(row, name) {
        None => true,
        Some(j) => row[j].1.is_null(),
    }
}

/// The first non-nullable property (from position `j` of `meta`) that
/// `row` lacks or holds null.
pub open spec fn first_missing_required(row: Seq<(String, Value)>, meta: Seq<PropertyMeta>, j: int) -> Option<Seq<char>>
    decreases meta.len() - j,
{
    if j < 0 || j >= meta.len() {
        None
    } else if !meta[j].nullable && missing_or_null(row, meta[j].name@) {
        Some(meta[j].name@)
    } else {
        first_missing_required(row, meta, j + 1)
    }
}

/// The NOT NULL violation message.
pub open spec fn not_null_message(row: int, prop: Seq<char>, label: Seq<char>) -> Seq<char> {
    "NOT NULL constraint violation at row "@ + nat_digits(row as nat) + ": property '"@ + prop
        + "' cannot be null for label '"@ + label + "'"@
}

/// The first NOT NULL violation among the rows from position `i`.
pub open spec fn not_null_error(
    label: Seq<char>,
    rows: Seq<Vec<(String, Value)>>,
    meta: Seq<PropertyMeta>,
    i: int,
) -> Option<Seq<char>>
    decreases rows.len() - i,
{
    if i < 0 || i >= rows.len() {
        None
    } else {
        match first_missing_required(rows[i]@, meta, 0) {
            Some(p) => Some(not_null_message(i, p, label)),
            None => not_null_error(label, rows, meta, i + 1),
        }
    }
}

/// The uniqueness key of a row over `props`: the texts of their values
/// joined by `:`, or none when one of them is absent or null.
pub open spec fn unique_key(props: Seq<String>, row: Seq<(String, Value)>) -> Option<Seq<char>> {
    if exists|k: int| 0 <= k < props.len() && missing_or_null(row, #[trigger] props[k]@) {
        None
    } else {
        Some(joined(Seq::new(props.len(), |k: int| value_text(param_lookup(row, props[k]@)->0)), ":"@))
    }
}

/// The uniqueness keys of the rows.
pub open spec fn row_keys(props: Seq<String>, rows: Seq<Vec<(String, Value)>>) -> Seq<Option<Seq<char>>> {
    Seq::new(rows.len(), |i: int| unique_key(props, rows[i]@))
}

/// The first row from position `i` whose key repeats an earlier row's key.
pub open spec fn first_batch_duplicate(keys: Seq<Option<Seq<char>>>, i: int) -> Option<(int, Seq<char>)>
    decreases keys.len() - i,
{
    if i < 0 || i >= keys.len() {
        None
    } else if keys[i] is Some && exists|j: int| 0 <= j < i && keys[j] == keys[i] {
        Some((i, keys[i]->0))
    } else {
        first_batch_duplicate(keys, i + 1)
    }
}

/// The first row from position `i` whose key equals a buffered row's key.
pub open spec fn first_buffered_conflict(
    keys: Seq<Option<Seq<char>>>,
    buffered: Seq<Option<Seq<char>>>,
    i: int,
) -> Option<(int, Seq<char>)>
    decreases keys.len() - i,
{
    if i < 0 || i >= keys.len() {
        None
    } else if keys[i] is Some && buffered.contains(keys[i]) {
        Some((i, keys[i]->0))
    } else {
        first_buffered_conflict(keys, buffered, i + 1)
    }
}

/// The first row from position `i` lacking `prop` (or holding null).
pub open spec fn first_missing_row(rows: Seq<Vec<(String, Value)>>, prop: Seq<char>, i: int) -> Option<int>
    decreases rows.len() - i,
{
    if i < 0 || i >= rows.len() {
        None
    } else if missing_or_null(rows[i]@, prop) {
        Some(i)
    } else {
        first_missing_row(rows, prop, i + 1)
    }
}

/// The first row from position `i` whose CHECK outcome is a failure or a
/// violation.
pub open spec fn first_failed_check(outcomes: Seq<Result<bool, String>>, i: int) -> Option<int>
    decreases outcomes.len() - i,
{
    if i < 0 || i >= outcomes.len() {
        None
    } else if !(outcomes[i] == Ok::<bool, String>(true)) {
        Some(i)
    } else {
        first_failed_check(outcomes, i + 1)
    }
}

/// The error of constraint `c` on the batch, if it is violated.
pub open spec fn constraint_error(
    label: Seq<char>,
    rows: Seq<Vec<(String, Value)>>,
    c: ConstraintDef,
    buffered: Seq<(u64, Vec<(String, Value)>)>,
    outcomes: Seq<Result<bool, String>>,
) -> Option<Seq<char>> {
    if !c.enabled || !(c.target matches ConstraintTarget::Label(l) && l@ == label) {
        None
    } else {
        match c.kind {
            ConstraintKind::Unique { properties } => {
                let keys = row_keys(properties@, rows);
                match first_batch_duplicate(keys, 0) {
                    Some((i, k)) => Some(
                        "UNIQUE constraint violation at row "@ + nat_digits(i as nat) + ": duplicate key '"@
                            + k + "' in batch"@,
                    ),
                    None => match first_buffered_conflict(
                        keys,
                        row_keys(properties@, buffered.map_values(|b: (u64, Vec<(String, Value)>)| b.1)),
                        0,
                    ) {
                        Some((i, k)) => Some(
                            "UNIQUE constraint violation at row "@ + nat_digits(i as nat) + ": key '"@ + k
                                + "' conflicts with buffered data"@,
                        ),
                        None => None,
                    },
                }
            },
            ConstraintKind::Exists { property } => match first_missing_row(rows, property@, 0) {
                Some(i) => Some(
                    "EXISTS constraint violation at row "@ + nat_digits(i as nat) + ": property '"@
                        + property@ + "' must exist"@,
                ),
                None => None,
            },
            ConstraintKind::Check { expression } => match first_failed_check(outcomes, 0) {
                Some(i) => match outcomes[i] {
                    Err(e) => Some(e@),
                    Ok(_) => Some(
                        "CHECK constraint '"@ + c.name@ + "' violated at row "@ + nat_digits(i as nat)
                            + ": expression '"@ + expression@ + "' evaluated to false"@,
                    ),
                },
                None => None,
            },
            _ => None,
        }
    }
}

/// The first violated constraint from position `c` on.
pub open spec fn constraints_error(
    label: Seq<char>,
    rows: Seq<Vec<(String, Value)>>,
    cs: Seq<ConstraintDef>,
    buffered: Seq<(u64, Vec<(String, Value)>)>,
    checks: Seq<Vec<Result<bool, String>>>,
    c: int,
) -> Option<Seq<char>>
    decreases cs.len() - c,
{
    if c < 0 || c >= cs.len() {
        None
    } else {
        match constraint_error(label, rows, cs[c], buffered, checks[c]@) {
            Some(m) => Some(m),
            None => constraints_error(label, rows, cs, buffered, checks, c + 1),
        }
    }
}

/// The error validating a batch reports, if any: first the NOT NULL
/// declarations row by row, then the label's enabled constraints in order.
pub open spec fn batch_error(
    label: Seq<char>,
    rows: Seq<Vec<(String, Value)>>,
    meta: Seq<PropertyMeta>,
    cs: Seq<ConstraintDef>,
    buffered: Seq<(u64, Vec<(String, Value)>)>,
    checks: Seq<Vec<Result<bool, String>>>,
) -> Option<Seq<char>> {
    match not_null_error(label, rows, meta, 0) {
        Some(m) => Some(m),
        None => constraints_error(label, rows, cs, buffered, checks, 0),
    }
}

fn first_required_missing(row: &Vec<(String, Value)>, meta: &Vec<PropertyMeta>) -> (r: Option<String>)
    ensures
        match r {
            Some(p) => first_missing_required(row@, meta@, 0) == Some(p@),
            None => first_missing_required(row@, meta@, 0) is None,
        },
{
    let mut j: usize = 0;
    while j < meta.len()
        invariant
            j <= meta@.len(),
            first_missing_required(row@, meta@, 0) == first_missing_required(row@, meta@, j as int),
        decreases meta.len() - j,
    {
        if !meta[j].nullable && is_missing_or_null(row, &meta[j].name) {
            return Some(meta[j].name.clone());
        }
        j = j + 1;
    }
    None
}

fn row_message(prefix: &str, row: usize, middle: &str, text: &str, suffix: &str) -> (r: String)
    ensures
        r@ == prefix@ + nat_digits(row as nat) + middle@ + text@ + suffix@,
{
    let mut v = chars_of(prefix);
    push_u64(&mut v, row as u64);
    push_str(&mut v, middle);
    push_str(&mut v, text);
    push_str(&mut v, suffix);
    string_from(&v)
}

/// The uniqueness key of `row` over `props` (see [`unique_key`]).
pub fn compute_unique_key(props: &Vec<String>, row: &Vec<(String, Value)>) -> (r: Option<String>)
    ensures
        match r {
            Some(k) => unique_key(props@, row@) == Some(k@),
            None => unique_key(props@, row@) is None,
        },
{
    let mut parts: Vec<String> = Vec::new();
    let mut k: usize = 0;
    while k < props.len()
        invariant
            k <= props@.len(),
            parts@.len() == k,
            forall|q: int| 0 <= q < k ==> !missing_or_null(row@, #[trigger] props@[q]@),
            forall|q: int| 0 <= q < k ==> (#[trigger] parts@[q])@ == value_text(param_lookup(row@, props@[q]@)->0),
        decreases props.len() - k,
    {
        match find_param(row, &props[k]) {
            None => {
                proof {
                    assert(missing_or_null(row@, props@[k as int]@));
                }
                return None;
            },
            Some(j) => {
                if row[j].1.is_null() {
                    proof {
                        assert(missing_or_null(row@, props@[k as int]@));
                    }
                    return None;
                }
                parts.push(value_text_of(&row[j].1));
            },
        }
        k = k + 1;
    }
    let key = join_texts(&parts, ":");
    proof {
        assert(texts(parts@) =~= Seq::new(props@.len(), |q: int| value_text(param_lookup(row@, props@[q]@)->0)));
    }
    Some(key)
}

fn keys_of_rows(props: &Vec<String>, rows: &Vec<Vec<(String, Value)>>) -> (r: Vec<Option<String>>)
    ensures
        r@.len() == rows@.len(),
        forall|i: int| 0 <= i < rows@.len() ==> opt_text(#[trigger] r@[i]) == unique_key(props@, rows@[i]@),
{
    let mut out: Vec<Option<String>> = Vec::new();
    let mut i: usize = 0;
    while i < rows.len()
        invariant
            i <= rows@.len(),
            out@.len() == i,
            forall|q: int| 0 <= q < i ==> opt_text(#[trigger] out@[q]) == unique_key(props@, rows@[q]@),
        decreases rows.len() - i,
    {
        out.push(compute_unique_key(props, &rows[i]));
        i = i + 1;
    }
    out
}

fn keys_of_buffered(props: &Vec<String>, rows: &Vec<(u64, Vec<(String, Value)>)>) -> (r: Vec<Option<String>>)
    ensures
        r@.len() == rows@.len(),
        forall|i: int| 0 <= i < rows@.len() ==> opt_text(#[trigger] r@[i]) == unique_key(props@, rows@[i].1@),
{
    let mut out: Vec<Option<String>> = Vec::new();
    let mut i: usize = 0;
    while i < rows.len()
        invariant
            i <= rows@.len(),
            out@.len() == i,
            forall|q: int| 0 <= q < i ==> opt_text(#[trigger] out@[q]) == unique_key(props@, rows@[q].1@),
        decreases rows.len() - i,
    {
        out.push(compute_unique_key(props, &rows[i].1));
        i = i + 1;
    }
    out
}

fn same_opt_text(a: &Option<String>, b: &Option<String>) -> (r: bool)
    ensures
        r == (opt_text(*a) == opt_text(*b)),
{
    match (a, b) {
        (Some(x), Some(y)) => *x == *y,
        (None, None) => true,
        _ => false,
    }
}

/// Error of one constraint on the batch (see [`constraint_error`]).
#[verifier::loop_isolation(false)]
fn check_constraint(
    label: &String,
    rows: &Vec<Vec<(String, Value)>>,
    c: &ConstraintDef,
    buffered: &Vec<(u64, Vec<(String, Value)>)>,
    outcomes: &Vec<Result<bool, String>>,
) -> (r: Option<String>)
    requires
        c.kind is Check ==> outcomes@.len() == rows@.len(),
    ensures
        opt_text(r) == constraint_error(label@, rows@, *c, buffered@, outcomes@),
{
    let applies = c.enabled && match &c.target {
        ConstraintTarget::Label(l) => *l == *label,
        ConstraintTarget::EdgeType(_) => false,
    };
    if !applies {
        return None;
    }
    match &c.kind {
        ConstraintKind::Unique { properties } => {
            let keys = keys_of_rows(properties, rows);
            let ghost skeys = row_keys(properties@, rows@);
            proof {
                assert forall|q: int| 0 <= q < keys@.len() implies opt_text(#[trigger] keys@[q]) == skeys[q] by {}
            }
            let mut i: usize = 0;
            while i < keys.len()
                invariant
                    i <= keys@.len(),
                    keys@.len() == skeys.len(),
                    forall|q: int| 0 <= q < keys@.len() ==> opt_text(#[trigger] keys@[q]) == skeys[q],
                    first_batch_duplicate(skeys, 0) == first_batch_duplicate(skeys, i as int),
                decreases keys.len() - i,
            {
                if let Some(k) = &keys[i] {
                    let mut j: usize = 0;
                    while j < i
                        invariant
                            j <= i < keys@.len(),
                            keys@.len() == skeys.len(),
                            forall|q: int| 0 <= q < keys@.len() ==> opt_text(#[trigger] keys@[q]) == skeys[q],
                            keys@[i as int] matches Some(kk) && kk@ == k@,
                            forall|q: int| 0 <= q < j ==> skeys[q] != skeys[i as int],
                        decreases i - j,
                    {
                        if same_opt_text(&keys[j], &keys[i]) {
                            proof {
                                assert(skeys[j as int] == skeys[i as int]);
                            }
                            return Some(row_message("UNIQUE constraint violation at row ", i, ": duplicate key '", k.as_str(), "' in batch"));
                        }
                        j = j + 1;
                    }
                }
                i = i + 1;
            }
            let bkeys = keys_of_buffered(properties, buffered);
            let ghost sb = row_keys(properties@, buffered@.map_values(|b: (u64, Vec<(String, Value)>)| b.1));
            proof {
                assert forall|q: int| 0 <= q < bkeys@.len() implies opt_text(#[trigger] bkeys@[q]) == sb[q] by {}
            }
            let mut i: usize = 0;
            while i < keys.len()
                invariant
                    i <= keys@.len(),
                    keys@.len() == skeys.len(),
                    forall|q: int| 0 <= q < keys@.len() ==> opt_text(#[trigger] keys@[q]) == skeys[q],
                    bkeys@.len() == sb.len(),
                    forall|q: int| 0 <= q < bkeys@.len() ==> opt_text(#[trigger] bkeys@[q]) == sb[q],
                    first_batch_duplicate(skeys, 0) is None,
                    first_buffered_conflict(skeys, sb, 0) == first_buffered_conflict(skeys, sb, i as int),
                decreases keys.len() - i,
            {
                if let Some(k) = &keys[i] {
                    let mut j: usize = 0;
                    while j < bkeys.len()
                        invariant
                            j <= bkeys@.len(),
                            i < keys@.len(),
                            keys@.len() == skeys.len(),
                            forall|q: int| 0 <= q < keys@.len() ==> opt_text(#[trigger] keys@[q]) == skeys[q],
                            bkeys@.len() == sb.len(),
                            forall|q: int| 0 <= q < bkeys@.len() ==> opt_text(#[trigger] bkeys@[q]) == sb[q],
                            keys@[i as int] matches Some(kk) && kk@ == k@,
                            forall|q: int| 0 <= q < j ==> sb[q] != skeys[i as int],
                        decreases bkeys.len() - j,
                    {
                        if same_opt_text(&bkeys[j], &keys[i]) {
                            proof {
                                assert(sb[j as int] == skeys[i as int]);
                                assert(sb.contains(skeys[i as int]));
                            }
                            return Some(row_message("UNIQUE constraint violation at row ", i, ": key '", k.as_str(), "' conflicts with buffered data"));
                        }
                        j = j + 1;
                    }
                    proof {
                        assert(!sb.contains(skeys[i as int]));
                    }
                }
                i = i + 1;
            }
            None
        },
        ConstraintKind::Exists { property } => {
            let mut i: usize = 0;
            while i < rows.len()
                invariant
                    i <= rows@.len(),
                    first_missing_row(rows@, property@, 0) == first_missing_row(rows@, property@, i as int),
                decreases rows.len() - i,
            {
                if is_missing_or_null(&rows[i], property) {
                    proof {
                        assert(first_missing_row(rows@, property@, i as int) == Some(i as int));
                        assert(first_missing_row(rows@, property@, 0) == Some(i as int));
                        assert(constraint_error(label@, rows@, *c, buffered@, outcomes@) == Some(
                    "EXISTS constraint violation at row "@ + nat_digits(i as nat) + ": property '"@
                        + property@ + "' must exist"@));
                    }
                    return Some(row_message("EXISTS constraint violation at row ", i, ": property '", property.as_str(), "' must exist"));
                }
                i = i + 1;
            }
            None
        },
        ConstraintKind::Check { expression } => {
            let mut i: usize = 0;
            while i < outcomes.len()
                invariant
                    i <= outcomes@.len(),
                    first_failed_check(outcomes@, 0) == first_failed_check(outcomes@, i as int),
                decreases outcomes.len() - i,
            {
                match &outcomes[i] {
                    Err(e) => {
                        return Some(e.clone());
                    },
                    Ok(holds) => {
                        if !*holds {
                            let mut v = chars_of("CHECK constraint '");
                            push_str(&mut v, c.name.as_str());
                            push_str(&mut v, "' violated at row ");
                            push_u64(&mut v, i as u64);
                            push_str(&mut v, ": expression '");
                            push_str(&mut v, expression.as_str());
                            push_str(&mut v, "' evaluated to false");
                            return Some(string_from(&v));
                        }
                    },
                }
                i = i + 1;
            }
            None
        },
        _ => None,
    }
}

/// Validates a batch of vertex rows for `label` before it is buffered.
///
/// `meta` holds the label's declared properties, `constraints` the schema's
/// constraints, `buffered` the rows of the label already buffered, and
/// `checks[c]` the outcome of the CHECK expression of constraint `c` on each
/// row (see [`evaluate_check`]). The first violation (see [`batch_error`]) is
/// reported as a constraint error.
pub fn validate_vertex_batch_constraints(
    label: &str,
    rows: &Vec<Vec<(String, Value)>>,
    meta: &Vec<PropertyMeta>,
    constraints: &Vec<ConstraintDef>,
    buffered: &Vec<(u64, Vec<(String, Value)>)>,
    checks: &Vec<Vec<Result<bool, String>>>,
) -> (r: Result<(), UniError>)
    requires
        checks@.len() == constraints@.len(),
        forall|c: int|
            0 <= c < constraints@.len() && (#[trigger] constraints@[c]).kind is Check
                ==> checks@[c]@.len() == rows@.len(),
    ensures
        match batch_error(label@, rows@, meta@, constraints@, buffered@, checks@) {
            None => r is Ok,
            Some(m) => r matches Err(UniError::Constraint { message }) && message@ == m,
        },
{
    let l = owned(label);
    let mut i: usize = 0;
    while i < rows.len()
        invariant
            i <= rows@.len(),
            not_null_error(label@, rows@, meta@, 0) == not_null_error(label@, rows@, meta@, i as int),
        decreases rows.len() - i,
    {
        match first_required_missing(&rows[i], meta) {
            Some(p) => {
                let mut v = chars_of("NOT NULL constraint violation at row ");
                push_u64(&mut v, i as u64);
                push_str(&mut v, ": property '");
                push_str(&mut v, p.as_str());
                push_str(&mut v, "' cannot be null for label '");
                push_str(&mut v, label);
                push_str(&mut v, "'");
                return Err(UniError::Constraint { message: string_from(&v) });
            },
            None => {},
        }
        i = i + 1;
    }
    let mut c: usize = 0;
    while c < constraints.len()
        invariant
            c <= constraints@.len(),
            l@ == label@,
            not_null_error(label@, rows@, meta@, 0) is None,
            checks@.len() == constraints@.len(),
            forall|q: int|
                0 <= q < constraints@.len() && (#[trigger] constraints@[q]).kind is Check
                    ==> checks@[q]@.len() == rows@.len(),
            constraints_error(label@, rows@, constraints@, buffered@, checks@, 0) == constraints_error(
                label@,
                rows@,
                constraints@,
                buffered@,
                checks@,
                c as int,
            ),
        decreases constraints.len() - c,
    {
        match check_constraint(&l, rows, &constraints[c], buffered, &checks[c]) {
            Some(m) => {
                return Err(UniError::Constraint { message: m });
            },
            None => {},
        }
        c = c + 1;
    }
    Ok(())
}


// ---------------------------------------------------------------------------
// CHECK expressions
// ---------------------------------------------------------------------------

/// The whitespace-separated words of `s` (what `str::split_whitespace`
/// yields): the maximal runs of non-whitespace characters, in order.
pub open spec fn words(s: Seq<char>) -> Seq<Seq<char>>
    decreases s.len(),
{
    if s.len() == 0 {
        Seq::empty()
    } else {
        let w = words(s.drop_last());
        let c = s.last();
        if char_whitespace(c) {
            w
        } else if s.len() >= 2 && !char_whitespace(s[s.len() - 2]) {
            w.drop_last().push(w.last().push(c))
        } else {
            w.push(seq![c])
        }
    }
}

/// The whitespace-separated words of `s`.
pub fn split_words(s: &str) -> (r: Vec<String>)
    ensures
        texts(r@) == words(s@),
{
    let cs = chars_of(s);
    let mut out: Vec<String> = Vec::new();
    let mut cur: Vec<char> = Vec::new();
    let mut i: usize = 0;
    while i < cs.len()
        invariant
            i <= cs@.len(),
            cs@ == s@,
            cur@.len() > 0 ==> i > 0 && !char_whitespace(cs@[i - 1]),
            i > 0 && !char_whitespace(cs@[i - 1]) ==> cur@.len() > 0,
            words(cs@.take(i as int)) == if cur@.len() > 0 {
                texts(out@).push(cur@)
            } else {
                texts(out@)
            },
        decreases cs.len() - i,
    {
        let c = cs[i];
        let ghost prev = cs@.take(i as int);
        proof {
            assert(cs@.take(i + 1).drop_last() =~= prev);
            assert(cs@.take(i + 1).last() == c);
            if i > 0 {
                assert(cs@.take(i + 1)[i - 1] == cs@[i - 1]);
            }
        }
        if is_whitespace(c) {
            proof {
                assert(words(cs@.take(i + 1)) == words(prev));
            }
            if cur.len() > 0 {
                let ghost before_out = out@;
                let w = string_from(&cur);
                out.push(w);
                cur = Vec::new();
                proof {
                    assert(texts(out@) =~= texts(before_out).push(w@));
                    assert(texts(out@) =~= words(prev));
                }
            }
        } else {
            let ghost before_out = texts(out@);
            let ghost before_cur = cur@;
            let ghost had = cur@.len() > 0;
            cur.push(c);
            proof {
                let s2 = cs@.take(i + 1);
                if had {
                    assert(words(prev) == before_out.push(before_cur));
                    assert(words(prev).drop_last() =~= before_out);
                    assert(s2.len() >= 2 && !char_whitespace(s2[s2.len() - 2]));
                    assert(words(s2) == words(prev).drop_last().push(words(prev).last().push(c)));
                    assert(words(s2) =~= before_out.push(cur@));
                } else {
                    assert(cur@ =~= seq![c]);
                    assert(words(s2) == words(prev).push(seq![c]));
                }
            }
        }
        i = i + 1;
    }
    proof {
        assert(cs@.take(cs@.len() as int) =~= cs@);
    }
    if cur.len() > 0 {
        out.push(string_from(&cur));
        proof {
            assert(texts(out@) =~= words(s@));
        }
    }
    out
}

/// `s` without any leading `c`.
pub open spec fn trim_start_char(s: Seq<char>, c: char) -> Seq<char>
    decreases s.len(),
{
    if s.len() > 0 && s[0] == c { trim_start_char(s.drop_first(), c) } else { s }
}

/// `s` without any trailing `c`.
pub open spec fn trim_end_char(s: Seq<char>, c: char) -> Seq<char>
    decreases s.len(),
{
    if s.len() > 0 && s.last() == c { trim_end_char(s.drop_last(), c) } else { s }
}

/// The part of `s` after its first `.`, or `s` when it has none.
pub open spec fn after_first_dot(s: Seq<char>) -> Seq<char>
    decreases s.len(),
{
    if s.len() == 0 {
        s
    } else if s[0] == '.' {
        s.drop_first()
    } else {
        let rest = after_first_dot(s.drop_first());
        if s.drop_first().contains('.') { rest } else { s }
    }
}

/// The parts of a simple CHECK expression `<property> <op> <literal>`.
pub struct CheckParts {
    pub property: String,
    pub op: String,
    pub literal: String,
}

/// The (property, operator, literal) of a CHECK expression made of exactly
/// three words: the property loses leading `(` and any `alias.` qualifier,
/// the literal loses trailing `)`. Other expressions have no parts.
pub open spec fn check_parts(expression: Seq<char>) -> Option<(Seq<char>, Seq<char>, Seq<char>)> {
    let w = words(expression);
    if w.len() != 3 {
        None
    } else {
        Some((after_first_dot(trim_start_char(w[0], '(')), w[1], trim_end_char(w[2], ')')))
    }
}

fn trim_start_of(v: &Vec<char>, c: char) -> (r: Vec<char>)
    ensures
        r@ == trim_start_char(v@, c),
{
    let mut i: usize = 0;
    proof {
        assert(v@.skip(0) =~= v@);
    }
    while i < v.len() && v[i] == c
        invariant
            i <= v@.len(),
            trim_start_char(v@, c) == trim_start_char(v@.skip(i as int), c),
        decreases v.len() - i,
    {
        proof {
            assert(v@.skip(i as int).drop_first() =~= v@.skip(i + 1));
        }
        i = i + 1;
    }
    let mut r: Vec<char> = Vec::new();
    let mut j: usize = i;
    while j < v.len()
        invariant
            i <= j <= v@.len(),
            r@ == v@.subrange(i as int, j as int),
        decreases v.len() - j,
    {
        r.push(v[j]);
        j = j + 1;
        proof {
            assert(v@.subrange(i as int, j as int) =~= v@.subrange(i as int, j - 1).push(v@[j - 1]));
        }
    }
    proof {
        assert(r@ =~= v@.skip(i as int));
    }
    r
}

fn trim_end_of(v: &Vec<char>, c: char) -> (r: Vec<char>)
    ensures
        r@ == trim_end_char(v@, c),
{
    let mut n: usize = v.len();
    proof {
        assert(v@.take(n as int) =~= v@);
    }
    while n > 0 && v[n - 1] == c
        invariant
            n <= v@.len(),
            trim_end_char(v@, c) == trim_end_char(v@.take(n as int), c),
        decreases n,
    {
        proof {
            assert(v@.take(n as int).drop_last() =~= v@.take(n - 1));
        }
        n = n - 1;
    }
    let mut r: Vec<char> = Vec::new();
    let mut j: usize = 0;
    while j < n
        invariant
            j <= n <= v@.len(),
            r@ == v@.take(j as int),
        decreases n - j,
    {
        r.push(v[j]);
        j = j + 1;
        proof {
            assert(v@.take(j as int) =~= v@.take(j - 1).push(v@[j - 1]));
        }
    }
    r
}

proof fn lemma_after_first_dot(s: Seq<char>, i: int)
    requires
        0 <= i < s.len(),
        s[i] == '.',
        forall|k: int| 0 <= k < i ==> s[k] != '.',
    ensures
        after_first_dot(s) == s.skip(i + 1),
    decreases i,
{
    if i == 0 {
        assert(s.drop_first() =~= s.skip(1));
    } else {
        assert(s.drop_first()[i - 1] == '.');
        lemma_after_first_dot(s.drop_first(), i - 1);
        assert(s.drop_first().skip(i) =~= s.skip(i + 1));
        assert(s.drop_first().contains('.'));
    }
}

proof fn lemma_no_dot(s: Seq<char>)
    requires
        !s.contains('.'),
    ensures
        after_first_dot(s) == s,
    decreases s.len(),
{
    if s.len() > 0 {
        assert(s[0] != '.');
        if s.drop_first().contains('.') {
            let k = choose|k: int| 0 <= k < s.drop_first().len() && s.drop_first()[k] == '.';
            assert(s[k + 1] == '.');
        }
    }
}

fn after_dot_of(v: &Vec<char>) -> (r: Vec<char>)
    ensures
        r@ == after_first_dot(v@),
{
    let mut i: usize = 0;
    while i < v.len()
        invariant
            i <= v@.len(),
            forall|k: int| 0 <= k < i ==> v@[k] != '.',
        decreases v.len() - i,
    {
        if v[i] == '.' {
            let mut r: Vec<char> = Vec::new();
            let mut j: usize = i + 1;
            while j < v.len()
                invariant
                    i + 1 <= j <= v@.len(),
                    r@ == v@.subrange(i + 1, j as int),
                decreases v.len() - j,
            {
                r.push(v[j]);
                j = j + 1;
                proof {
                    assert(v@.subrange(i + 1, j as int) =~= v@.subrange(i + 1, j - 1).push(v@[j - 1]));
                }
            }
            proof {
                lemma_after_first_dot(v@, i as int);
                assert(r@ =~= v@.skip(i + 1));
            }
            return r;
        }
        i = i + 1;
    }
    proof {
        if v@.contains('.') {
            let k = choose|k: int| 0 <= k < v@.len() && v@[k] == '.';
            assert(v@[k] != '.');
        }
        lemma_no_dot(v@);
    }
    let mut r: Vec<char> = Vec::new();
    let mut j: usize = 0;
    while j < v.len()
        invariant
            j <= v@.len(),
            r@ == v@.take(j as int),
        decreases v.len() - j,
    {
        r.push(v[j]);
        j = j + 1;
        proof {
            assert(v@.take(j as int) =~= v@.take(j - 1).push(v@[j - 1]));
        }
    }
    proof {
        assert(v@.take(v@.len() as int) =~= v@);
    }
    r
}

/// The parts of a simple CHECK expression (see [`check_parts`]).
pub fn parse_check_expression(expression: &str) -> (r: Option<CheckParts>)
    ensures
        match r {
            Some(p) => check_parts(expression@) == Some((p.property@, p.op@, p.literal@)),
            None => check_parts(expression@) is None,
        },
{
    let w = split_words(expression);
    if w.len() != 3 {
        return None;
    }
    let p0 = chars_of(w[0].as_str());
    let p2 = chars_of(w[2].as_str());
    let trimmed = trim_start_of(&p0, '(');
    let prop = after_dot_of(&trimmed);
    let lit = trim_end_of(&p2, ')');
    proof {
        assert(texts(w@)[0] == w@[0]@);
        assert(texts(w@)[1] == w@[1]@);
        assert(texts(w@)[2] == w@[2]@);
    }
    Some(CheckParts { property: string_from(&prop), op: w[1].clone(), literal: string_from(&lit) })
}

/// What a CHECK literal denotes, as far as it is decided without floating
/// point: a quoted text, an integer, a boolean, or a text that denotes a
/// float when it parses as one and itself otherwise.
pub enum CheckLiteral {
    Text(String),
    Int(i64),
    Bool(bool),
    FloatOrText(String),
}

/// `s` is wrapped in the quote character `q` (and is longer than one
/// character, so the wrapped text is well defined).
pub open spec fn quoted_by(s: Seq<char>, q: char) -> bool {
    s.len() >= 2 && s[0] == q && s.last() == q
}

/// Classifies a CHECK literal: text in single or double quotes, else an
/// integer, else `true`/`false`, else a float or plain text.
pub open spec fn literal_kind(s: Seq<char>) -> CheckLiteralView {
    if quoted_by(s, '\'') || quoted_by(s, '"') {
        CheckLiteralView::Text(s.subrange(1, s.len() - 1))
    } else if i64_parse(s) is Some {
        CheckLiteralView::Int(i64_parse(s)->0)
    } else if s == "true"@ {
        CheckLiteralView::Bool(true)
    } else if s == "false"@ {
        CheckLiteralView::Bool(false)
    } else {
        CheckLiteralView::FloatOrText(s)
    }
}

/// [`CheckLiteral`] with texts as character sequences.
pub ghost enum CheckLiteralView {
    Text(Seq<char>),
    Int(i64),
    Bool(bool),
    FloatOrText(Seq<char>),
}

/// The view of a classified literal.
pub open spec fn literal_view(l: CheckLiteral) -> CheckLiteralView {
    match l {
        CheckLiteral::Text(t) => CheckLiteralView::Text(t@),
        CheckLiteral::Int(i) => CheckLiteralView::Int(i),
        CheckLiteral::Bool(b) => CheckLiteralView::Bool(b),
        CheckLiteral::FloatOrText(t) => CheckLiteralView::FloatOrText(t@),
    }
}

fn same_chars(a: &Vec<char>, b: &str) -> (r: bool)
    ensures
        r == (a@ == b@),
{
    let bv = chars_of(b);
    if a.len() != bv.len() {
        return false;
    }
    let mut i: usize = 0;
    while i < a.len()
        invariant
            i <= a@.len(),
            a@.len() == bv@.len(),
            bv@ == b@,
            forall|k: int| 0 <= k < i ==> a@[k] == bv@[k],
        decreases a.len() - i,
    {
        if a[i] != bv[i] {
            return false;
        }
        i = i + 1;
    }
    proof {
        assert(a@ =~= bv@);
    }
    true
}

/// Classifies a CHECK literal (see [`literal_kind`]); a lone quote character
/// is refused by the caller's `requires`, as it has no wrapped text.
pub fn classify_check_literal(s: &str) -> (r: CheckLiteral)
    requires
        !(s@ == "'"@ || s@ == "\""@),
    ensures
        literal_view(r) == literal_kind(s@),
{
    let v = chars_of(s);
    let n = v.len();
    if n >= 2 && ((v[0] == '\'' && v[n - 1] == '\'') || (v[0] == '"' && v[n - 1] == '"')) {
        let mut t: Vec<char> = Vec::new();
        let mut j: usize = 1;
        while j < n - 1
            invariant
                1 <= j <= n - 1,
                n == v@.len(),
                n >= 2,
                t@ == v@.subrange(1, j as int),
            decreases n - 1 - j,
        {
            t.push(v[j]);
            j = j + 1;
            proof {
                assert(v@.subrange(1, j as int) =~= v@.subrange(1, j - 1).push(v@[j - 1]));
            }
        }
        return CheckLiteral::Text(string_from(&t));
    }
    proof {
        if n == 1 && (v@[0] == '\'' || v@[0] == '"') {
            assert(v@.len() == 1);
        }
    }
    match parse_i64(s) {
        Some(i) => CheckLiteral::Int(i),
        None => {
            if same_chars(&v, "true") {
                CheckLiteral::Bool(true)
            } else if same_chars(&v, "false") {
                CheckLiteral::Bool(false)
            } else {
                CheckLiteral::FloatOrText(owned(s))
            }
        },
    }
}


/// Whether `prop` equals the literal `t` (a text, integer or boolean).
pub open spec fn equals_literal(prop: Value, t: CheckLiteralView) -> bool {
    match t {
        CheckLiteralView::Text(x) => prop matches Value::String(s) && s@ == x,
        CheckLiteralView::Int(i) => prop == Value::Int(i),
        CheckLiteralView::Bool(b) => prop == Value::Bool(b),
        CheckLiteralView::FloatOrText(_) => false,
    }
}

/// -1, 0 or 1 as `prop` orders before, with or after the literal `t`, when
/// both are integers or both texts; `None` when a float is involved; an
/// error text when they cannot be compared.
pub open spec fn compare_literal(prop: Value, t: CheckLiteralView) -> Result<Option<int>, Seq<char>> {
    match (prop, t) {
        (Value::Int(a), CheckLiteralView::Int(b)) => Ok(Some(if a < b { -1 } else if a > b { 1 } else { 0 })),
        (Value::String(a), CheckLiteralView::Text(b)) => Ok(Some(
            if text_lt(a@, b) { -1 } else if text_lt(b, a@) { 1 } else { 0 },
        )),
        (Value::Float(_), CheckLiteralView::Int(_)) => Ok(None),
        _ => Err("Cannot compare incompatible types"@),
    }
}

/// The outcome of `prop <op> t` in a CHECK expression: `Ok(Some(b))` when
/// decided, `Ok(None)` when it rests on floating-point values (a float
/// property, or a literal that may denote a float), `Err` when the values
/// cannot be compared. Unknown operators hold.
pub open spec fn check_outcome(prop: Value, op: Seq<char>, t: CheckLiteralView) -> Result<Option<bool>, Seq<char>> {
    if prop is Float || t is FloatOrText {
        Ok(None)
    } else if op == "="@ || op == "=="@ {
        Ok(Some(equals_literal(prop, t)))
    } else if op == "!="@ || op == "<>"@ {
        Ok(Some(!equals_literal(prop, t)))
    } else if op == ">"@ || op == "<"@ || op == ">="@ || op == "<="@ {
        match compare_literal(prop, t) {
            Err(e) => Err(e),
            Ok(None) => Ok(None),
            Ok(Some(c)) => Ok(Some(
                if op == ">"@ { c > 0 } else if op == "<"@ { c < 0 } else if op == ">="@ { c >= 0 } else { c <= 0 },
            )),
        }
    } else {
        Ok(Some(true))
    }
}

proof fn lemma_operators_distinct()
    ensures
        ">"@ != "="@, ">"@ != "=="@, ">"@ != "!="@, ">"@ != "<>"@,
        "<"@ != "="@, "<"@ != "=="@, "<"@ != "!="@, "<"@ != "<>"@, "<"@ != ">"@,
        ">="@ != "="@, ">="@ != "=="@, ">="@ != "!="@, ">="@ != "<>"@, ">="@ != ">"@, ">="@ != "<"@,
        "<="@ != "="@, "<="@ != "=="@, "<="@ != "!="@, "<="@ != "<>"@, "<="@ != ">"@, "<="@ != "<"@,
        "<="@ != ">="@, "!="@ != "="@, "!="@ != "=="@, "<>"@ != "="@, "<>"@ != "=="@,
{
    reveal_strlit(">=");
    reveal_strlit("<=");
    reveal_strlit(">");
    reveal_strlit("<");
    reveal_strlit("=");
    reveal_strlit("==");
    reveal_strlit("!=");
    reveal_strlit("<>");
    assert(">"@[0] != "="@[0]);
    assert(">"@.len() != "=="@.len());
    assert(">"@.len() != "!="@.len());
    assert(">"@.len() != "<>"@.len());
    assert("<"@[0] != "="@[0]);
    assert("<"@.len() != "=="@.len());
    assert("<"@.len() != "!="@.len());
    assert("<"@.len() != "<>"@.len());
    assert("<"@[0] != ">"@[0]);
    assert(">="@.len() != "="@.len());
    assert(">="@[0] != "=="@[0]);
    assert(">="@[0] != "!="@[0]);
    assert(">="@[0] != "<>"@[0]);
    assert(">="@.len() != ">"@.len());
    assert(">="@.len() != "<"@.len());
    assert("<="@.len() != "="@.len());
    assert("<="@[0] != "=="@[0]);
    assert("<="@[0] != "!="@[0]);
    assert("<="@[1] != "<>"@[1]);
    assert("<="@.len() != ">"@.len());
    assert("<="@.len() != "<"@.len());
    assert("<="@[0] != ">="@[0]);
    assert("!="@.len() != "="@.len());
    assert("!="@[0] != "=="@[0]);
    assert("<>"@.len() != "="@.len());
    assert("<>"@[0] != "=="@[0]);
}

/// An integer property is checked against an integer literal by the order
/// of the integers: `p >= b` holds exactly when `a >= b`, and so on for each
/// comparison operator, equality and inequality.
pub proof fn law_integer_checks_follow_order(a: i64, b: i64)
    ensures
        check_outcome(Value::Int(a), ">="@, CheckLiteralView::Int(b)) == Ok::<Option<bool>, Seq<char>>(Some(a >= b)),
        check_outcome(Value::Int(a), "<="@, CheckLiteralView::Int(b)) == Ok::<Option<bool>, Seq<char>>(Some(a <= b)),
        check_outcome(Value::Int(a), ">"@, CheckLiteralView::Int(b)) == Ok::<Option<bool>, Seq<char>>(Some(a > b)),
        check_outcome(Value::Int(a), "<"@, CheckLiteralView::Int(b)) == Ok::<Option<bool>, Seq<char>>(Some(a < b)),
        check_outcome(Value::Int(a), "="@, CheckLiteralView::Int(b)) == Ok::<Option<bool>, Seq<char>>(Some(a == b)),
        check_outcome(Value::Int(a), "=="@, CheckLiteralView::Int(b)) == Ok::<Option<bool>, Seq<char>>(Some(a == b)),
        check_outcome(Value::Int(a), "!="@, CheckLiteralView::Int(b)) == Ok::<Option<bool>, Seq<char>>(Some(a != b)),
        check_outcome(Value::Int(a), "<>"@, CheckLiteralView::Int(b)) == Ok::<Option<bool>, Seq<char>>(Some(a != b)),
{
    lemma_operators_distinct();
}

/// A text property is checked against a text literal by the order of
/// texts: `p > t` holds exactly when `t` sorts before the property's text,
/// `p >= t` when it does not sort after it, and so on.
pub proof fn law_text_checks_follow_order(a: String, b: Seq<char>)
    ensures
        check_outcome(Value::String(a), ">"@, CheckLiteralView::Text(b)) == Ok::<Option<bool>, Seq<char>>(Some(text_lt(b, a@))),
        check_outcome(Value::String(a), "<"@, CheckLiteralView::Text(b)) == Ok::<Option<bool>, Seq<char>>(Some(text_lt(a@, b))),
        check_outcome(Value::String(a), ">="@, CheckLiteralView::Text(b)) == Ok::<Option<bool>, Seq<char>>(Some(!text_lt(a@, b))),
        check_outcome(Value::String(a), "<="@, CheckLiteralView::Text(b)) == Ok::<Option<bool>, Seq<char>>(Some(!text_lt(b, a@))),
        check_outcome(Value::String(a), "="@, CheckLiteralView::Text(b)) == Ok::<Option<bool>, Seq<char>>(Some(a@ == b)),
        check_outcome(Value::String(a), "!="@, CheckLiteralView::Text(b)) == Ok::<Option<bool>, Seq<char>>(Some(a@ != b)),
{
    lemma_operators_distinct();
    crate::text::lemma_text_lt_asymmetric(a@, b);
}

/// Compares a property value with a classified CHECK literal (see
/// [`check_outcome`]).
pub fn check_comparison(prop: &Value, op: &str, t: &CheckLiteral) -> (r: Result<Option<bool>, String>)
    ensures
        match r {
            Ok(x) => check_outcome(*prop, op@, literal_view(*t)) == Ok::<Option<bool>, Seq<char>>(x),
            Err(e) => check_outcome(*prop, op@, literal_view(*t)) == Err::<Option<bool>, Seq<char>>(e@),
        },
{
    let opv = chars_of(op);
    let is_float = match prop {
        Value::Float(_) => true,
        _ => false,
    };
    let undecided = match t {
        CheckLiteral::FloatOrText(_) => true,
        _ => false,
    };
    if is_float || undecided {
        return Ok(None);
    }
    let eq = match (prop, t) {
        (Value::String(s), CheckLiteral::Text(x)) => *s == *x,
        (Value::Int(a), CheckLiteral::Int(b)) => *a == *b,
        (Value::Bool(a), CheckLiteral::Bool(b)) => *a == *b,
        _ => false,
    };
    if same_chars(&opv, "=") || same_chars(&opv, "==") {
        return Ok(Some(eq));
    }
    if same_chars(&opv, "!=") || same_chars(&opv, "<>") {
        return Ok(Some(!eq));
    }
    let gt = same_chars(&opv, ">");
    let lt = same_chars(&opv, "<");
    let ge = same_chars(&opv, ">=");
    let le = same_chars(&opv, "<=");
    if !(gt || lt || ge || le) {
        return Ok(Some(true));
    }
    let c: i8 = match (prop, t) {
        (Value::Int(a), CheckLiteral::Int(b)) => if *a < *b { -1 } else if *a > *b { 1 } else { 0 },
        (Value::String(a), CheckLiteral::Text(b)) => if text_less(a, b) {
            -1
        } else if text_less(b, a) {
            1
        } else {
            0
        },
        _ => {
            return Err(owned("Cannot compare incompatible types"));
        },
    };
    if gt {
        Ok(Some(c > 0))
    } else if lt {
        Ok(Some(c < 0))
    } else if ge {
        Ok(Some(c >= 0))
    } else {
        Ok(Some(c <= 0))
    }
}

/// Evaluates a CHECK expression on a row, as far as no floating-point value
/// decides it: expressions that are not `<property> <op> <literal>` hold, a
/// row lacking the property holds, otherwise the comparison decides (see
/// [`check_outcome`]).
pub fn evaluate_check(expression: &str, row: &Vec<(String, Value)>) -> (r: Result<Option<bool>, String>)
    ensures
        match check_parts(expression@) {
            None => r == Ok::<Option<bool>, String>(Some(true)),
            Some((p, op, lit)) => match param_lookup(row@, p) {
                None => r == Ok::<Option<bool>, String>(Some(true)),
                Some(v) => if lit == "'"@ || lit == "\""@ {
                    r == Ok::<Option<bool>, String>(None)
                } else {
                    match r {
                        Ok(x) => check_outcome(v, op, literal_kind(lit)) == Ok::<Option<bool>, Seq<char>>(x),
                        Err(e) => check_outcome(v, op, literal_kind(lit)) == Err::<Option<bool>, Seq<char>>(e@),
                    }
                },
            },
        },
{
    match parse_check_expression(expression) {
        None => Ok(Some(true)),
        Some(parts) => match find_param(row, &parts.property) {
            None => Ok(Some(true)),
            Some(j) => {
                let lv = chars_of(parts.literal.as_str());
                if same_chars(&lv, "'") || same_chars(&lv, "\"") {
                    return Ok(None);
                }
                let t = classify_check_literal(parts.literal.as_str());
                check_comparison(&row[j].1, parts.op.as_str(), &t)
            },
        },
    }
}

} // verus!
