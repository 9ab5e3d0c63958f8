//! The transparent plan cache: plans keyed by a hash of the query text,
//! checked against the exact text and the schema version on every lookup,
//! evicted least-frequently-used when full.
use vstd::prelude::*;
use std::collections::HashMap;
use std::collections::hash_map::DefaultHasher;
use std::hash::Hasher;
use vstd::std_specs::hash::DefaultHasherAdditionalSpecFns;
use crate::value::{text_bytes, value_bytes, u64_bytes, push_u64_bytes, push_value_bytes, Value};
use crate::text::texts;

verus! {

broadcast use vstd::std_specs::hash::group_hash_axioms;

/// The chunks that [`plan_cache_key`] feeds to the hasher: the text's UTF-8
/// bytes, then the `0xff` terminator that `str`'s `Hash` writes.
pub open spec fn text_chunks(cypher: Seq<char>) -> Seq<Seq<u8>> {
    seq![text_bytes(cypher), seq![0xffu8]]
}

/// The hash key of a query text (see [`plan_cache_key`]).
pub open spec fn text_key(cypher: Seq<char>) -> u64 {
    DefaultHasher::spec_finish(text_chunks(cypher))
}

/// Hash key of a query text, as `str`'s `Hash` feeds it to a
/// `DefaultHasher` created with `DefaultHasher::new()` (fixed keys, so the same
/// text gives the same key in every process).
pub fn plan_cache_key(cypher: &str) -> (r: u64)
    ensures
        r == text_key(cypher@),
{
    let mut hasher = DefaultHasher::new();
    hasher.write(cypher.as_bytes());
    let mut end: Vec<u8> = Vec::new();
    end.push(0xffu8);
    hasher.write(end.as_slice());
    proof {
        assert(hasher@ =~= text_chunks(cypher@));
    }
    hasher.finish()
}


/// A cached plan with the query text and schema version it was built for.
pub struct PlanCacheEntry<P> {
    pub plan: P,
    /// The exact query text the plan was built from; compared on every
    /// lookup, since distinct texts may share a key.
    pub query: String,
    pub schema_version: u32,
    pub hit_count: u64,
}

/// The entry after one more hit.
pub open spec fn bumped<P>(e: PlanCacheEntry<P>) -> PlanCacheEntry<P> {
    PlanCacheEntry {
        plan: e.plan,
        query: e.query,
        schema_version: e.schema_version,
        hit_count: (e.hit_count + 1) as u64,
    }
}

/// Whether `key` holds an entry for exactly `query` (a different text under
/// the same key is a collision, not a hit).
pub open spec fn same_query<P>(m: Map<u64, PlanCacheEntry<P>>, key: u64, query: Seq<char>) -> bool {
    m.contains_key(key) && m[key].query@ == query
}

/// Whether `k` is an entry of `m` with the fewest hits.
pub open spec fn least_used<P>(m: Map<u64, PlanCacheEntry<P>>, k: u64) -> bool {
    &&& m.contains_key(k)
    &&& forall|j: u64| #[trigger] m.contains_key(j) ==> m[k].hit_count <= m[j].hit_count
}

/// How many query texts the folded-parameter record may hold before it is
/// cleared: eight times the plan capacity, saturating.
pub open spec fn folded_limit(max_entries: nat) -> nat {
    if max_entries * 8 > usize::MAX { usize::MAX as nat } else { max_entries * 8 }
}

/// The first value bound to `name` in `params`, if any.
pub open spec fn param_lookup(params: Seq<(String, Value)>, name: Seq<char>) -> Option<Value>
    decreases params.len(),
{
    if params.len() == 0 {
        None
    } else if params[0].0@ == name {
        Some(params[0].1)
    } else {
        param_lookup(params.drop_first(), name)
    }
}

/// What the effective key hashes for each folded parameter name: the name as
/// `str` hashes it, then `1` and the value's encoding when the parameter is
/// bound, or `0` when it is not.
pub open spec fn name_chunks(names: Seq<String>, params: Seq<(String, Value)>) -> Seq<Seq<u8>>
    decreases names.len(),
{
    if names.len() == 0 {
        Seq::empty()
    } else {
        let name = names.last()@;
        let head = name_chunks(names.drop_last(), params) + text_chunks(name);
        match param_lookup(params, name) {
            Some(v) => head + seq![seq![1u8], value_bytes(v)],
            None => head + seq![seq![0u8]],
        }
    }
}

/// The key a plan for the text hashed to `text_key` is cached under, given
/// the folded-parameter record and the bound parameters: with folded
/// parameters recorded for that text, a hash of the text key and their
/// values; otherwise the text key itself.
pub open spec fn key_for(folded: Map<u64, Vec<String>>, text_key: u64, params: Seq<(String, Value)>) -> u64 {
    if folded.contains_key(text_key) && folded[text_key]@.len() > 0 {
        DefaultHasher::spec_finish(seq![u64_bytes(text_key)] + name_chunks(folded[text_key]@, params))
    } else {
        text_key
    }
}

/// The plan a lookup of `query` under `key` at schema version `version`
/// hands out: the entry's plan when the entry holds exactly that text and
/// was planned at that version.
pub open spec fn cached_plan_for<P>(entries: Map<u64, PlanCacheEntry<P>>, key: u64, query: Seq<char>, version: u32) -> Option<P> {
    if same_query(entries, key, query) && entries[key].schema_version == version {
        Some(entries[key].plan)
    } else {
        None
    }
}

/// The folded-parameter record after noting that planning the text hashed
/// to `text_key` folded `names`: empty `names` change nothing; a text
/// already recorded keeps its first record; the record is cleared first
/// once it holds [`folded_limit`] texts.
pub open spec fn folded_after(
    folded: Map<u64, Vec<String>>,
    capacity: nat,
    text_key: u64,
    names: Vec<String>,
) -> Map<u64, Vec<String>> {
    if names@.len() == 0 {
        folded
    } else {
        let base = if folded.len() >= folded_limit(capacity) {
            Map::<u64, Vec<String>>::empty()
        } else {
            folded
        };
        if base.contains_key(text_key) {
            base
        } else {
            base.insert(text_key, names)
        }
    }
}

/// Feeds the single byte `b` to `hasher`, as `u8`'s `Hash` does.
fn write_byte(hasher: &mut DefaultHasher, b: u8)
    ensures
        final(hasher)@ == old(hasher)@.push(seq![b]),
{
    let mut one: Vec<u8> = Vec::new();
    one.push(b);
    hasher.write(one.as_slice());
    proof {
        assert(one@ =~= seq![b]);
    }
}

/// Looking a name up finds its first binding.
pub proof fn lemma_lookup_first(params: Seq<(String, Value)>, name: Seq<char>, i: int)
    requires
        0 <= i < params.len(),
        params[i].0@ == name,
        forall|j: int| 0 <= j < i ==> (#[trigger] params[j]).0@ != name,
    ensures
        param_lookup(params, name) == Some(params[i].1),
    decreases i,
{
    if i > 0 {
        assert forall|j: int| 0 <= j < i - 1 implies (#[trigger] params.drop_first()[j]).0@ != name by {
            assert(params.drop_first()[j] == params[j + 1]);
        }
        lemma_lookup_first(params.drop_first(), name, i - 1);
    }
}

/// Looking up a name no entry binds finds nothing.
pub proof fn lemma_lookup_absent(params: Seq<(String, Value)>, name: Seq<char>)
    requires
        forall|j: int| 0 <= j < params.len() ==> (#[trigger] params[j]).0@ != name,
    ensures
        param_lookup(params, name) is None,
    decreases params.len(),
{
    if params.len() > 0 {
        assert forall|j: int| 0 <= j < params.len() - 1 implies (#[trigger] params.drop_first()[j]).0@ != name by {
            assert(params.drop_first()[j] == params[j + 1]);
        }
        lemma_lookup_absent(params.drop_first(), name);
    }
}

/// Appending a binding only adds a name that was not bound before.
pub proof fn lemma_lookup_push(params: Seq<(String, Value)>, entry: (String, Value), name: Seq<char>)
    ensures
        param_lookup(params.push(entry), name) == if param_lookup(params, name) is Some {
            param_lookup(params, name)
        } else if entry.0@ == name {
            Some(entry.1)
        } else {
            None
        },
    decreases params.len(),
{
    if params.len() == 0 {
        assert(params.push(entry).drop_first() =~= Seq::<(String, Value)>::empty());
        assert(params.push(entry)[0] == entry);
        assert(param_lookup(Seq::<(String, Value)>::empty(), name) is None);
    } else {
        assert(params.push(entry).drop_first() =~= params.drop_first().push(entry));
        assert(params.push(entry)[0] == params[0]);
        lemma_lookup_push(params.drop_first(), entry, name);
    }
}

proof fn lemma_lookup_skip(params: Seq<(String, Value)>, name: Seq<char>, i: int)
    requires
        0 <= i < params.len(),
    ensures
        param_lookup(params.skip(i), name) == if params[i].0@ == name {
            Some(params[i].1)
        } else {
            param_lookup(params.skip(i + 1), name)
        },
{
    assert(params.skip(i).drop_first() =~= params.skip(i + 1));
    assert(params.skip(i)[0] == params[i]);
}

/// Index of the first parameter named `name`.
pub(crate) fn find_param(params: &Vec<(String, Value)>, name: &String) -> (r: Option<usize>)
    ensures
        match r {
            Some(j) => j < params@.len() && param_lookup(params@, name@) == Some(params@[j as int].1),
            None => param_lookup(params@, name@) is None,
        },
{
    let mut i: usize = 0;
    proof {
        assert(params@.skip(0) =~= params@);
    }
    while i < params.len()
        invariant
            i <= params@.len(),
            param_lookup(params@, name@) == param_lookup(params@.skip(i as int), name@),
        decreases params.len() - i,
    {
        proof {
            lemma_lookup_skip(params@, name@, i as int);
        }
        if params[i].0 == *name {
            return Some(i);
        }
        i = i + 1;
    }
    proof {
        assert(params@.skip(i as int).len() == 0);
    }
    None
}

proof fn lemma_suffix_differs(h1: Seq<Seq<u8>>, h2: Seq<Seq<u8>>, t1: Seq<Seq<u8>>, t2: Seq<Seq<u8>>)
    requires
        t1.len() > 0,
        t2.len() > 0,
        t1.last() != t2.last(),
    ensures
        h1 + t1 != h2 + t2,
{
    assert((h1 + t1).last() == t1.last());
    assert((h2 + t2).last() == t2.last());
}

proof fn lemma_prefix_differs(h1: Seq<Seq<u8>>, h2: Seq<Seq<u8>>, t: Seq<Seq<u8>>)
    requires
        h1 != h2,
    ensures
        h1 + t != h2 + t,
{
    let a = h1 + t;
    let b = h2 + t;
    if a == b {
        assert(a.len() == b.len());
        assert(h1 =~= a.subrange(0, h1.len() as int));
        assert(h2 =~= b.subrange(0, h2.len() as int));
    }
}

proof fn lemma_name_chunks_differ(
    names: Seq<String>,
    p1: Seq<(String, Value)>,
    p2: Seq<(String, Value)>,
    n: Seq<char>,
    v1: Value,
    v2: Value,
)
    requires
        texts(names).contains(n),
        param_lookup(p1, n) == Some(v1),
        param_lookup(p2, n) == Some(v2),
        value_bytes(v1) != value_bytes(v2),
        forall|m: Seq<char>| m != n ==> #[trigger] param_lookup(p1, m) == param_lookup(p2, m),
    ensures
        name_chunks(names, p1) != name_chunks(names, p2),
    decreases names.len(),
{
    let name = names.last()@;
    let h1 = name_chunks(names.drop_last(), p1) + text_chunks(name);
    let h2 = name_chunks(names.drop_last(), p2) + text_chunks(name);
    if name == n {
        lemma_suffix_differs(h1, h2, seq![seq![1u8], value_bytes(v1)], seq![seq![1u8], value_bytes(v2)]);
    } else {
        let i = choose|i: int| 0 <= i < texts(names).len() && texts(names)[i] == n;
        assert(i < names.len() - 1);
        assert(texts(names.drop_last())[i] == n);
        lemma_name_chunks_differ(names.drop_last(), p1, p2, n, v1, v2);
        lemma_prefix_differs(name_chunks(names.drop_last(), p1), name_chunks(names.drop_last(), p2), text_chunks(name));
        assert(param_lookup(p1, name) == param_lookup(p2, name));
        let t = match param_lookup(p1, name) {
            Some(v) => seq![seq![1u8], value_bytes(v)],
            None => seq![seq![0u8]],
        };
        lemma_prefix_differs(h1, h2, t);
    }
}

/// Every folded parameter's value goes into the effective key: for a text
/// whose planning folded parameter `n` (among any others), two lookups whose
/// parameters differ only in `n`'s value hash different inputs, so they are
/// cached apart up to hash collisions.
pub proof fn law_each_folded_value_reaches_the_key(
    folded: Map<u64, Vec<String>>,
    text_key: u64,
    p1: Seq<(String, Value)>,
    p2: Seq<(String, Value)>,
    n: Seq<char>,
    v1: Value,
    v2: Value,
)
    requires
        folded.contains_key(text_key),
        texts(folded[text_key]@).contains(n),
        param_lookup(p1, n) == Some(v1),
        param_lookup(p2, n) == Some(v2),
        value_bytes(v1) != value_bytes(v2),
        forall|m: Seq<char>| m != n ==> #[trigger] param_lookup(p1, m) == param_lookup(p2, m),
    ensures
        exists|x1: Seq<Seq<u8>>, x2: Seq<Seq<u8>>|
            x1 != x2 && key_for(folded, text_key, p1) == DefaultHasher::spec_finish(x1) && key_for(
                folded,
                text_key,
                p2,
            ) == DefaultHasher::spec_finish(x2),
{
    let names = folded[text_key]@;
    assert(names.len() > 0);
    lemma_name_chunks_differ(names, p1, p2, n, v1, v2);
    lemma_prefix_differs(name_chunks(names, p1), name_chunks(names, p2), Seq::empty());
    let x1 = seq![u64_bytes(text_key)] + name_chunks(names, p1);
    let x2 = seq![u64_bytes(text_key)] + name_chunks(names, p2);
    assert(x1 != x2) by {
        if x1 == x2 {
            assert(name_chunks(names, p1) =~= x1.subrange(1, x1.len() as int));
            assert(name_chunks(names, p2) =~= x2.subrange(1, x2.len() as int));
        }
    }
    assert(key_for(folded, text_key, p1) == DefaultHasher::spec_finish(x1));
    assert(key_for(folded, text_key, p2) == DefaultHasher::spec_finish(x2));
    assert(x1 != x2 && key_for(folded, text_key, p1) == DefaultHasher::spec_finish(x1) && key_for(
        folded,
        text_key,
        p2,
    ) == DefaultHasher::spec_finish(x2));
}

/// Transparent plan cache keyed by query-text hash, evicting the least
/// frequently used entry when full.
pub struct PlanCache<P> {
    entries: HashMap<u64, PlanCacheEntry<P>>,
    folded_params: HashMap<u64, Vec<String>>,
    max_entries: usize,
}

impl<P> PlanCache<P> {
    /// The cached entries by key.
    pub closed spec fn entries(&self) -> Map<u64, PlanCacheEntry<P>> {
        self.entries@
    }

    /// The parameter names recorded as folded into the plan, by text key.
    pub closed spec fn folded(&self) -> Map<u64, Vec<String>> {
        self.folded_params@
    }

    /// The number of plans the cache holds before it evicts.
    pub closed spec fn capacity(&self) -> nat {
        self.max_entries as nat
    }

    /// An empty cache that holds up to `max_entries` plans.
    pub fn new(max_entries: usize) -> (r: Self)
        ensures
            r.entries() == Map::<u64, PlanCacheEntry<P>>::empty(),
            r.folded() == Map::<u64, Vec<String>>::empty(),
            r.capacity() == max_entries,
    {
        PlanCache { entries: HashMap::new(), folded_params: HashMap::new(), max_entries }
    }

    /// The cache holds finitely many plans.
    pub proof fn lemma_entries_finite(&self)
        ensures
            self.entries().dom().finite(),
    {
    }

    /// Number of cached plans.
    pub fn len(&self) -> (r: usize)
        ensures
            r == self.entries().len(),
    {
        self.entries.len()
    }

    /// Looks `key` up for `query` under schema version `current_schema_version`.
    ///
    /// A different text under the same key misses and keeps the resident
    /// entry; the same text under another schema version misses and evicts the
    /// stale entry; otherwise the entry's hit count goes up by one and the
    /// entry is returned.
    pub fn get(&mut self, key: u64, query: &str, current_schema_version: u32) -> (r: Option<
        &PlanCacheEntry<P>,
    >)
        requires
            same_query(old(self).entries(), key, query@) && old(self).entries()[key].schema_version
                == current_schema_version ==> old(self).entries()[key].hit_count < u64::MAX,
        ensures
            final(self).folded() == old(self).folded(),
            final(self).capacity() == old(self).capacity(),
            !same_query(old(self).entries(), key, query@) ==> {
                &&& r is None
                &&& final(self).entries() == old(self).entries()
            },
            same_query(old(self).entries(), key, query@)
                && old(self).entries()[key].schema_version == current_schema_version ==> {
                &&& final(self).entries() == old(self).entries().insert(
                    key,
                    bumped(old(self).entries()[key]),
                )
                &&& r == Some(&bumped(old(self).entries()[key]))
            },
            same_query(old(self).entries(), key, query@)
                && old(self).entries()[key].schema_version != current_schema_version ==> {
                &&& r is None
                &&& final(self).entries() == old(self).entries().remove(key)
            },
    {
        let found = self.entries.remove(&key);
        match found {
            None => {
                proof {
                    assert(self.entries@ =~= old(self).entries@);
                }
                None
            },
            Some(mut e) => {
                let text = query.to_owned();
                if e.query != text {
                    self.entries.insert(key, e);
                    proof {
                        assert(self.entries@ =~= old(self).entries@);
                    }
                    None
                } else if e.schema_version == current_schema_version {
                    e.hit_count = e.hit_count + 1;
                    self.entries.insert(key, e);
                    proof {
                        assert(self.entries@ =~= old(self).entries@.insert(
                            key,
                            bumped(old(self).entries@[key]),
                        ));
                    }
                    self.entries.get(&key)
                } else {
                    None
                }
            },
        }
    }

    /// A key among the cached entries with the fewest hits.
    fn least_used_key(&self) -> (r: u64)
        requires
            self.entries@.len() > 0,
        ensures
            least_used(self.entries@, r),
    {
        let ghost m = self.entries@;
        let mut best: u64 = 0;
        let mut best_hits: u64 = 0;
        let mut found: bool = false;
        for k in it: self.entries.keys()
            invariant
                m == self.entries@,
                it.seq().unref().to_set() == m.dom(),
                found ==> m.contains_key(best) && m[best].hit_count == best_hits,
                found ==> forall|j: int|
                    0 <= j < it.index() ==> best_hits <= #[trigger] m[*it.seq()[j]].hit_count,
                !found ==> it.index() == 0,
            ensures
                found ==> m.contains_key(best) && m[best].hit_count == best_hits,
                found ==> forall|j: u64| #[trigger] m.contains_key(j) ==> best_hits <= m[j].hit_count,
                !found ==> m.dom().len() == 0,
        {
            assert(it.seq().unref().to_set().contains(*k));
            let e = self.entries.get(k).unwrap();
            if !found || e.hit_count < best_hits {
                best = *k;
                best_hits = e.hit_count;
                found = true;
            }
        }
        best
    }

    /// Caches `entry` under `key`, first evicting an entry with the fewest
    /// hits when the cache already holds `capacity()` plans or more.
    pub fn insert(&mut self, key: u64, entry: PlanCacheEntry<P>)
        ensures
            final(self).folded() == old(self).folded(),
            final(self).capacity() == old(self).capacity(),
            old(self).entries().len() < old(self).capacity() || old(self).entries().len() == 0
                ==> final(self).entries() == old(self).entries().insert(key, entry),
            old(self).entries().len() >= old(self).capacity() && old(self).entries().len() > 0
                ==> exists|k: u64|
                least_used(old(self).entries(), k) && final(self).entries()
                    == old(self).entries().remove(k).insert(key, entry),
            final(self).entries().contains_key(key),
            final(self).entries()[key] == entry,
            old(self).entries().len() <= old(self).capacity() && old(self).capacity() > 0
                ==> final(self).entries().len() <= old(self).capacity(),
    {
        proof {
            assert(old(self).entries@.dom().finite());
        }
        if self.entries.len() >= self.max_entries && self.entries.len() > 0 {
            let k = self.least_used_key();
            self.entries.remove(&k);
            self.entries.insert(key, entry);
            proof {
                assert(least_used(old(self).entries(), k));
            }
        } else {
            self.entries.insert(key, entry);
        }
    }

    /// The key under which a plan for the text hashed to `text_key` is cached
    /// given the bound parameters `params`.
    ///
    /// When planning that text folded parameters into the plan (see
    /// [`PlanCache::note_folded_params`]), their current values are hashed into
    /// the key, so each distinct value gets its own entry; otherwise the key is
    /// `text_key` itself.
    pub fn effective_key(&self, text_key: u64, params: &Vec<(String, Value)>) -> (r: u64)
        ensures
            r == key_for(self.folded(), text_key, params@),
    {
        match self.folded_params.get(&text_key) {
            None => text_key,
            Some(names) => {
                if names.len() == 0 {
                    return text_key;
                }
                let mut hasher = DefaultHasher::new();
                let mut kb: Vec<u8> = Vec::new();
                push_u64_bytes(&mut kb, text_key);
                hasher.write(kb.as_slice());
                let mut i: usize = 0;
                while i < names.len()
                    invariant
                        i <= names@.len(),
                        hasher@ == seq![u64_bytes(text_key)] + name_chunks(
                            names@.take(i as int),
                            params@,
                        ),
                    decreases names.len() - i,
                {
                    let name = &names[i];
                    hasher.write(name.as_str().as_bytes());
                    write_byte(&mut hasher, 0xffu8);
                    match find_param(params, name) {
                        Some(j) => {
                            write_byte(&mut hasher, 1u8);
                            let mut vb: Vec<u8> = Vec::new();
                            push_value_bytes(&mut vb, &params[j].1);
                            hasher.write(vb.as_slice());
                        },
                        None => {
                            write_byte(&mut hasher, 0u8);
                        },
                    }
                    proof {
                        assert(names@.take(i + 1).drop_last() =~= names@.take(i as int));
                        assert(names@.take(i + 1).last() == names@[i as int]);
                    }
                    i = i + 1;
                    proof {
                        assert(hasher@ =~= seq![u64_bytes(text_key)] + name_chunks(
                            names@.take(i as int),
                            params@,
                        ));
                    }
                }
                proof {
                    assert(names@.take(names@.len() as int) =~= names@);
                }
                hasher.finish()
            },
        }
    }

    /// The cached plan for `cypher` with the bound parameters `params` at
    /// schema version `schema_version`, counting the hit (the lookup step of
    /// a cached execution; see [`cached_plan_for`]).
    pub fn cached_plan(&mut self, cypher: &str, params: &Vec<(String, Value)>, schema_version: u32) -> (r: Option<&P>)
        requires
            cached_plan_for(old(self).entries(), key_for(old(self).folded(), text_key(cypher@), params@), cypher@, schema_version) is Some
                ==> old(self).entries()[key_for(old(self).folded(), text_key(cypher@), params@)].hit_count < u64::MAX,
        ensures
            final(self).folded() == old(self).folded(),
            final(self).capacity() == old(self).capacity(),
            ({
                let k = key_for(old(self).folded(), text_key(cypher@), params@);
                &&& (r is Some) == (cached_plan_for(old(self).entries(), k, cypher@, schema_version) is Some)
                &&& r is Some ==> *r->0 == cached_plan_for(old(self).entries(), k, cypher@, schema_version)->0
                &&& r is Some ==> final(self).entries() == old(self).entries().insert(k, bumped(old(self).entries()[k]))
                &&& !same_query(old(self).entries(), k, cypher@) ==> final(self).entries() == old(self).entries()
                &&& same_query(old(self).entries(), k, cypher@) && r is None ==> final(self).entries()
                    == old(self).entries().remove(k)
            }),
    {
        let text = plan_cache_key(cypher);
        let key = self.effective_key(text, params);
        match self.get(key, cypher, schema_version) {
            Some(entry) => Some(&entry.plan),
            None => None,
        }
    }

    /// Caches `plan`, freshly planned for `cypher` with `params` at schema
    /// version `schema_version`, after noting the parameters the planner
    /// folded into it (the caching step of a cached execution).
    pub fn cache_plan(
        &mut self,
        cypher: &str,
        params: &Vec<(String, Value)>,
        folded: Vec<String>,
        plan: P,
        schema_version: u32,
    )
        ensures
            final(self).capacity() == old(self).capacity(),
            final(self).folded() == folded_after(old(self).folded(), old(self).capacity(), text_key(cypher@), folded),
            ({
                let k = key_for(final(self).folded(), text_key(cypher@), params@);
                &&& final(self).entries().contains_key(k)
                &&& final(self).entries()[k].plan == plan
                &&& final(self).entries()[k].query@ == cypher@
                &&& final(self).entries()[k].schema_version == schema_version
                &&& final(self).entries()[k].hit_count == 0
            }),
            old(self).entries().len() <= old(self).capacity() && old(self).capacity() > 0
                ==> final(self).entries().len() <= old(self).capacity(),
    {
        let text = plan_cache_key(cypher);
        self.note_folded_params(text, folded);
        let key = self.effective_key(text, params);
        let entry = PlanCacheEntry { plan, query: crate::text::owned(cypher), schema_version, hit_count: 0 };
        self.insert(key, entry);
    }

    /// Records that planning the text hashed to `text_key` folded the
    /// parameters `names` into the plan.
    ///
    /// Empty `names` change nothing; a text already recorded keeps its first
    /// record. The record is cleared first once it holds
    /// [`folded_limit`] texts, which keeps it bounded.
    pub fn note_folded_params(&mut self, text_key: u64, names: Vec<String>)
        ensures
            final(self).entries() == old(self).entries(),
            final(self).capacity() == old(self).capacity(),
            final(self).folded() == folded_after(old(self).folded(), old(self).capacity(), text_key, names),
    {
        if names.len() == 0 {
            return;
        }
        let limit: usize = match self.max_entries.checked_mul(8) {
            Some(l) => l,
            None => usize::MAX,
        };
        if self.folded_params.len() >= limit {
            self.folded_params.clear();
        }
        if !self.folded_params.contains_key(&text_key) {
            self.folded_params.insert(text_key, names);
        }
    }
}

/// A plan just cached for a query is what a lookup of the same text, with
/// the same parameters and at the same schema version, hands back.
pub proof fn law_cached_plan_is_found<P>(
    entries: Map<u64, PlanCacheEntry<P>>,
    folded: Map<u64, Vec<String>>,
    cypher: Seq<char>,
    params: Seq<(String, Value)>,
    plan: P,
    schema_version: u32,
)
    requires
        ({
            let k = key_for(folded, text_key(cypher), params);
            &&& entries.contains_key(k)
            &&& entries[k].plan == plan
            &&& entries[k].query@ == cypher
            &&& entries[k].schema_version == schema_version
        }),
    ensures
        cached_plan_for(entries, key_for(folded, text_key(cypher), params), cypher, schema_version) == Some(plan),
{
}

/// A lookup under a key whose entry holds another text misses, whatever the
/// schema version: colliding keys never hand out another query's plan.
pub proof fn law_colliding_text_misses<P>(entries: Map<u64, PlanCacheEntry<P>>, key: u64, query: Seq<char>, version: u32)
    requires
        entries.contains_key(key),
        entries[key].query@ != query,
    ensures
        cached_plan_for(entries, key, query, version) is None,
{
}

/// A plan planned at another schema version is never handed out.
pub proof fn law_stale_plan_misses<P>(entries: Map<u64, PlanCacheEntry<P>>, key: u64, query: Seq<char>, version: u32)
    requires
        entries.contains_key(key),
        entries[key].schema_version != version,
    ensures
        cached_plan_for(entries, key, query, version) is None,
{
}

} // verus!
