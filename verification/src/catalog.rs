//! The schema a batch of staged changes is applied to, and the batch apply
//! itself: the changes are applied in order, and a batch that is refused at
//! any change leaves the schema exactly as it was.
use vstd::prelude::*;
use crate::errors::UniError;
use crate::schema::{
    edge_type_declared, endpoint_conflict_message, index_declared, index_label, index_name,
    index_same, label_declared, labels_to_rebuild, opt_text, property_declared, DataType, IndexDef,
    SchemaChange,
};
use crate::text::{ascii_lower, ascii_lowercase, chars_of, contains, has_prefix, owned, strictly_sorted, texts};

verus! {

/// A label as the schema records it.
pub struct LabelEntry {
    pub name: String,
    pub description: Option<String>,
}

/// An edge type as the schema records it.
pub struct EdgeTypeEntry {
    pub name: String,
    pub from_labels: Vec<String>,
    pub to_labels: Vec<String>,
    pub description: Option<String>,
}

/// A property declaration as the schema records it.
pub struct PropertyEntry {
    pub owner: String,
    pub name: String,
    pub data_type: DataType,
    pub nullable: bool,
    pub description: Option<String>,
}

/// What a schema holds: its labels, edge types, property declarations and
/// index definitions (with their descriptions), each in the order recorded. A later declaration of a
/// name takes over from an earlier one.
pub ghost struct CatalogView {
    pub labels: Seq<LabelEntry>,
    pub edge_types: Seq<EdgeTypeEntry>,
    pub properties: Seq<PropertyEntry>,
    pub indexes: Seq<IndexDef>,
}

/// The schema that staged changes are applied to.
pub struct SchemaCatalog {
    labels: Vec<LabelEntry>,
    edge_types: Vec<EdgeTypeEntry>,
    properties: Vec<PropertyEntry>,
    indexes: Vec<IndexDef>,
}

impl View for SchemaCatalog {
    type V = CatalogView;

    closed spec fn view(&self) -> CatalogView {
        CatalogView {
            labels: self.labels@,
            edge_types: self.edge_types@,
            properties: self.properties@,
            indexes: self.indexes@,
        }
    }
}

/// The position of the last edge type named `name`, ignoring the case of
/// ASCII letters.
pub open spec fn last_edge_type(es: Seq<EdgeTypeEntry>, name: Seq<char>) -> Option<int>
    decreases es.len(),
{
    if es.len() == 0 {
        None
    } else if ascii_lower(es.last().name@) == ascii_lower(name) {
        Some(es.len() - 1)
    } else {
        last_edge_type(es.drop_last(), name)
    }
}

/// The position of the last index definition named `name`.
pub open spec fn last_index_named(is: Seq<IndexDef>, name: Seq<char>) -> Option<int>
    decreases is.len(),
{
    if is.len() == 0 {
        None
    } else if index_name(is.last())@ == name {
        Some(is.len() - 1)
    } else {
        last_index_named(is.drop_last(), name)
    }
}

/// The schema manager's failure text for the change at position `i`; a
/// position past the end of `fs` is a change it accepted.
pub open spec fn failure_at(fs: Seq<Option<String>>, i: int) -> Option<String> {
    if 0 <= i < fs.len() {
        fs[i]
    } else {
        None
    }
}

/// One change applied to schema `c`, given the schema manager's failure
/// text for it (`None`: it accepted): the refusal's message, or the new
/// schema and the label whose indexes must be rebuilt, if any.
///
/// A label or edge type that already exists is accepted as it stands (an
/// edge type only with the same endpoint labels); a property or index is
/// recorded, an index taking over from one of the same name, and an index
/// already recorded with the same definition needs no rebuild.
pub open spec fn catalog_step(c: CatalogView, ch: SchemaChange, failure: Option<String>) -> Result<
    (CatalogView, Option<Seq<char>>),
    Seq<char>,
> {
    match ch {
        SchemaChange::AddLabel { name, description } => match failure {
            None => Ok((CatalogView { labels: c.labels.push(LabelEntry { name, description }), ..c }, None)),
            Some(e) => if contains(e@, "already exists"@) {
                Ok((c, None))
            } else {
                Err(e@)
            },
        },
        SchemaChange::AddProperty { label_or_type, name, data_type, nullable, description } => match failure {
            None => Ok(
                (
                    CatalogView {
                        properties: c.properties.push(
                            PropertyEntry { owner: label_or_type, name, data_type, nullable, description },
                        ),
                        ..c
                    },
                    None,
                ),
            ),
            Some(e) => Err(e@),
        },
        SchemaChange::AddIndex(idx) => match failure {
            None => {
                let known = last_index_named(c.indexes, index_name(idx)@) matches Some(k)
                    && index_same(c.indexes[k], idx);
                Ok(
                    (
                        CatalogView { indexes: c.indexes.push(idx), ..c },
                        if known {
                            None
                        } else {
                            Some(index_label(idx)@)
                        },
                    ),
                )
            },
            Some(e) => Err(e@),
        },
        SchemaChange::AddEdgeType { name, from_labels, to_labels, description } => match failure {
            None => Ok(
                (
                    CatalogView {
                        edge_types: c.edge_types.push(EdgeTypeEntry { name, from_labels, to_labels, description }),
                        ..c
                    },
                    None,
                ),
            ),
            Some(e) => if contains(e@, "already exists"@) {
                if last_edge_type(c.edge_types, name@) matches Some(k) && texts(
                    c.edge_types[k].from_labels@,
                ) == texts(from_labels@) && texts(c.edge_types[k].to_labels@) == texts(
                    to_labels@,
                ) {
                    Ok((c, None))
                } else {
                    Err(endpoint_conflict_message(name@, texts(from_labels@), texts(to_labels@)))
                }
            } else {
                Err(e@)
            },
        },
    }
}

/// The changes `chs` applied in order to schema `c`, with the manager's
/// failure texts `fs`: the first refusal's message, or the new schema and
/// the labels to rebuild, in the order their indexes were added.
pub open spec fn catalog_apply(c: CatalogView, chs: Seq<SchemaChange>, fs: Seq<Option<String>>) -> Result<
    (CatalogView, Seq<Seq<char>>),
    Seq<char>,
>
    decreases chs.len(),
{
    if chs.len() == 0 {
        Ok((c, Seq::empty()))
    } else {
        match catalog_apply(c, chs.drop_last(), fs) {
            Err(m) => Err(m),
            Ok((c1, rb)) => match catalog_step(c1, chs.last(), failure_at(fs, chs.len() - 1)) {
                Err(m) => Err(m),
                Ok((c2, l)) => Ok(
                    (
                        c2,
                        match l {
                            Some(x) => rb.push(x),
                            None => rb,
                        },
                    ),
                ),
            },
        }
    }
}

/// `after` and `r` are what applying `chs` to `before` with failure texts
/// `fs` gives: on a refusal, its schema error and `before` unchanged;
/// otherwise the new schema and the labels to rebuild, each once, sorted.
pub open spec fn batch_applied(
    before: CatalogView,
    after: CatalogView,
    chs: Seq<SchemaChange>,
    fs: Seq<Option<String>>,
    r: Result<Vec<String>, UniError>,
) -> bool {
    match catalog_apply(before, chs, fs) {
        Err(m) => (r matches Err(UniError::Schema { message }) && message@ == m) && after == before,
        Ok((c, rb)) => (r matches Ok(v) && strictly_sorted(v@) && forall|x: Seq<char>|
            texts(v@).contains(x) <==> rb.contains(x)) && after == c,
    }
}

/// Re-declaring an index with the definition already recorded under its
/// name (the register-on-every-open pattern) asks for no rebuild.
pub proof fn law_known_index_needs_no_rebuild(c: CatalogView, idx: IndexDef)
    requires
        last_index_named(c.indexes, index_name(idx)@) is Some,
        index_same(c.indexes[last_index_named(c.indexes, index_name(idx)@).unwrap()], idx),
    ensures
        catalog_step(c, SchemaChange::AddIndex(idx), None) matches Ok((_, l)) && l is None,
{
}

proof fn lemma_refusal_persists(c: CatalogView, chs: Seq<SchemaChange>, fs: Seq<Option<String>>, k: int)
    requires
        0 <= k <= chs.len(),
        catalog_apply(c, chs.take(k), fs) is Err,
    ensures
        catalog_apply(c, chs, fs) == catalog_apply(c, chs.take(k), fs),
    decreases chs.len() - k,
{
    if k < chs.len() {
        assert(chs.take(k + 1).drop_last() =~= chs.take(k));
        lemma_refusal_persists(c, chs, fs, k + 1);
    } else {
        assert(chs.take(k) =~= chs);
    }
}

fn same_ignoring_ascii_case(a: &String, b: &String) -> (r: bool)
    ensures
        r == (ascii_lower(a@) == ascii_lower(b@)),
{
    let la = ascii_lowercase(&chars_of(a.as_str()));
    let lb = ascii_lowercase(&chars_of(b.as_str()));
    if la.len() != lb.len() {
        return false;
    }
    let r = has_prefix(&la, &lb);
    proof {
        assert(la@.subrange(0, lb@.len() as int) =~= la@);
    }
    r
}

impl SchemaCatalog {
    /// An empty schema.
    pub fn new() -> (r: Self)
        ensures
            r@ == (CatalogView {
                labels: Seq::empty(),
                edge_types: Seq::empty(),
                properties: Seq::empty(),
                indexes: Seq::empty(),
            }),
    {
        SchemaCatalog { labels: Vec::new(), edge_types: Vec::new(), properties: Vec::new(), indexes: Vec::new() }
    }

    /// The labels, in the order recorded.
    pub fn labels(&self) -> (r: &Vec<LabelEntry>)
        ensures
            r@ == self@.labels,
    {
        &self.labels
    }

    /// The edge types, in the order recorded.
    pub fn edge_types(&self) -> (r: &Vec<EdgeTypeEntry>)
        ensures
            r@ == self@.edge_types,
    {
        &self.edge_types
    }

    /// The property declarations, in the order recorded.
    pub fn properties(&self) -> (r: &Vec<PropertyEntry>)
        ensures
            r@ == self@.properties,
    {
        &self.properties
    }

    /// The index definitions, in the order recorded.
    pub fn indexes(&self) -> (r: &Vec<IndexDef>)
        ensures
            r@ == self@.indexes,
    {
        &self.indexes
    }

    fn find_edge_type(&self, name: &String) -> (r: Option<usize>)
        ensures
            match r {
                Some(j) => j < self@.edge_types.len() && last_edge_type(self@.edge_types, name@) == Some(j as int),
                None => last_edge_type(self@.edge_types, name@) is None,
            },
    {
        let mut found: Option<usize> = None;
        let mut i: usize = 0;
        while i < self.edge_types.len()
            invariant
                i <= self@.edge_types.len(),
                match found {
                    Some(j) => j < i && last_edge_type(self@.edge_types.take(i as int), name@) == Some(j as int),
                    None => last_edge_type(self@.edge_types.take(i as int), name@) is None,
                },
            decreases self.edge_types.len() - i,
        {
            proof {
                assert(self@.edge_types.take(i + 1).drop_last() =~= self@.edge_types.take(i as int));
            }
            if same_ignoring_ascii_case(&self.edge_types[i].name, name) {
                found = Some(i);
            }
            i = i + 1;
        }
        proof {
            assert(self@.edge_types.take(i as int) =~= self@.edge_types);
        }
        found
    }

    fn find_index(&self, name: &String) -> (r: Option<usize>)
        ensures
            match r {
                Some(j) => j < self@.indexes.len() && last_index_named(self@.indexes, name@) == Some(j as int),
                None => last_index_named(self@.indexes, name@) is None,
            },
    {
        let mut found: Option<usize> = None;
        let mut i: usize = 0;
        while i < self.indexes.len()
            invariant
                i <= self@.indexes.len(),
                match found {
                    Some(j) => j < i && last_index_named(self@.indexes.take(i as int), name@) == Some(j as int),
                    None => last_index_named(self@.indexes.take(i as int), name@) is None,
                },
            decreases self.indexes.len() - i,
        {
            proof {
                assert(self@.indexes.take(i + 1).drop_last() =~= self@.indexes.take(i as int));
            }
            if *self.indexes[i].name() == *name {
                found = Some(i);
            }
            i = i + 1;
        }
        proof {
            assert(self@.indexes.take(i as int) =~= self@.indexes);
        }
        found
    }

    fn apply_one(&mut self, ch: SchemaChange, failure: Option<String>) -> (r: Result<Option<String>, UniError>)
        ensures
            match catalog_step(old(self)@, ch, failure) {
                Err(m) => (r matches Err(UniError::Schema { message }) && message@ == m) && final(self)@
                    == old(self)@,
                Ok((c, l)) => (r matches Ok(x) && opt_text(x) == l) && final(self)@ == c,
            },
    {
        match ch {
            SchemaChange::AddLabel { name, description } => {
                let created = failure.is_none();
                match label_declared(failure) {
                    Err(e) => Err(e),
                    Ok(()) => {
                        if created {
                            self.labels.push(LabelEntry { name, description });
                        }
                        Ok(None)
                    },
                }
            },
            SchemaChange::AddProperty { label_or_type, name, data_type, nullable, description } => {
                match property_declared(failure) {
                    Err(e) => Err(e),
                    Ok(()) => {
                        self.properties.push(PropertyEntry { owner: label_or_type, name, data_type, nullable, description });
                        Ok(None)
                    },
                }
            },
            SchemaChange::AddIndex(idx) => {
                let k = self.find_index(idx.name());
                let outcome = match k {
                    Some(k) => index_declared(Some(&self.indexes[k]), &idx, failure),
                    None => index_declared(None, &idx, failure),
                };
                match outcome {
                    Err(e) => Err(e),
                    Ok(fresh) => {
                        let label = if fresh {
                            Some(owned(idx.label().as_str()))
                        } else {
                            None
                        };
                        self.indexes.push(idx);
                        Ok(label)
                    },
                }
            },
            SchemaChange::AddEdgeType { name, from_labels, to_labels, description } => {
                let created = failure.is_none();
                let k = self.find_edge_type(&name);
                let outcome = match k {
                    Some(k) => {
                        let e = &self.edge_types[k];
                        edge_type_declared(
                            name.as_str(),
                            failure,
                            Some((&e.from_labels, &e.to_labels)),
                            &from_labels,
                            &to_labels,
                        )
                    },
                    None => edge_type_declared(name.as_str(), failure, None, &from_labels, &to_labels),
                };
                match outcome {
                    Err(e) => Err(e),
                    Ok(()) => {
                        if created {
                            self.edge_types.push(EdgeTypeEntry { name, from_labels, to_labels, description });
                        }
                        Ok(None)
                    },
                }
            },
        }
    }

    /// Applies `changes` in order, `failures[i]` being the schema manager's
    /// failure text for `changes[i]` (`None`, or no entry: it accepted).
    ///
    /// The batch is atomic: when any change is refused, the answer is that
    /// change's schema error and the schema is left exactly as it was.
    /// Otherwise every change is recorded and the answer is the labels whose
    /// indexes must be rebuilt, each once, in sorted order.
    pub fn apply_changes(&mut self, changes: Vec<SchemaChange>, failures: Vec<Option<String>>) -> (r: Result<
        Vec<String>,
        UniError,
    >)
        ensures
            batch_applied(old(self)@, final(self)@, changes@, failures@, r),
    {
        let ghost c0 = self@;
        let ghost chs = changes@;
        let ghost fs = failures@;
        let l0 = self.labels.len();
        let e0 = self.edge_types.len();
        let p0 = self.properties.len();
        let i0 = self.indexes.len();
        let n = changes.len();
        let mut rest = changes;
        let mut fails = failures;
        let mut rebuild: Vec<String> = Vec::new();
        let mut i: usize = 0;
        while i < n
            invariant
                c0 == old(self)@,
                chs == changes@,
                fs == failures@,
                i <= n,
                n == chs.len(),
                rest@ == chs.subrange(i as int, n as int),
                fails@ == fs.subrange(if i < fs.len() { i as int } else { fs.len() as int }, fs.len() as int),
                catalog_apply(c0, chs.take(i as int), fs) matches Ok((c, rb)) && self@ == c && texts(
                    rebuild@,
                ) == rb,
                l0 == c0.labels.len(),
                e0 == c0.edge_types.len(),
                p0 == c0.properties.len(),
                i0 == c0.indexes.len(),
                l0 <= self@.labels.len() && self@.labels.subrange(0, l0 as int) == c0.labels,
                e0 <= self@.edge_types.len() && self@.edge_types.subrange(0, e0 as int) == c0.edge_types,
                p0 <= self@.properties.len() && self@.properties.subrange(0, p0 as int) == c0.properties,
                i0 <= self@.indexes.len() && self@.indexes.subrange(0, i0 as int) == c0.indexes,
            decreases n - i,
        {
            let ghost before = self@;
            let ghost rb0 = texts(rebuild@);
            let ch = rest.remove(0);
            let f = if fails.len() > 0 {
                fails.remove(0)
            } else {
                None
            };
            proof {
                assert(ch == chs[i as int]);
                assert(f == failure_at(fs, i as int));
                assert(chs.take(i + 1).drop_last() =~= chs.take(i as int));
                assert(chs.take(i + 1).last() == chs[i as int]);
            }
            match self.apply_one(ch, f) {
                Err(e) => {
                    self.labels.truncate(l0);
                    self.edge_types.truncate(e0);
                    self.properties.truncate(p0);
                    self.indexes.truncate(i0);
                    proof {
                        let step = catalog_step(before, chs[i as int], failure_at(fs, i as int));
                        assert(step is Err);
                        assert(chs.take(i + 1).len() == i + 1);
                        assert(catalog_apply(c0, chs.take(i + 1), fs) == Err::<(CatalogView, Seq<Seq<char>>), Seq<char>>(step->Err_0));
                        lemma_refusal_persists(c0, chs, fs, i + 1);
                        assert(self@.labels =~= c0.labels);
                        assert(self@.edge_types =~= c0.edge_types);
                        assert(self@.properties =~= c0.properties);
                        assert(self@.indexes =~= c0.indexes);
                    }
                    return Err(e);
                },
                Ok(l) => {
                    if let Some(x) = l {
                        rebuild.push(x);
                    }
                    proof {
                        assert(texts(rebuild@) =~= (match opt_text(l) {
                            Some(x) => rb0.push(x),
                            None => rb0,
                        }));
                        assert(self@.labels.subrange(0, l0 as int) =~= before.labels.subrange(0, l0 as int));
                        assert(self@.edge_types.subrange(0, e0 as int) =~= before.edge_types.subrange(0, e0 as int));
                        assert(self@.properties.subrange(0, p0 as int) =~= before.properties.subrange(0, p0 as int));
                        assert(self@.indexes.subrange(0, i0 as int) =~= before.indexes.subrange(0, i0 as int));
                    }
                },
            }
            i = i + 1;
        }
        proof {
            assert(chs.take(n as int) =~= chs);
        }
        Ok(labels_to_rebuild(&rebuild))
    }
}

} // verus!
