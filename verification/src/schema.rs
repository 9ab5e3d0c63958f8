//! Schema definition (builders and the changes they stage), the decisions
//! taken while applying changes, and the introspection projections
//! (`LabelInfo`, `EdgeTypeInfo`, ...) over a schema snapshot.
use vstd::prelude::*;
use crate::catalog::{batch_applied, SchemaCatalog};
use crate::errors::UniError;
use crate::text::{
    chars_of, contains, copy_strings, debug_str, has_char, owned, owned_all, push_str, push_u64,
    sorted_unique, str_debug, str_texts, strictly_sorted, string_from, text_contains, text_in,
    texts,
};

verus! {

// ---------------------------------------------------------------------------
// Types of the schema
// ---------------------------------------------------------------------------

/// Property data types.
#[derive(Debug, PartialEq)]
pub enum DataType {
    String,
    Int32,
    Int64,
    Float32,
    Float64,
    Bool,
    Timestamp,
    Date,
    Time,
    DateTime,
    Duration,
    CypherValue,
    Vector { dimensions: usize },
    List(Box<DataType>),
}

/// The debug rendering of a data type, as shown in [`PropertyInfo::data_type`].
pub open spec fn data_type_text(t: DataType) -> Seq<char>
    decreases t,
{
    match t {
        DataType::String => "String"@,
        DataType::Int32 => "Int32"@,
        DataType::Int64 => "Int64"@,
        DataType::Float32 => "Float32"@,
        DataType::Float64 => "Float64"@,
        DataType::Bool => "Bool"@,
        DataType::Timestamp => "Timestamp"@,
        DataType::Date => "Date"@,
        DataType::Time => "Time"@,
        DataType::DateTime => "DateTime"@,
        DataType::Duration => "Duration"@,
        DataType::CypherValue => "CypherValue"@,
        DataType::Vector { dimensions } => "Vector { dimensions: "@ + crate::text::nat_digits(
            dimensions as nat,
        ) + " }"@,
        DataType::List(inner) => "List("@ + data_type_text(*inner) + ")"@,
    }
}

fn push_data_type_text(out: &mut Vec<char>, t: &DataType)
    ensures
        final(out)@ == old(out)@ + data_type_text(*t),
    decreases t,
{
    match t {
        DataType::String => push_str(out, "String"),
        DataType::Int32 => push_str(out, "Int32"),
        DataType::Int64 => push_str(out, "Int64"),
        DataType::Float32 => push_str(out, "Float32"),
        DataType::Float64 => push_str(out, "Float64"),
        DataType::Bool => push_str(out, "Bool"),
        DataType::Timestamp => push_str(out, "Timestamp"),
        DataType::Date => push_str(out, "Date"),
        DataType::Time => push_str(out, "Time"),
        DataType::DateTime => push_str(out, "DateTime"),
        DataType::Duration => push_str(out, "Duration"),
        DataType::CypherValue => push_str(out, "CypherValue"),
        DataType::Vector { dimensions } => {
            push_str(out, "Vector { dimensions: ");
            push_u64(out, *dimensions as u64);
            push_str(out, " }");
        },
        DataType::List(inner) => {
            push_str(out, "List(");
            push_data_type_text(out, inner);
            push_str(out, ")");
        },
    }
    proof {
        assert(final(out)@ =~= old(out)@ + data_type_text(*t));
    }
}

/// The debug rendering of a data type (see [`data_type_text`]).
pub fn data_type_name(t: &DataType) -> (r: String)
    ensures
        r@ == data_type_text(*t),
{
    let mut v: Vec<char> = Vec::new();
    push_data_type_text(&mut v, t);
    string_from(&v)
}

/// Vector distance metrics.
#[derive(Debug, Clone, Copy, PartialEq, Eq, Structural)]
#[non_exhaustive]
pub enum VectorMetric {
    Cosine,
    L2,
    Dot,
    /// L1 / Manhattan distance, searched exactly: L1 columns build no ANN index.
    L1,
}

/// Scalar index kinds.
#[derive(Debug, Clone, Copy, PartialEq, Eq, Structural)]
#[non_exhaustive]
pub enum ScalarType {
    BTree,
    Hash,
    Bitmap,
    LabelList,
}

/// Embedding configuration for auto-embedding during index writes.
#[derive(Debug, Clone, PartialEq)]
pub struct EmbeddingCfg {
    /// Model alias from the model catalog (for example `"embed/default"`).
    pub alias: String,
    pub source_properties: Vec<String>,
    pub batch_size: usize,
    /// Prefix prepended to text before embedding on the document side.
    pub document_prefix: Option<String>,
    /// Prefix prepended to text before embedding query-time text.
    pub query_prefix: Option<String>,
}

/// Vector index algorithms as a user chooses them.
#[derive(Debug, PartialEq)]
#[non_exhaustive]
pub enum VectorAlgo {
    Flat,
    IvfFlat { partitions: u32 },
    IvfPq { partitions: u32, sub_vectors: u32 },
    IvfSq { partitions: u32 },
    IvfRq { partitions: u32, num_bits: Option<u8> },
    Hnsw { m: u32, ef_construction: u32, partitions: Option<u32> },
    HnswFlat { m: u32, ef_construction: u32, partitions: Option<u32> },
    HnswSq { m: u32, ef_construction: u32, partitions: Option<u32> },
    HnswPq { m: u32, ef_construction: u32, sub_vectors: u32, partitions: Option<u32> },
    /// Fixed-dimensional encoding of a multi-vector column, indexed by `inner`.
    Muvera { k_sim: u32, reps: u32, d_proj: u32, seed: u64, inner: Box<VectorAlgo> },
}

/// Vector index types as the schema stores them.
#[derive(Debug, PartialEq)]
pub enum VectorIndexKind {
    Flat,
    IvfFlat { num_partitions: u32 },
    IvfPq { num_partitions: u32, num_sub_vectors: u32, bits_per_subvector: u8 },
    IvfSq { num_partitions: u32 },
    IvfRq { num_partitions: u32, num_bits: Option<u8> },
    HnswFlat { m: u32, ef_construction: u32, num_partitions: Option<u32> },
    HnswSq { m: u32, ef_construction: u32, num_partitions: Option<u32> },
    HnswPq { m: u32, ef_construction: u32, num_sub_vectors: u32, num_partitions: Option<u32> },
    Muvera { k_sim: u32, reps: u32, d_proj: u32, seed: u64, inner: Box<VectorIndexKind> },
}

/// The stored index type for a chosen algorithm: product quantization uses
/// 8 bits per sub-vector, and plain HNSW is stored as HNSW with scalar
/// quantization.
pub open spec fn algo_kind(a: VectorAlgo) -> VectorIndexKind
    decreases a,
{
    match a {
        VectorAlgo::Flat => VectorIndexKind::Flat,
        VectorAlgo::IvfFlat { partitions } => VectorIndexKind::IvfFlat { num_partitions: partitions },
        VectorAlgo::IvfPq { partitions, sub_vectors } => VectorIndexKind::IvfPq {
            num_partitions: partitions,
            num_sub_vectors: sub_vectors,
            bits_per_subvector: 8,
        },
        VectorAlgo::IvfSq { partitions } => VectorIndexKind::IvfSq { num_partitions: partitions },
        VectorAlgo::IvfRq { partitions, num_bits } => VectorIndexKind::IvfRq {
            num_partitions: partitions,
            num_bits,
        },
        VectorAlgo::Hnsw { m, ef_construction, partitions } => VectorIndexKind::HnswSq {
            m,
            ef_construction,
            num_partitions: partitions,
        },
        VectorAlgo::HnswFlat { m, ef_construction, partitions } => VectorIndexKind::HnswFlat {
            m,
            ef_construction,
            num_partitions: partitions,
        },
        VectorAlgo::HnswSq { m, ef_construction, partitions } => VectorIndexKind::HnswSq {
            m,
            ef_construction,
            num_partitions: partitions,
        },
        VectorAlgo::HnswPq { m, ef_construction, sub_vectors, partitions } => VectorIndexKind::HnswPq {
            m,
            ef_construction,
            num_sub_vectors: sub_vectors,
            num_partitions: partitions,
        },
        VectorAlgo::Muvera { k_sim, reps, d_proj, seed, inner } => VectorIndexKind::Muvera {
            k_sim,
            reps,
            d_proj,
            seed,
            inner: Box::new(algo_kind(*inner)),
        },
    }
}

impl VectorAlgo {
    /// The stored index type for this algorithm (see [`algo_kind`]).
    pub fn into_internal(self) -> (r: VectorIndexKind)
        ensures
            r == algo_kind(self),
        decreases self,
    {
        match self {
            VectorAlgo::Flat => VectorIndexKind::Flat,
            VectorAlgo::IvfFlat { partitions } => VectorIndexKind::IvfFlat { num_partitions: partitions },
            VectorAlgo::IvfPq { partitions, sub_vectors } => VectorIndexKind::IvfPq {
                num_partitions: partitions,
                num_sub_vectors: sub_vectors,
                bits_per_subvector: 8,
            },
            VectorAlgo::IvfSq { partitions } => VectorIndexKind::IvfSq { num_partitions: partitions },
            VectorAlgo::IvfRq { partitions, num_bits } => VectorIndexKind::IvfRq {
                num_partitions: partitions,
                num_bits,
            },
            VectorAlgo::Hnsw { m, ef_construction, partitions } => VectorIndexKind::HnswSq {
                m,
                ef_construction,
                num_partitions: partitions,
            },
            VectorAlgo::HnswFlat { m, ef_construction, partitions } => VectorIndexKind::HnswFlat {
                m,
                ef_construction,
                num_partitions: partitions,
            },
            VectorAlgo::HnswSq { m, ef_construction, partitions } => VectorIndexKind::HnswSq {
                m,
                ef_construction,
                num_partitions: partitions,
            },
            VectorAlgo::HnswPq { m, ef_construction, sub_vectors, partitions } => VectorIndexKind::HnswPq {
                m,
                ef_construction,
                num_sub_vectors: sub_vectors,
                num_partitions: partitions,
            },
            VectorAlgo::Muvera { k_sim, reps, d_proj, seed, inner } => {
                let k = (*inner).into_internal();
                VectorIndexKind::Muvera { k_sim, reps, d_proj, seed, inner: Box::new(k) }
            },
        }
    }
}

/// Configuration of a vector index.
pub struct VectorIndexCfg {
    pub algorithm: VectorAlgo,
    pub metric: VectorMetric,
    pub embedding: Option<EmbeddingCfg>,
}

/// Index kinds a label property can be given.
#[non_exhaustive]
pub enum IndexType {
    Vector(VectorIndexCfg),
    /// Full-text index with the standard analyzer.
    FullText,
    Scalar(ScalarType),
    /// Scored sparse-vector index over a `dimensions`-wide term space;
    /// `quantize` stores 8-bit per-term weights.
    Sparse { dimensions: usize, quantize: bool, embedding: Option<EmbeddingCfg> },
}

impl IndexType {
    /// A sparse-vector index with quantization on and no auto-embedding.
    pub fn sparse(dimensions: usize) -> (r: Self)
        ensures
            r matches IndexType::Sparse { dimensions: d, quantize: q, embedding: e } && d == dimensions
                && q && e is None,
    {
        IndexType::Sparse { dimensions, quantize: true, embedding: None }
    }

    /// A sparse-vector index with quantization on, auto-embedding through
    /// `embedding`.
    pub fn sparse_with_embedding(dimensions: usize, embedding: EmbeddingCfg) -> (r: Self)
        ensures
            r matches IndexType::Sparse { dimensions: d, quantize: q, embedding: e } && d == dimensions
                && q && e == Some(embedding),
    {
        IndexType::Sparse { dimensions, quantize: true, embedding: Some(embedding) }
    }
}

/// An index definition as the schema holds it.
pub enum IndexDef {
    Vector {
        name: String,
        label: String,
        property: String,
        kind: VectorIndexKind,
        metric: VectorMetric,
        embedding: Option<EmbeddingCfg>,
    },
    Scalar { name: String, label: String, properties: Vec<String>, kind: ScalarType },
    FullText { name: String, label: String, properties: Vec<String>, with_positions: bool },
    Inverted { name: String, label: String, property: String },
    JsonFullText { name: String, label: String, column: String },
    Sparse {
        name: String,
        label: String,
        property: String,
        dimensions: usize,
        quantize: bool,
        embedding: Option<EmbeddingCfg>,
    },
}

/// The element an index belongs to.
pub open spec fn index_label(i: IndexDef) -> String {
    match i {
        IndexDef::Vector { label, .. } => label,
        IndexDef::Scalar { label, .. } => label,
        IndexDef::FullText { label, .. } => label,
        IndexDef::Inverted { label, .. } => label,
        IndexDef::JsonFullText { label, .. } => label,
        IndexDef::Sparse { label, .. } => label,
    }
}

/// The index's name.
pub open spec fn index_name(i: IndexDef) -> String {
    match i {
        IndexDef::Vector { name, .. } => name,
        IndexDef::Scalar { name, .. } => name,
        IndexDef::FullText { name, .. } => name,
        IndexDef::Inverted { name, .. } => name,
        IndexDef::JsonFullText { name, .. } => name,
        IndexDef::Sparse { name, .. } => name,
    }
}

impl IndexDef {
    /// The element (label or edge type) the index belongs to.
    pub fn label(&self) -> (r: &String)
        ensures
            *r == index_label(*self),
    {
        match self {
            IndexDef::Vector { label, .. } => label,
            IndexDef::Scalar { label, .. } => label,
            IndexDef::FullText { label, .. } => label,
            IndexDef::Inverted { label, .. } => label,
            IndexDef::JsonFullText { label, .. } => label,
            IndexDef::Sparse { label, .. } => label,
        }
    }

    /// The index's name.
    pub fn name(&self) -> (r: &String)
        ensures
            *r == index_name(*self),
    {
        match self {
            IndexDef::Vector { name, .. } => name,
            IndexDef::Scalar { name, .. } => name,
            IndexDef::FullText { name, .. } => name,
            IndexDef::Inverted { name, .. } => name,
            IndexDef::JsonFullText { name, .. } => name,
            IndexDef::Sparse { name, .. } => name,
        }
    }
}

/// Lifecycle state of a label or edge type.
#[derive(Debug, Clone, Copy, PartialEq, Eq, Structural)]
pub enum ElementState {
    Active,
    Hidden,
    Tombstone,
}

/// Whether a schema element is present and active (`None`: absent).
pub fn element_active(state: Option<ElementState>) -> (r: bool)
    ensures
        r == (state == Some(ElementState::Active)),
{
    match state {
        Some(ElementState::Active) => true,
        _ => false,
    }
}


// ---------------------------------------------------------------------------
// Introspection
// ---------------------------------------------------------------------------

/// A property declared on a label or edge type.
pub struct PropertyMeta {
    pub name: String,
    pub data_type: DataType,
    pub nullable: bool,
    pub description: Option<String>,
}

/// What a constraint applies to.
#[derive(Debug, Clone, PartialEq)]
pub enum ConstraintTarget {
    Label(String),
    EdgeType(String),
}

/// The kind of a constraint and the properties it covers.
pub enum ConstraintKind {
    Unique { properties: Vec<String> },
    Exists { property: String },
    Check { expression: String },
    NodeKey { properties: Vec<String> },
    /// A kind this projection does not describe.
    Other,
}

/// A constraint as the schema holds it.
pub struct ConstraintDef {
    pub name: String,
    pub target: ConstraintTarget,
    pub kind: ConstraintKind,
    pub enabled: bool,
}

#[derive(Debug, Clone, PartialEq)]
pub struct PropertyInfo {
    pub name: String,
    pub data_type: String,
    pub nullable: bool,
    pub is_indexed: bool,
    pub description: Option<String>,
}

#[derive(Debug, Clone, PartialEq)]
pub struct IndexInfo {
    pub name: String,
    pub index_type: String,
    pub properties: Vec<String>,
    pub status: String,
}

#[derive(Debug, Clone, PartialEq)]
pub struct ConstraintInfo {
    pub name: String,
    pub constraint_type: String,
    pub properties: Vec<String>,
    pub enabled: bool,
}

#[derive(Debug, Clone, PartialEq)]
pub struct LabelInfo {
    pub name: String,
    pub count: usize,
    pub properties: Vec<PropertyInfo>,
    pub indexes: Vec<IndexInfo>,
    pub constraints: Vec<ConstraintInfo>,
    pub description: Option<String>,
}

#[derive(Debug, Clone, PartialEq)]
pub struct EdgeTypeInfo {
    pub name: String,
    pub count: usize,
    pub source_labels: Vec<String>,
    pub target_labels: Vec<String>,
    pub properties: Vec<PropertyInfo>,
    pub indexes: Vec<IndexInfo>,
    pub constraints: Vec<ConstraintInfo>,
    pub description: Option<String>,
}

/// The text of an optional string.
pub open spec fn opt_text(o: Option<String>) -> Option<Seq<char>> {
    match o {
        Some(s) => Some(s@),
        None => None,
    }
}

fn copy_opt(o: &Option<String>) -> (r: Option<String>)
    ensures
        r == *o,
{
    match o {
        Some(s) => Some(s.clone()),
        None => None,
    }
}

/// Whether index `i` covers property `prop` of label `name`. Vector,
/// scalar, full-text and inverted indexes cover the properties they name;
/// a JSON full-text index covers every property of its label.
pub open spec fn label_indexes_property(i: IndexDef, name: Seq<char>, prop: Seq<char>) -> bool {
    match i {
        IndexDef::Vector { label, property, .. } => label@ == name && property@ == prop,
        IndexDef::Scalar { label, properties, .. } => label@ == name && texts(properties@).contains(prop),
        IndexDef::FullText { label, properties, .. } => label@ == name && texts(properties@).contains(
            prop,
        ),
        IndexDef::Inverted { label, property, .. } => label@ == name && property@ == prop,
        IndexDef::JsonFullText { label, .. } => label@ == name,
        IndexDef::Sparse { .. } => false,
    }
}

/// Whether index `i` covers property `prop` of edge type `name`: as for
/// labels, except that vector and JSON full-text indexes never apply.
pub open spec fn edge_indexes_property(i: IndexDef, name: Seq<char>, prop: Seq<char>) -> bool {
    match i {
        IndexDef::Vector { .. } => false,
        IndexDef::JsonFullText { .. } => false,
        _ => label_indexes_property(i, name, prop),
    }
}

/// [`label_indexes_property`] or [`edge_indexes_property`], by element kind.
pub open spec fn indexes_property(i: IndexDef, name: Seq<char>, prop: Seq<char>, edge: bool) -> bool {
    if edge { edge_indexes_property(i, name, prop) } else { label_indexes_property(i, name, prop) }
}

/// A scalar index on label `label` covers a property of that label exactly
/// when the property is among the index's properties, at any position: a
/// composite index covers each of its columns.
pub proof fn law_scalar_index_covers_each_column(
    name: String,
    label: String,
    properties: Vec<String>,
    kind: ScalarType,
    prop: Seq<char>,
)
    ensures
        forall|k: int|
            0 <= k < properties@.len() ==> label_indexes_property(
                IndexDef::Scalar { name, label, properties, kind },
                label@,
                #[trigger] properties@[k]@,
            ),
        label_indexes_property(IndexDef::Scalar { name, label, properties, kind }, label@, prop) ==> exists|k: int|
            0 <= k < properties@.len() && properties@[k]@ == prop,
{
    assert forall|k: int| 0 <= k < properties@.len() implies label_indexes_property(
        IndexDef::Scalar { name, label, properties, kind },
        label@,
        #[trigger] properties@[k]@,
    ) by {
        assert(texts(properties@)[k] == properties@[k]@);
    }
    if label_indexes_property(IndexDef::Scalar { name, label, properties, kind }, label@, prop) {
        let k = choose|k: int| 0 <= k < texts(properties@).len() && texts(properties@)[k] == prop;
        assert(properties@[k]@ == prop);
    }
}

/// Whether index `idx` covers property `prop_name` of label `name`.
pub fn label_property_is_indexed(idx: &IndexDef, name: &String, prop_name: &String) -> (r: bool)
    ensures
        r == label_indexes_property(*idx, name@, prop_name@),
{
    match idx {
        IndexDef::Vector { label, property, .. } => *label == *name && *property == *prop_name,
        IndexDef::Scalar { label, properties, .. } => *label == *name && text_in(properties, prop_name),
        IndexDef::FullText { label, properties, .. } => *label == *name && text_in(
            properties,
            prop_name,
        ),
        IndexDef::Inverted { label, property, .. } => *label == *name && *property == *prop_name,
        IndexDef::JsonFullText { label, .. } => *label == *name,
        IndexDef::Sparse { .. } => false,
    }
}

/// Whether index `idx` covers property `prop_name` of edge type `name`.
pub fn edge_property_is_indexed(idx: &IndexDef, name: &String, prop_name: &String) -> (r: bool)
    ensures
        r == edge_indexes_property(*idx, name@, prop_name@),
{
    match idx {
        IndexDef::Vector { .. } => false,
        IndexDef::JsonFullText { .. } => false,
        _ => label_property_is_indexed(idx, name, prop_name),
    }
}

/// Whether some index of `indexes` covers property `prop` of element `name`.
pub open spec fn any_index_covers(indexes: Seq<IndexDef>, name: Seq<char>, prop: Seq<char>, edge: bool) -> bool {
    exists|j: int| 0 <= j < indexes.len() && #[trigger] indexes_property(indexes[j], name, prop, edge)
}

fn any_covers(indexes: &Vec<IndexDef>, name: &String, prop: &String, edge: bool) -> (r: bool)
    ensures
        r == any_index_covers(indexes@, name@, prop@, edge),
{
    let mut i: usize = 0;
    while i < indexes.len()
        invariant
            i <= indexes@.len(),
            forall|j: int| 0 <= j < i ==> !#[trigger] indexes_property(indexes@[j], name@, prop@, edge),
        decreases indexes.len() - i,
    {
        let hit = if edge {
            edge_property_is_indexed(&indexes[i], name, prop)
        } else {
            label_property_is_indexed(&indexes[i], name, prop)
        };
        if hit {
            proof {
                assert(indexes_property(indexes@[i as int], name@, prop@, edge));
            }
            return true;
        }
        i = i + 1;
    }
    false
}

/// `pi` describes property `p` of element `name` given the schema's indexes.
pub open spec fn describes_property(
    pi: PropertyInfo,
    p: PropertyMeta,
    indexes: Seq<IndexDef>,
    name: Seq<char>,
    edge: bool,
) -> bool {
    &&& pi.name@ == p.name@
    &&& pi.data_type@ == data_type_text(p.data_type)
    &&& pi.nullable == p.nullable
    &&& pi.is_indexed == any_index_covers(indexes, name, p.name@, edge)
    &&& pi.description == p.description
}

/// The property projection for element `name` (a label, or an edge type when
/// `edge`): one entry per declared property, in order.
pub fn property_infos_for(
    props: &Vec<PropertyMeta>,
    indexes: &Vec<IndexDef>,
    name: &str,
    edge: bool,
) -> (r: Vec<PropertyInfo>)
    ensures
        r@.len() == props@.len(),
        forall|i: int|
            0 <= i < props@.len() ==> describes_property(
                #[trigger] r@[i],
                props@[i],
                indexes@,
                name@,
                edge,
            ),
{
    let n = owned(name);
    let mut out: Vec<PropertyInfo> = Vec::new();
    let mut i: usize = 0;
    while i < props.len()
        invariant
            i <= props@.len(),
            n@ == name@,
            out@.len() == i,
            forall|j: int|
                0 <= j < i ==> describes_property(#[trigger] out@[j], props@[j], indexes@, name@, edge),
        decreases props.len() - i,
    {
        let p = &props[i];
        let info = PropertyInfo {
            name: p.name.clone(),
            data_type: data_type_name(&p.data_type),
            nullable: p.nullable,
            is_indexed: any_covers(indexes, &n, &p.name, edge),
            description: copy_opt(&p.description),
        };
        out.push(info);
        i = i + 1;
    }
    out
}

/// The (type, properties) an index is listed with, or `None` where the index
/// is not listed: edge types list no vector or JSON full-text indexes, and
/// sparse indexes are not listed.
pub open spec fn index_descriptor(i: IndexDef, edge: bool) -> Option<(Seq<char>, Seq<Seq<char>>)> {
    match i {
        IndexDef::Vector { property, .. } => if edge {
            None
        } else {
            Some(("VECTOR"@, seq![property@]))
        },
        IndexDef::Scalar { properties, .. } => Some(("SCALAR"@, texts(properties@))),
        IndexDef::FullText { properties, .. } => Some(("FULLTEXT"@, texts(properties@))),
        IndexDef::Inverted { property, .. } => Some(("INVERTED"@, seq![property@])),
        IndexDef::JsonFullText { column, .. } => if edge {
            None
        } else {
            Some(("JSON_FTS"@, seq![column@]))
        },
        IndexDef::Sparse { .. } => None,
    }
}

fn one_text(s: &String) -> (r: Vec<String>)
    ensures
        texts(r@) == seq![s@],
{
    let mut v: Vec<String> = Vec::new();
    v.push(s.clone());
    proof {
        assert(texts(v@) =~= seq![s@]);
    }
    v
}

fn copy_texts(v: &Vec<String>) -> (r: Vec<String>)
    ensures
        texts(r@) == texts(v@),
{
    copy_strings(v)
}

/// The (type, properties) descriptor of `idx` (see [`index_descriptor`]).
pub fn describe_index(idx: &IndexDef, edge: bool) -> (r: Option<(String, Vec<String>)>)
    ensures
        match r {
            Some((t, ps)) => index_descriptor(*idx, edge) == Some((t@, texts(ps@))),
            None => index_descriptor(*idx, edge) is None,
        },
{
    match idx {
        IndexDef::Vector { property, .. } => if edge {
            None
        } else {
            Some((owned("VECTOR"), one_text(property)))
        },
        IndexDef::Scalar { properties, .. } => Some((owned("SCALAR"), copy_texts(properties))),
        IndexDef::FullText { properties, .. } => Some((owned("FULLTEXT"), copy_texts(properties))),
        IndexDef::Inverted { property, .. } => Some((owned("INVERTED"), one_text(property))),
        IndexDef::JsonFullText { column, .. } => if edge {
            None
        } else {
            Some((owned("JSON_FTS"), one_text(column)))
        },
        IndexDef::Sparse { .. } => None,
    }
}

/// The listed indexes of element `name`, in schema order, as
/// (name, type, properties); each is reported with status `ONLINE`.
pub open spec fn index_listing(indexes: Seq<IndexDef>, name: Seq<char>, edge: bool) -> Seq<
    (Seq<char>, Seq<char>, Seq<Seq<char>>),
>
    decreases indexes.len(),
{
    if indexes.len() == 0 {
        Seq::empty()
    } else {
        let rest = index_listing(indexes.drop_last(), name, edge);
        let i = indexes.last();
        if index_label(i)@ == name {
            match index_descriptor(i, edge) {
                Some((t, ps)) => rest.push((index_name(i)@, t, ps)),
                None => rest,
            }
        } else {
            rest
        }
    }
}

/// `r` lists exactly `l`, with status `ONLINE`.
pub open spec fn lists_indexes(r: Seq<IndexInfo>, l: Seq<(Seq<char>, Seq<char>, Seq<Seq<char>>)>) -> bool {
    &&& r.len() == l.len()
    &&& forall|k: int|
        0 <= k < r.len() ==> {
            &&& (#[trigger] r[k]).name@ == l[k].0
            &&& r[k].index_type@ == l[k].1
            &&& texts(r[k].properties@) == l[k].2
            &&& r[k].status@ == "ONLINE"@
        }
}

/// The index projection for element `name` (see [`index_listing`]).
pub fn index_infos_for(indexes: &Vec<IndexDef>, name: &str, edge: bool) -> (r: Vec<IndexInfo>)
    ensures
        lists_indexes(r@, index_listing(indexes@, name@, edge)),
{
    let n = owned(name);
    let mut out: Vec<IndexInfo> = Vec::new();
    let mut i: usize = 0;
    while i < indexes.len()
        invariant
            i <= indexes@.len(),
            n@ == name@,
            lists_indexes(out@, index_listing(indexes@.take(i as int), name@, edge)),
        decreases indexes.len() - i,
    {
        let idx = &indexes[i];
        proof {
            assert(indexes@.take(i + 1).drop_last() =~= indexes@.take(i as int));
            assert(indexes@.take(i + 1).last() == indexes@[i as int]);
        }
        if *idx.label() == n {
            match describe_index(idx, edge) {
                Some((t, ps)) => {
                    out.push(IndexInfo {
                        name: idx.name().clone(),
                        index_type: t,
                        properties: ps,
                        status: owned("ONLINE"),
                    });
                },
                None => {},
            }
        }
        i = i + 1;
    }
    proof {
        assert(indexes@.take(indexes@.len() as int) =~= indexes@);
    }
    out
}

/// The (type, properties) a constraint is listed with.
pub open spec fn constraint_descriptor(k: ConstraintKind) -> (Seq<char>, Seq<Seq<char>>) {
    match k {
        ConstraintKind::Unique { properties } => ("UNIQUE"@, texts(properties@)),
        ConstraintKind::Exists { property } => ("EXISTS"@, seq![property@]),
        ConstraintKind::Check { expression } => ("CHECK"@, seq![expression@]),
        ConstraintKind::NodeKey { properties } => ("NODE KEY"@, texts(properties@)),
        ConstraintKind::Other => ("UNKNOWN"@, Seq::empty()),
    }
}

/// Whether constraint target `t` is the label `name` (or the edge type
/// `name` when `edge`).
pub open spec fn targets(t: ConstraintTarget, name: Seq<char>, edge: bool) -> bool {
    match t {
        ConstraintTarget::Label(l) => !edge && l@ == name,
        ConstraintTarget::EdgeType(e) => edge && e@ == name,
    }
}

/// The constraints on element `name`, in schema order, as
/// (name, type, properties, enabled).
pub open spec fn constraint_listing(cs: Seq<ConstraintDef>, name: Seq<char>, edge: bool) -> Seq<
    (Seq<char>, Seq<char>, Seq<Seq<char>>, bool),
>
    decreases cs.len(),
{
    if cs.len() == 0 {
        Seq::empty()
    } else {
        let rest = constraint_listing(cs.drop_last(), name, edge);
        let c = cs.last();
        if targets(c.target, name, edge) {
            let (t, ps) = constraint_descriptor(c.kind);
            rest.push((c.name@, t, ps, c.enabled))
        } else {
            rest
        }
    }
}

/// `r` lists exactly `l`.
pub open spec fn lists_constraints(
    r: Seq<ConstraintInfo>,
    l: Seq<(Seq<char>, Seq<char>, Seq<Seq<char>>, bool)>,
) -> bool {
    &&& r.len() == l.len()
    &&& forall|k: int|
        0 <= k < r.len() ==> {
            &&& (#[trigger] r[k]).name@ == l[k].0
            &&& r[k].constraint_type@ == l[k].1
            &&& texts(r[k].properties@) == l[k].2
            &&& r[k].enabled == l[k].3
        }
}

fn target_matches(t: &ConstraintTarget, name: &String, edge: bool) -> (r: bool)
    ensures
        r == targets(*t, name@, edge),
{
    match t {
        ConstraintTarget::Label(l) => !edge && *l == *name,
        ConstraintTarget::EdgeType(e) => edge && *e == *name,
    }
}

fn describe_constraint(k: &ConstraintKind) -> (r: (String, Vec<String>))
    ensures
        (r.0@, texts(r.1@)) == constraint_descriptor(*k),
{
    match k {
        ConstraintKind::Unique { properties } => (owned("UNIQUE"), copy_texts(properties)),
        ConstraintKind::Exists { property } => (owned("EXISTS"), one_text(property)),
        ConstraintKind::Check { expression } => (owned("CHECK"), one_text(expression)),
        ConstraintKind::NodeKey { properties } => (owned("NODE KEY"), copy_texts(properties)),
        ConstraintKind::Other => {
            let v: Vec<String> = Vec::new();
            proof {
                assert(texts(v@) =~= Seq::<Seq<char>>::empty());
            }
            (owned("UNKNOWN"), v)
        },
    }
}

/// The constraint projection for element `name` (see [`constraint_listing`]).
pub fn constraint_infos_for(constraints: &Vec<ConstraintDef>, name: &str, edge: bool) -> (r: Vec<
    ConstraintInfo,
>)
    ensures
        lists_constraints(r@, constraint_listing(constraints@, name@, edge)),
{
    let n = owned(name);
    let mut out: Vec<ConstraintInfo> = Vec::new();
    let mut i: usize = 0;
    while i < constraints.len()
        invariant
            i <= constraints@.len(),
            n@ == name@,
            lists_constraints(out@, constraint_listing(constraints@.take(i as int), name@, edge)),
        decreases constraints.len() - i,
    {
        let c = &constraints[i];
        proof {
            assert(constraints@.take(i + 1).drop_last() =~= constraints@.take(i as int));
            assert(constraints@.take(i + 1).last() == constraints@[i as int]);
        }
        if target_matches(&c.target, &n, edge) {
            let (t, ps) = describe_constraint(&c.kind);
            out.push(ConstraintInfo { name: c.name.clone(), constraint_type: t, properties: ps, enabled: c.enabled });
        }
        i = i + 1;
    }
    proof {
        assert(constraints@.take(constraints@.len() as int) =~= constraints@);
    }
    out
}


/// The message refusing a schema element name that holds a backtick.
pub open spec fn backtick_message(name: Seq<char>) -> Seq<char> {
    "schema element name "@ + str_debug(name)
        + " contains a backtick, which Cypher's quoted-identifier syntax cannot escape"@
}

/// `name` between backticks.
pub open spec fn quoted(name: Seq<char>) -> Seq<char> {
    "`"@ + name + "`"@
}

/// Backtick-quotes a schema element name for use in Cypher text.
///
/// A name holding a backtick has no quoted form (the grammar has no escape
/// for it) and is refused with a query error.
pub fn quote_cypher_identifier(name: &str) -> (r: Result<String, UniError>)
    ensures
        name@.contains('`') ==> (r matches Err(UniError::Query { message: m, query: q })
            && m@ == backtick_message(name@) && q is None),
        !name@.contains('`') ==> (r matches Ok(s) && s@ == quoted(name@)),
{
    let cs = chars_of(name);
    if has_char(&cs, '`') {
        let mut v = chars_of("schema element name ");
        let d = debug_str(name);
        push_str(&mut v, d.as_str());
        push_str(&mut v, " contains a backtick, which Cypher's quoted-identifier syntax cannot escape");
        Err(UniError::Query { message: string_from(&v), query: None })
    } else {
        let mut v = chars_of("`");
        push_str(&mut v, name);
        push_str(&mut v, "`");
        Ok(string_from(&v))
    }
}

/// The Cypher statement counting the nodes of label `name`.
pub fn label_count_query(name: &str) -> (r: Result<String, UniError>)
    ensures
        name@.contains('`') ==> (r matches Err(UniError::Query { message: m, query: q })
            && m@ == backtick_message(name@) && q is None),
        !name@.contains('`') ==> (r matches Ok(s) && s@ == "MATCH (n:"@ + quoted(name@)
            + ") RETURN count(n) AS cnt"@),
{
    let q = quote_cypher_identifier(name)?;
    let mut v = chars_of("MATCH (n:");
    push_str(&mut v, q.as_str());
    push_str(&mut v, ") RETURN count(n) AS cnt");
    proof {
        assert(v@ =~= "MATCH (n:"@ + quoted(name@) + ") RETURN count(n) AS cnt"@);
    }
    Ok(string_from(&v))
}

/// The Cypher statement counting the edges of type `name`.
pub fn edge_count_query(name: &str) -> (r: Result<String, UniError>)
    ensures
        name@.contains('`') ==> (r matches Err(UniError::Query { message: m, query: q })
            && m@ == backtick_message(name@) && q is None),
        !name@.contains('`') ==> (r matches Ok(s) && s@ == "MATCH ()-[r:"@ + quoted(name@)
            + "]->() RETURN count(r) AS cnt"@),
{
    let q = quote_cypher_identifier(name)?;
    let mut v = chars_of("MATCH ()-[r:");
    push_str(&mut v, q.as_str());
    push_str(&mut v, "]->() RETURN count(r) AS cnt");
    proof {
        assert(v@ =~= "MATCH ()-[r:"@ + quoted(name@) + "]->() RETURN count(r) AS cnt"@);
    }
    Ok(string_from(&v))
}

/// The detailed description of label `name` holding `count` nodes, over the
/// label's declared properties and the schema's indexes and constraints.
pub fn label_info(
    name: &str,
    count: usize,
    props: &Vec<PropertyMeta>,
    indexes: &Vec<IndexDef>,
    constraints: &Vec<ConstraintDef>,
    description: &Option<String>,
) -> (r: LabelInfo)
    ensures
        r.name@ == name@,
        r.count == count,
        r.properties@.len() == props@.len(),
        forall|i: int|
            0 <= i < props@.len() ==> describes_property(
                #[trigger] r.properties@[i],
                props@[i],
                indexes@,
                name@,
                false,
            ),
        lists_indexes(r.indexes@, index_listing(indexes@, name@, false)),
        lists_constraints(r.constraints@, constraint_listing(constraints@, name@, false)),
        r.description == *description,
{
    LabelInfo {
        name: owned(name),
        count,
        properties: property_infos_for(props, indexes, name, false),
        indexes: index_infos_for(indexes, name, false),
        constraints: constraint_infos_for(constraints, name, false),
        description: copy_opt(description),
    }
}

/// The detailed description of edge type `name` holding `count` edges
/// between `source_labels` and `target_labels`.
pub fn edge_type_info(
    name: &str,
    count: usize,
    source_labels: &Vec<String>,
    target_labels: &Vec<String>,
    props: &Vec<PropertyMeta>,
    indexes: &Vec<IndexDef>,
    constraints: &Vec<ConstraintDef>,
    description: &Option<String>,
) -> (r: EdgeTypeInfo)
    ensures
        r.name@ == name@,
        r.count == count,
        r.source_labels@ == source_labels@,
        r.target_labels@ == target_labels@,
        r.properties@.len() == props@.len(),
        forall|i: int|
            0 <= i < props@.len() ==> describes_property(
                #[trigger] r.properties@[i],
                props@[i],
                indexes@,
                name@,
                true,
            ),
        lists_indexes(r.indexes@, index_listing(indexes@, name@, true)),
        lists_constraints(r.constraints@, constraint_listing(constraints@, name@, true)),
        r.description == *description,
{
    EdgeTypeInfo {
        name: owned(name),
        count,
        source_labels: copy_strings(source_labels),
        target_labels: copy_strings(target_labels),
        properties: property_infos_for(props, indexes, name, true),
        indexes: index_infos_for(indexes, name, true),
        constraints: constraint_infos_for(constraints, name, true),
        description: copy_opt(description),
    }
}


// ---------------------------------------------------------------------------
// Builders
// ---------------------------------------------------------------------------

/// One staged schema change.
pub enum SchemaChange {
    AddLabel { name: String, description: Option<String> },
    AddProperty {
        label_or_type: String,
        name: String,
        data_type: DataType,
        nullable: bool,
        description: Option<String>,
    },
    AddIndex(IndexDef),
    AddEdgeType {
        name: String,
        from_labels: Vec<String>,
        to_labels: Vec<String>,
        description: Option<String>,
    },
}

/// `c` declares property `name` of type `data_type` on `owner`.
pub open spec fn declares_property(
    c: SchemaChange,
    owner: String,
    name: Seq<char>,
    data_type: DataType,
    nullable: bool,
    description: Option<Seq<char>>,
) -> bool {
    c matches SchemaChange::AddProperty { label_or_type: o, name: n, data_type: t, nullable: nb, description: d }
        && o == owner && n@ == name && t == data_type && nb == nullable && opt_text(d) == description
}

/// The name given to a non-full-text index of `property` on `label`.
pub open spec fn index_name_for(label: Seq<char>, property: Seq<char>) -> Seq<char> {
    "idx_"@ + label + "_"@ + property
}

/// The name given to a full-text index of `property` on `label`.
pub open spec fn fts_name_for(label: Seq<char>, property: Seq<char>) -> Seq<char> {
    "fts_"@ + label + "_"@ + property
}

/// `c` adds the index of kind `t` on property `property` of label `label`.
pub open spec fn declares_index(c: SchemaChange, label: Seq<char>, property: Seq<char>, t: IndexType) -> bool {
    match t {
        IndexType::Vector(cfg) => c matches SchemaChange::AddIndex(
            IndexDef::Vector { name, label: l, property: p, kind, metric, embedding },
        ) && name@ == index_name_for(label, property) && l@ == label && p@ == property && kind
            == algo_kind(cfg.algorithm) && metric == cfg.metric && embedding == cfg.embedding,
        IndexType::FullText => c matches SchemaChange::AddIndex(
            IndexDef::FullText { name, label: l, properties: ps, with_positions: w },
        ) && name@ == fts_name_for(label, property) && l@ == label && texts(ps@) == seq![property]
            && w,
        IndexType::Scalar(st) => c matches SchemaChange::AddIndex(
            IndexDef::Scalar { name, label: l, properties: ps, kind },
        ) && name@ == index_name_for(label, property) && l@ == label && texts(ps@) == seq![property]
            && kind == st,
        IndexType::Sparse { dimensions, quantize, embedding } => c matches SchemaChange::AddIndex(
            IndexDef::Sparse { name, label: l, property: p, dimensions: d, quantize: q, embedding: e },
        ) && name@ == index_name_for(label, property) && l@ == label && p@ == property && d
            == dimensions && q == quantize && e == embedding,
    }
}

/// Batches schema changes; they are applied in order.
pub struct SchemaBuilder {
    pending: Vec<SchemaChange>,
}

/// Stages the changes of one label; [`LabelBuilder::done`] puts the label
/// itself ahead of everything staged.
pub struct LabelBuilder {
    builder: SchemaBuilder,
    name: String,
    description: Option<String>,
}

/// Stages the changes of one edge type; [`EdgeTypeBuilder::done`] puts the
/// edge type itself ahead of everything staged.
pub struct EdgeTypeBuilder {
    builder: SchemaBuilder,
    name: String,
    from_labels: Vec<String>,
    to_labels: Vec<String>,
    description: Option<String>,
}

impl SchemaBuilder {
    /// The staged changes, in order.
    pub closed spec fn changes(&self) -> Seq<SchemaChange> {
        self.pending@
    }

    pub fn new() -> (r: Self)
        ensures
            r.changes() == Seq::<SchemaChange>::empty(),
    {
        SchemaBuilder { pending: Vec::new() }
    }

    /// Adds pre-built changes after those already staged.
    pub fn with_changes(self, changes: Vec<SchemaChange>) -> (r: Self)
        ensures
            r.changes() == self.changes() + changes@,
    {
        let mut pending = self.pending;
        let mut changes = changes;
        pending.append(&mut changes);
        SchemaBuilder { pending }
    }

    /// Starts defining label `name`.
    pub fn label(self, name: &str) -> (r: LabelBuilder)
        ensures
            r.staged() == self.changes(),
            r.label_name()@ == name@,
            r.label_description() is None,
    {
        LabelBuilder { builder: self, name: owned(name), description: None }
    }

    /// Starts defining edge type `name` from labels `from` to labels `to`.
    pub fn edge_type(self, name: &str, from: &[&str], to: &[&str]) -> (r: EdgeTypeBuilder)
        ensures
            r.staged() == self.changes(),
            r.edge_name()@ == name@,
            texts(r.from_labels()) == str_texts(from@),
            texts(r.to_labels()) == str_texts(to@),
            r.type_description() is None,
    {
        EdgeTypeBuilder {
            builder: self,
            name: owned(name),
            from_labels: owned_all(from),
            to_labels: owned_all(to),
            description: None,
        }
    }

    /// The staged changes, for applying them.
    pub fn into_changes(self) -> (r: Vec<SchemaChange>)
        ensures
            r@ == self.changes(),
    {
        self.pending
    }

    /// Applies the staged changes to `schema` atomically, `failures[i]`
    /// being the schema manager's failure text for the `i`-th change (`None`,
    /// or no entry: it accepted). A refused batch leaves `schema` as it was
    /// and answers the refusal's schema error; otherwise the answer is the
    /// labels whose indexes must be rebuilt, each once, in sorted order.
    pub fn apply(self, schema: &mut SchemaCatalog, failures: Vec<Option<String>>) -> (r: Result<
        Vec<String>,
        UniError,
    >)
        ensures
            batch_applied(old(schema)@, final(schema)@, self.changes(), failures@, r),
    {
        schema.apply_changes(self.pending, failures)
    }
}

impl LabelBuilder {
    /// Changes staged before and for this label (the label itself excluded).
    pub closed spec fn staged(&self) -> Seq<SchemaChange> {
        self.builder.pending@
    }

    pub closed spec fn label_name(&self) -> String {
        self.name
    }

    pub closed spec fn label_description(&self) -> Option<String> {
        self.description
    }

    pub fn description(self, desc: &str) -> (r: Self)
        ensures
            r.staged() == self.staged(),
            r.label_name() == self.label_name(),
            opt_text(r.label_description()) == Some(desc@),
    {
        LabelBuilder { builder: self.builder, name: self.name, description: Some(owned(desc)) }
    }

    fn push_property(
        self,
        name: &str,
        data_type: DataType,
        nullable: bool,
        description: Option<String>,
    ) -> (r: Self)
        ensures
            r.label_name() == self.label_name(),
            r.label_description() == self.label_description(),
            r.staged().len() == self.staged().len() + 1,
            r.staged().drop_last() == self.staged(),
            declares_property(
                r.staged().last(),
                self.label_name(),
                name@,
                data_type,
                nullable,
                opt_text(description),
            ),
    {
        let mut pending = self.builder.pending;
        pending.push(
            SchemaChange::AddProperty {
                label_or_type: self.name.clone(),
                name: owned(name),
                data_type,
                nullable,
                description,
            },
        );
        proof {
            assert(pending@.drop_last() =~= self.builder.pending@);
        }
        LabelBuilder { builder: SchemaBuilder { pending }, name: self.name, description: self.description }
    }

    /// Declares the non-nullable property `name`.
    pub fn property(self, name: &str, data_type: DataType) -> (r: Self)
        ensures
            r.label_name() == self.label_name(),
            r.label_description() == self.label_description(),
            r.staged().drop_last() == self.staged(),
            r.staged().len() == self.staged().len() + 1,
            declares_property(r.staged().last(), self.label_name(), name@, data_type, false, None),
    {
        self.push_property(name, data_type, false, None)
    }

    /// Declares the nullable property `name`.
    pub fn property_nullable(self, name: &str, data_type: DataType) -> (r: Self)
        ensures
            r.label_name() == self.label_name(),
            r.label_description() == self.label_description(),
            r.staged().drop_last() == self.staged(),
            r.staged().len() == self.staged().len() + 1,
            declares_property(r.staged().last(), self.label_name(), name@, data_type, true, None),
    {
        self.push_property(name, data_type, true, None)
    }

    /// Declares the non-nullable property `name` with a description.
    pub fn property_described(self, name: &str, data_type: DataType, desc: &str) -> (r: Self)
        ensures
            r.label_name() == self.label_name(),
            r.label_description() == self.label_description(),
            r.staged().drop_last() == self.staged(),
            r.staged().len() == self.staged().len() + 1,
            declares_property(
                r.staged().last(),
                self.label_name(),
                name@,
                data_type,
                false,
                Some(desc@),
            ),
    {
        self.push_property(name, data_type, false, Some(owned(desc)))
    }

    /// Declares the vector property `name` of `dimensions` dimensions.
    pub fn vector(self, name: &str, dimensions: usize) -> (r: Self)
        ensures
            r.label_name() == self.label_name(),
            r.label_description() == self.label_description(),
            r.staged().drop_last() == self.staged(),
            r.staged().len() == self.staged().len() + 1,
            declares_property(
                r.staged().last(),
                self.label_name(),
                name@,
                DataType::Vector { dimensions },
                false,
                None,
            ),
    {
        self.property(name, DataType::Vector { dimensions })
    }

    /// Adds an index of kind `index_type` on `property`, named
    /// `idx_{label}_{property}` (`fts_{label}_{property}` for full-text).
    pub fn index(self, property: &str, index_type: IndexType) -> (r: Self)
        ensures
            r.label_name() == self.label_name(),
            r.label_description() == self.label_description(),
            r.staged().drop_last() == self.staged(),
            r.staged().len() == self.staged().len() + 1,
            declares_index(r.staged().last(), self.label_name()@, property@, index_type),
    {
        let label = &self.name;
        let mut nv = chars_of("idx_");
        push_str(&mut nv, label.as_str());
        push_str(&mut nv, "_");
        push_str(&mut nv, property);
        let mut fv = chars_of("fts_");
        push_str(&mut fv, label.as_str());
        push_str(&mut fv, "_");
        push_str(&mut fv, property);
        let idx = match index_type {
            IndexType::Vector(cfg) => IndexDef::Vector {
                name: string_from(&nv),
                label: label.clone(),
                property: owned(property),
                kind: cfg.algorithm.into_internal(),
                metric: cfg.metric,
                embedding: cfg.embedding,
            },
            IndexType::FullText => {
                let mut ps: Vec<String> = Vec::new();
                ps.push(owned(property));
                proof {
                    assert(texts(ps@) =~= seq![property@]);
                }
                IndexDef::FullText {
                    name: string_from(&fv),
                    label: label.clone(),
                    properties: ps,
                    with_positions: true,
                }
            },
            IndexType::Scalar(st) => {
                let mut ps: Vec<String> = Vec::new();
                ps.push(owned(property));
                proof {
                    assert(texts(ps@) =~= seq![property@]);
                }
                IndexDef::Scalar { name: string_from(&nv), label: label.clone(), properties: ps, kind: st }
            },
            IndexType::Sparse { dimensions, quantize, embedding } => IndexDef::Sparse {
                name: string_from(&nv),
                label: label.clone(),
                property: owned(property),
                dimensions,
                quantize,
                embedding,
            },
        };
        let mut pending = self.builder.pending;
        pending.push(SchemaChange::AddIndex(idx));
        proof {
            assert(pending@.drop_last() =~= self.builder.pending@);
        }
        LabelBuilder { builder: SchemaBuilder { pending }, name: self.name, description: self.description }
    }

    /// Finishes the label: its declaration goes first, ahead of every change
    /// staged so far, so it is applied before its properties and indexes.
    pub fn done(self) -> (r: SchemaBuilder)
        ensures
            r.changes() == seq![
                SchemaChange::AddLabel {
                    name: self.label_name(),
                    description: self.label_description(),
                },
            ] + self.staged(),
    {
        let mut pending = self.builder.pending;
        pending.insert(0, SchemaChange::AddLabel { name: self.name, description: self.description });
        proof {
            assert(pending@ =~= seq![
                SchemaChange::AddLabel {
                    name: self.label_name(),
                    description: self.label_description(),
                },
            ] + self.builder.pending@);
        }
        SchemaBuilder { pending }
    }

    /// Finishes the label and applies everything staged (see
    /// [`SchemaBuilder::apply`]).
    pub fn apply(self, schema: &mut SchemaCatalog, failures: Vec<Option<String>>) -> (r: Result<
        Vec<String>,
        UniError,
    >)
        ensures
            batch_applied(
                old(schema)@,
                final(schema)@,
                seq![
                    SchemaChange::AddLabel {
                        name: self.label_name(),
                        description: self.label_description(),
                    },
                ] + self.staged(),
                failures@,
                r,
            ),
    {
        self.done().apply(schema, failures)
    }

    /// Finishes this label and starts label `name`.
    pub fn label(self, name: &str) -> (r: LabelBuilder)
        ensures
            r.staged() == seq![
                SchemaChange::AddLabel {
                    name: self.label_name(),
                    description: self.label_description(),
                },
            ] + self.staged(),
            r.label_name()@ == name@,
            r.label_description() is None,
    {
        self.done().label(name)
    }

    /// Finishes this label and starts edge type `name`.
    pub fn edge_type(self, name: &str, from: &[&str], to: &[&str]) -> (r: EdgeTypeBuilder)
        ensures
            r.staged() == seq![
                SchemaChange::AddLabel {
                    name: self.label_name(),
                    description: self.label_description(),
                },
            ] + self.staged(),
            r.edge_name()@ == name@,
            texts(r.from_labels()) == str_texts(from@),
            texts(r.to_labels()) == str_texts(to@),
            r.type_description() is None,
    {
        self.done().edge_type(name, from, to)
    }
}

impl EdgeTypeBuilder {
    /// Changes staged before and for this edge type (the type itself excluded).
    pub closed spec fn staged(&self) -> Seq<SchemaChange> {
        self.builder.pending@
    }

    pub closed spec fn edge_name(&self) -> String {
        self.name
    }

    pub closed spec fn from_labels(&self) -> Seq<String> {
        self.from_labels@
    }

    pub closed spec fn to_labels(&self) -> Seq<String> {
        self.to_labels@
    }

    pub closed spec fn type_description(&self) -> Option<String> {
        self.description
    }

    /// The edge type's own declaration.
    pub closed spec fn declaration(&self) -> SchemaChange {
        SchemaChange::AddEdgeType {
            name: self.name,
            from_labels: self.from_labels,
            to_labels: self.to_labels,
            description: self.description,
        }
    }

    pub fn description(self, desc: &str) -> (r: Self)
        ensures
            r.staged() == self.staged(),
            r.edge_name() == self.edge_name(),
            r.from_labels() == self.from_labels(),
            r.to_labels() == self.to_labels(),
            opt_text(r.type_description()) == Some(desc@),
    {
        EdgeTypeBuilder {
            builder: self.builder,
            name: self.name,
            from_labels: self.from_labels,
            to_labels: self.to_labels,
            description: Some(owned(desc)),
        }
    }

    fn push_property(
        self,
        name: &str,
        data_type: DataType,
        nullable: bool,
        description: Option<String>,
    ) -> (r: Self)
        ensures
            r.declaration() == self.declaration(),
            r.staged().len() == self.staged().len() + 1,
            r.staged().drop_last() == self.staged(),
            declares_property(
                r.staged().last(),
                self.edge_name(),
                name@,
                data_type,
                nullable,
                opt_text(description),
            ),
    {
        let mut pending = self.builder.pending;
        pending.push(
            SchemaChange::AddProperty {
                label_or_type: self.name.clone(),
                name: owned(name),
                data_type,
                nullable,
                description,
            },
        );
        proof {
            assert(pending@.drop_last() =~= self.builder.pending@);
        }
        EdgeTypeBuilder {
            builder: SchemaBuilder { pending },
            name: self.name,
            from_labels: self.from_labels,
            to_labels: self.to_labels,
            description: self.description,
        }
    }

    /// Declares the non-nullable property `name`.
    pub fn property(self, name: &str, data_type: DataType) -> (r: Self)
        ensures
            r.declaration() == self.declaration(),
            r.staged().drop_last() == self.staged(),
            r.staged().len() == self.staged().len() + 1,
            declares_property(r.staged().last(), self.edge_name(), name@, data_type, false, None),
    {
        self.push_property(name, data_type, false, None)
    }

    /// Declares the nullable property `name`.
    pub fn property_nullable(self, name: &str, data_type: DataType) -> (r: Self)
        ensures
            r.declaration() == self.declaration(),
            r.staged().drop_last() == self.staged(),
            r.staged().len() == self.staged().len() + 1,
            declares_property(r.staged().last(), self.edge_name(), name@, data_type, true, None),
    {
        self.push_property(name, data_type, true, None)
    }

    /// Declares the non-nullable property `name` with a description.
    pub fn property_described(self, name: &str, data_type: DataType, desc: &str) -> (r: Self)
        ensures
            r.declaration() == self.declaration(),
            r.staged().drop_last() == self.staged(),
            r.staged().len() == self.staged().len() + 1,
            declares_property(
                r.staged().last(),
                self.edge_name(),
                name@,
                data_type,
                false,
                Some(desc@),
            ),
    {
        self.push_property(name, data_type, false, Some(owned(desc)))
    }

    /// Finishes the edge type: its declaration goes first, ahead of every
    /// change staged so far.
    pub fn done(self) -> (r: SchemaBuilder)
        ensures
            r.changes() == seq![self.declaration()] + self.staged(),
    {
        let mut pending = self.builder.pending;
        let decl = SchemaChange::AddEdgeType {
            name: self.name,
            from_labels: self.from_labels,
            to_labels: self.to_labels,
            description: self.description,
        };
        pending.insert(0, decl);
        proof {
            assert(pending@ =~= seq![self.declaration()] + self.builder.pending@);
        }
        SchemaBuilder { pending }
    }

    /// Finishes the edge type and applies everything staged (see
    /// [`SchemaBuilder::apply`]).
    pub fn apply(self, schema: &mut SchemaCatalog, failures: Vec<Option<String>>) -> (r: Result<
        Vec<String>,
        UniError,
    >)
        ensures
            batch_applied(old(schema)@, final(schema)@, seq![self.declaration()] + self.staged(), failures@, r),
    {
        self.done().apply(schema, failures)
    }

    /// Finishes this edge type and starts label `name`.
    pub fn label(self, name: &str) -> (r: LabelBuilder)
        ensures
            r.staged() == seq![self.declaration()] + self.staged(),
            r.label_name()@ == name@,
            r.label_description() is None,
    {
        self.done().label(name)
    }

    /// Finishes this edge type and starts edge type `name`.
    pub fn edge_type(self, name: &str, from: &[&str], to: &[&str]) -> (r: EdgeTypeBuilder)
        ensures
            r.staged() == seq![self.declaration()] + self.staged(),
            r.edge_name()@ == name@,
            texts(r.from_labels()) == str_texts(from@),
            texts(r.to_labels()) == str_texts(to@),
            r.type_description() is None,
    {
        self.done().edge_type(name, from, to)
    }
}


// ---------------------------------------------------------------------------
// Applying staged changes
// ---------------------------------------------------------------------------

fn opt_u32_eq(a: Option<u32>, b: Option<u32>) -> (r: bool)
    ensures
        r == (a == b),
{
    match (a, b) {
        (Some(x), Some(y)) => x == y,
        (None, None) => true,
        _ => false,
    }
}

fn opt_u8_eq(a: Option<u8>, b: Option<u8>) -> (r: bool)
    ensures
        r == (a == b),
{
    match (a, b) {
        (Some(x), Some(y)) => x == y,
        (None, None) => true,
        _ => false,
    }
}

/// Whether two stored vector index types are the same.
pub fn kind_eq(a: &VectorIndexKind, b: &VectorIndexKind) -> (r: bool)
    ensures
        r == (*a == *b),
    decreases a,
{
    match (a, b) {
        (VectorIndexKind::Flat, VectorIndexKind::Flat) => true,
        (VectorIndexKind::IvfFlat { num_partitions: p }, VectorIndexKind::IvfFlat { num_partitions: q }) => *p == *q,
        (
            VectorIndexKind::IvfPq { num_partitions: p1, num_sub_vectors: s1, bits_per_subvector: b1 },
            VectorIndexKind::IvfPq { num_partitions: p2, num_sub_vectors: s2, bits_per_subvector: b2 },
        ) => *p1 == *p2 && *s1 == *s2 && *b1 == *b2,
        (VectorIndexKind::IvfSq { num_partitions: p }, VectorIndexKind::IvfSq { num_partitions: q }) => *p == *q,
        (
            VectorIndexKind::IvfRq { num_partitions: p1, num_bits: n1 },
            VectorIndexKind::IvfRq { num_partitions: p2, num_bits: n2 },
        ) => *p1 == *p2 && opt_u8_eq(*n1, *n2),
        (
            VectorIndexKind::HnswFlat { m: m1, ef_construction: e1, num_partitions: p1 },
            VectorIndexKind::HnswFlat { m: m2, ef_construction: e2, num_partitions: p2 },
        ) => *m1 == *m2 && *e1 == *e2 && opt_u32_eq(*p1, *p2),
        (
            VectorIndexKind::HnswSq { m: m1, ef_construction: e1, num_partitions: p1 },
            VectorIndexKind::HnswSq { m: m2, ef_construction: e2, num_partitions: p2 },
        ) => *m1 == *m2 && *e1 == *e2 && opt_u32_eq(*p1, *p2),
        (
            VectorIndexKind::HnswPq { m: m1, ef_construction: e1, num_sub_vectors: s1, num_partitions: p1 },
            VectorIndexKind::HnswPq { m: m2, ef_construction: e2, num_sub_vectors: s2, num_partitions: p2 },
        ) => *m1 == *m2 && *e1 == *e2 && *s1 == *s2 && opt_u32_eq(*p1, *p2),
        (
            VectorIndexKind::Muvera { k_sim: k1, reps: r1, d_proj: d1, seed: s1, inner: i1 },
            VectorIndexKind::Muvera { k_sim: k2, reps: r2, d_proj: d2, seed: s2, inner: i2 },
        ) => *k1 == *k2 && *r1 == *r2 && *d1 == *d2 && *s1 == *s2 && kind_eq(i1, i2),
        _ => false,
    }
}

/// Two embedding configurations say the same thing.
pub open spec fn embedding_same(a: EmbeddingCfg, b: EmbeddingCfg) -> bool {
    &&& a.alias@ == b.alias@
    &&& texts(a.source_properties@) == texts(b.source_properties@)
    &&& a.batch_size == b.batch_size
    &&& opt_text(a.document_prefix) == opt_text(b.document_prefix)
    &&& opt_text(a.query_prefix) == opt_text(b.query_prefix)
}

/// Two optional embedding configurations say the same thing.
pub open spec fn opt_embedding_same(a: Option<EmbeddingCfg>, b: Option<EmbeddingCfg>) -> bool {
    match (a, b) {
        (Some(x), Some(y)) => embedding_same(x, y),
        (None, None) => true,
        _ => false,
    }
}

/// Two index definitions say the same thing (same variant, same texts, same
/// settings).
pub open spec fn index_same(a: IndexDef, b: IndexDef) -> bool {
    match (a, b) {
        (
            IndexDef::Vector { name: n1, label: l1, property: p1, kind: k1, metric: m1, embedding: e1 },
            IndexDef::Vector { name: n2, label: l2, property: p2, kind: k2, metric: m2, embedding: e2 },
        ) => n1@ == n2@ && l1@ == l2@ && p1@ == p2@ && k1 == k2 && m1 == m2 && opt_embedding_same(e1, e2),
        (
            IndexDef::Scalar { name: n1, label: l1, properties: p1, kind: k1 },
            IndexDef::Scalar { name: n2, label: l2, properties: p2, kind: k2 },
        ) => n1@ == n2@ && l1@ == l2@ && texts(p1@) == texts(p2@) && k1 == k2,
        (
            IndexDef::FullText { name: n1, label: l1, properties: p1, with_positions: w1 },
            IndexDef::FullText { name: n2, label: l2, properties: p2, with_positions: w2 },
        ) => n1@ == n2@ && l1@ == l2@ && texts(p1@) == texts(p2@) && w1 == w2,
        (
            IndexDef::Inverted { name: n1, label: l1, property: p1 },
            IndexDef::Inverted { name: n2, label: l2, property: p2 },
        ) => n1@ == n2@ && l1@ == l2@ && p1@ == p2@,
        (
            IndexDef::JsonFullText { name: n1, label: l1, column: c1 },
            IndexDef::JsonFullText { name: n2, label: l2, column: c2 },
        ) => n1@ == n2@ && l1@ == l2@ && c1@ == c2@,
        (
            IndexDef::Sparse { name: n1, label: l1, property: p1, dimensions: d1, quantize: q1, embedding: e1 },
            IndexDef::Sparse { name: n2, label: l2, property: p2, dimensions: d2, quantize: q2, embedding: e2 },
        ) => n1@ == n2@ && l1@ == l2@ && p1@ == p2@ && d1 == d2 && q1 == q2 && opt_embedding_same(e1, e2),
        _ => false,
    }
}

/// Whether two vectors of strings hold the same texts in the same order.
pub fn same_texts(a: &Vec<String>, b: &Vec<String>) -> (r: bool)
    ensures
        r == (texts(a@) == texts(b@)),
{
    if a.len() != b.len() {
        proof {
            assert(texts(a@).len() != texts(b@).len());
        }
        return false;
    }
    let mut i: usize = 0;
    while i < a.len()
        invariant
            i <= a@.len(),
            a@.len() == b@.len(),
            forall|j: int| 0 <= j < i ==> #[trigger] a@[j]@ == b@[j]@,
        decreases a.len() - i,
    {
        if a[i] != b[i] {
            proof {
                assert(texts(a@)[i as int] != texts(b@)[i as int]);
            }
            return false;
        }
        i = i + 1;
    }
    proof {
        assert(texts(a@) =~= texts(b@));
    }
    true
}

fn opt_text_eq(a: &Option<String>, b: &Option<String>) -> (r: bool)
    ensures
        r == (opt_text(*a) == opt_text(*b)),
{
    match (a, b) {
        (Some(x), Some(y)) => *x == *y,
        (None, None) => true,
        _ => false,
    }
}

fn embedding_eq(a: &Option<EmbeddingCfg>, b: &Option<EmbeddingCfg>) -> (r: bool)
    ensures
        r == opt_embedding_same(*a, *b),
{
    match (a, b) {
        (Some(x), Some(y)) => x.alias == y.alias && same_texts(&x.source_properties, &y.source_properties)
            && x.batch_size == y.batch_size && opt_text_eq(&x.document_prefix, &y.document_prefix)
            && opt_text_eq(&x.query_prefix, &y.query_prefix),
        (None, None) => true,
        _ => false,
    }
}

/// Whether two index definitions say the same thing (see [`index_same`]).
pub fn index_eq(a: &IndexDef, b: &IndexDef) -> (r: bool)
    ensures
        r == index_same(*a, *b),
{
    match (a, b) {
        (
            IndexDef::Vector { name: n1, label: l1, property: p1, kind: k1, metric: m1, embedding: e1 },
            IndexDef::Vector { name: n2, label: l2, property: p2, kind: k2, metric: m2, embedding: e2 },
        ) => *n1 == *n2 && *l1 == *l2 && *p1 == *p2 && kind_eq(k1, k2) && *m1 == *m2 && embedding_eq(e1, e2),
        (
            IndexDef::Scalar { name: n1, label: l1, properties: p1, kind: k1 },
            IndexDef::Scalar { name: n2, label: l2, properties: p2, kind: k2 },
        ) => *n1 == *n2 && *l1 == *l2 && same_texts(p1, p2) && *k1 == *k2,
        (
            IndexDef::FullText { name: n1, label: l1, properties: p1, with_positions: w1 },
            IndexDef::FullText { name: n2, label: l2, properties: p2, with_positions: w2 },
        ) => *n1 == *n2 && *l1 == *l2 && same_texts(p1, p2) && *w1 == *w2,
        (
            IndexDef::Inverted { name: n1, label: l1, property: p1 },
            IndexDef::Inverted { name: n2, label: l2, property: p2 },
        ) => *n1 == *n2 && *l1 == *l2 && *p1 == *p2,
        (
            IndexDef::JsonFullText { name: n1, label: l1, column: c1 },
            IndexDef::JsonFullText { name: n2, label: l2, column: c2 },
        ) => *n1 == *n2 && *l1 == *l2 && *c1 == *c2,
        (
            IndexDef::Sparse { name: n1, label: l1, property: p1, dimensions: d1, quantize: q1, embedding: e1 },
            IndexDef::Sparse { name: n2, label: l2, property: p2, dimensions: d2, quantize: q2, embedding: e2 },
        ) => *n1 == *n2 && *l1 == *l2 && *p1 == *p2 && *d1 == *d2 && *q1 == *q2 && embedding_eq(e1, e2),
        _ => false,
    }
}

/// How applying a label declaration ends, given the schema manager's
/// failure text (`None`: it succeeded): a name collision ("already exists")
/// is accepted, since re-declaring a label is idempotent; any other failure
/// is a schema error carrying that text.
pub fn label_declared(err: Option<String>) -> (r: Result<(), UniError>)
    ensures
        match err {
            None => r is Ok,
            Some(e) => if contains(e@, "already exists"@) {
                r is Ok
            } else {
                r matches Err(UniError::Schema { message }) && message@ == e@
            },
        },
{
    match err {
        None => Ok(()),
        Some(e) => {
            if text_contains(&chars_of(e.as_str()), "already exists") {
                Ok(())
            } else {
                Err(UniError::Schema { message: e })
            }
        },
    }
}

/// How applying a property declaration ends: any failure (such as a type
/// or nullability conflict) is a schema error carrying its text.
pub fn property_declared(err: Option<String>) -> (r: Result<(), UniError>)
    ensures
        match err {
            None => r is Ok,
            Some(e) => r matches Err(UniError::Schema { message }) && message@ == e@,
        },
{
    match err {
        None => Ok(()),
        Some(e) => Err(UniError::Schema { message: e }),
    }
}

/// How applying an index declaration ends, given the index registered under
/// the same name before (`existing`) and the failure text of registering
/// `idx`: a failure is a schema error; otherwise the answer is whether the
/// index's label must be rebuilt, which it need not be when the same
/// definition was already registered.
pub fn index_declared(existing: Option<&IndexDef>, idx: &IndexDef, err: Option<String>) -> (r: Result<
    bool,
    UniError,
>)
    ensures
        match err {
            Some(e) => r matches Err(UniError::Schema { message }) && message@ == e@,
            None => r == Ok::<bool, UniError>(
                !(existing matches Some(x) && index_same(*x, *idx)),
            ),
        },
{
    let already_present = match existing {
        Some(x) => index_eq(x, idx),
        None => false,
    };
    match err {
        Some(e) => Err(UniError::Schema { message: e }),
        None => Ok(!already_present),
    }
}

/// The `Debug` rendering of the items of a list of texts, comma separated.
pub open spec fn debug_items(v: Seq<Seq<char>>) -> Seq<char>
    decreases v.len(),
{
    if v.len() == 0 {
        Seq::empty()
    } else if v.len() == 1 {
        str_debug(v[0])
    } else {
        debug_items(v.drop_last()) + ", "@ + str_debug(v.last())
    }
}

/// The `Debug` rendering of a list of texts: `[` items `]`.
pub open spec fn list_debug(v: Seq<Seq<char>>) -> Seq<char> {
    "["@ + debug_items(v) + "]"@
}

pub(crate) fn push_list_debug(out: &mut Vec<char>, v: &Vec<String>)
    ensures
        final(out)@ == old(out)@ + list_debug(texts(v@)),
{
    push_str(out, "[");
    let ghost start = out@;
    let mut i: usize = 0;
    while i < v.len()
        invariant
            i <= v@.len(),
            out@ == start + debug_items(texts(v@).take(i as int)),
        decreases v.len() - i,
    {
        if i > 0 {
            push_str(out, ", ");
        }
        let d = debug_str(v[i].as_str());
        push_str(out, d.as_str());
        proof {
            assert(texts(v@).take(i + 1).drop_last() =~= texts(v@).take(i as int));
            assert(texts(v@).take(i + 1).last() == v@[i as int]@);
            if i == 0 {
                assert(texts(v@).take(1)[0] == v@[0]@);
            }
        }
        i = i + 1;
        proof {
            assert(out@ =~= start + debug_items(texts(v@).take(i as int)));
        }
    }
    push_str(out, "]");
    proof {
        assert(texts(v@).take(v@.len() as int) =~= texts(v@));
        assert(final(out)@ =~= old(out)@ + list_debug(texts(v@)));
    }
}

/// The message refusing to re-declare edge type `name` with endpoints other
/// than the stored ones.
pub open spec fn endpoint_conflict_message(name: Seq<char>, from: Seq<Seq<char>>, to: Seq<Seq<char>>) -> Seq<char> {
    "edge type '"@ + name + "' already exists with different endpoint labels; drop it before re-declaring with from="@
        + list_debug(from) + " to="@ + list_debug(to)
}

/// How applying an edge type declaration ends, given the schema manager's
/// failure text and the stored (source, target) labels of a type of that
/// name: a name collision is accepted only when the stored endpoint labels
/// are exactly the requested ones; otherwise it is a conflict that is
/// reported, not swallowed. Any other failure is a schema error.
pub fn edge_type_declared(
    name: &str,
    err: Option<String>,
    existing: Option<(&Vec<String>, &Vec<String>)>,
    requested_from: &Vec<String>,
    requested_to: &Vec<String>,
) -> (r: Result<(), UniError>)
    ensures
        match err {
            None => r is Ok,
            Some(e) => if contains(e@, "already exists"@) {
                if existing matches Some((f, t)) && texts(f@) == texts(requested_from@) && texts(t@)
                    == texts(requested_to@) {
                    r is Ok
                } else {
                    r matches Err(UniError::Schema { message }) && message@ == endpoint_conflict_message(
                        name@,
                        texts(requested_from@),
                        texts(requested_to@),
                    )
                }
            } else {
                r matches Err(UniError::Schema { message }) && message@ == e@
            },
        },
{
    match err {
        None => Ok(()),
        Some(e) => {
            if text_contains(&chars_of(e.as_str()), "already exists") {
                let matches = match existing {
                    Some((f, t)) => same_texts(f, requested_from) && same_texts(t, requested_to),
                    None => false,
                };
                if matches {
                    Ok(())
                } else {
                    let mut v = chars_of("edge type '");
                    push_str(&mut v, name);
                    push_str(&mut v, "' already exists with different endpoint labels; drop it before re-declaring with from=");
                    push_list_debug(&mut v, requested_from);
                    push_str(&mut v, " to=");
                    push_list_debug(&mut v, requested_to);
                    Err(UniError::Schema { message: string_from(&v) })
                }
            } else {
                Err(UniError::Schema { message: e })
            }
        },
    }
}

/// Whether `name` is an active element among `elements`.
pub open spec fn active_in(elements: Seq<(String, ElementState)>, name: Seq<char>) -> bool {
    exists|i: int| 0 <= i < elements.len() && (#[trigger] elements[i]).0@ == name && elements[i].1
        == ElementState::Active
}

/// Whether `name` is among the label lists `lists`.
pub open spec fn listed_in(lists: Seq<Vec<String>>, name: Seq<char>) -> bool {
    exists|i: int| 0 <= i < lists.len() && texts((#[trigger] lists[i])@).contains(name)
}

/// The names of the active elements, each once.
pub fn active_element_names(elements: &Vec<(String, ElementState)>) -> (r: Vec<String>)
    ensures
        texts(r@).no_duplicates(),
        forall|x: Seq<char>| #[trigger] texts(r@).contains(x) <==> active_in(elements@, x),
{
    let mut out: Vec<String> = Vec::new();
    let mut i: usize = 0;
    while i < elements.len()
        invariant
            i <= elements@.len(),
            texts(out@).no_duplicates(),
            forall|x: Seq<char>| #[trigger] texts(out@).contains(x) <==> active_in(elements@.take(i as int), x),
        decreases elements.len() - i,
    {
        let ghost before = out@;
        let active = element_active(Some(elements[i].1));
        if active {
            crate::bulk::add_unique(&mut out, &elements[i].0);
        }
        proof {
            let t = elements@.take(i + 1);
            assert(t[i as int] == elements@[i as int]);
            assert forall|x: Seq<char>| #[trigger] texts(out@).contains(x) <==> active_in(t, x) by {
                assert(texts(out@).to_set().contains(x) == texts(out@).contains(x));
                assert(texts(before).to_set().contains(x) == texts(before).contains(x));
                if active && x == elements@[i as int].0@ {
                    assert(active_in(t, x));
                }
                if active_in(t, x) {
                    let j = choose|j: int| 0 <= j < t.len() && (#[trigger] t[j]).0@ == x && t[j].1 == ElementState::Active;
                    if j < i {
                        assert(elements@.take(i as int)[j] == t[j]);
                    }
                }
                if active_in(elements@.take(i as int), x) {
                    let j = choose|j: int| 0 <= j < i && (#[trigger] elements@.take(i as int)[j]).0@ == x
                        && elements@.take(i as int)[j].1 == ElementState::Active;
                    assert(t[j] == elements@.take(i as int)[j]);
                }
            }
        }
        i = i + 1;
    }
    proof {
        assert(elements@.take(elements@.len() as int) =~= elements@);
    }
    out
}

/// The labels to list: the active labels of the schema together with every
/// label that data carries (schemaless ones included), each once.
pub fn label_listing(schema_labels: &Vec<(String, ElementState)>, data_labels: &Vec<Vec<String>>) -> (r: Vec<String>)
    ensures
        texts(r@).no_duplicates(),
        forall|x: Seq<char>| #[trigger] texts(r@).contains(x) <==> (active_in(schema_labels@, x) || listed_in(
            data_labels@,
            x,
        )),
{
    let mut out = active_element_names(schema_labels);
    let mut i: usize = 0;
    while i < data_labels.len()
        invariant
            i <= data_labels@.len(),
            texts(out@).no_duplicates(),
            forall|x: Seq<char>| #[trigger] texts(out@).contains(x) <==> (active_in(schema_labels@, x)
                || listed_in(data_labels@.take(i as int), x)),
        decreases data_labels.len() - i,
    {
        let ghost mid = out@;
        let row = &data_labels[i];
        let mut j: usize = 0;
        while j < row.len()
            invariant
                j <= row@.len(),
                i < data_labels@.len(),
                *row == data_labels@[i as int],
                texts(out@).no_duplicates(),
                forall|x: Seq<char>| #[trigger] texts(out@).contains(x) <==> (texts(mid).contains(x)
                    || texts(row@.take(j as int)).contains(x)),
            decreases row.len() - j,
        {
            let ghost before = out@;
            crate::bulk::add_unique(&mut out, &row[j]);
            proof {
                assert forall|x: Seq<char>| #[trigger] texts(out@).contains(x) <==> (texts(mid).contains(x)
                    || texts(row@.take(j + 1)).contains(x)) by {
                    assert(texts(out@).to_set().contains(x) == texts(out@).contains(x));
                    assert(texts(before).to_set().contains(x) == texts(before).contains(x));
                    assert(texts(out@).to_set() == texts(before).to_set().insert(row@[j as int]@));
                    assert(texts(out@).contains(x) == (texts(before).contains(x) || x == row@[j as int]@));
                    assert(texts(row@.take(j + 1)) =~= texts(row@.take(j as int)).push(row@[j as int]@));
                    if x == row@[j as int]@ {
                        assert(texts(row@.take(j + 1))[j as int] == x);
                    }
                    if texts(row@.take(j as int)).contains(x) {
                        let q = choose|q: int| 0 <= q < texts(row@.take(j as int)).len() && #[trigger] texts(row@.take(j as int))[q] == x;
                        assert(texts(row@.take(j + 1))[q] == x);
                    }
                    if texts(row@.take(j + 1)).contains(x) && x != row@[j as int]@ {
                        let q = choose|q: int| 0 <= q < texts(row@.take(j + 1)).len() && #[trigger] texts(row@.take(j + 1))[q] == x;
                        assert(texts(row@.take(j as int))[q] == x);
                    }
                }
            }
            j = j + 1;
        }
        proof {
            assert(row@.take(row@.len() as int) =~= row@);
            let t = data_labels@.take(i + 1);
            assert forall|x: Seq<char>| #[trigger] texts(out@).contains(x) <==> (active_in(schema_labels@, x)
                || listed_in(t, x)) by {
                if listed_in(t, x) {
                    let k = choose|k: int| 0 <= k < t.len() && texts((#[trigger] t[k])@).contains(x);
                    if k < i {
                        assert(data_labels@.take(i as int)[k] == t[k]);
                    }
                }
                if listed_in(data_labels@.take(i as int), x) {
                    let k = choose|k: int| 0 <= k < i && texts((#[trigger] data_labels@.take(i as int)[k])@).contains(x);
                    assert(t[k] == data_labels@.take(i as int)[k]);
                }
                if texts(row@).contains(x) {
                    assert(t[i as int] == *row);
                }
            }
        }
        i = i + 1;
    }
    proof {
        assert(data_labels@.take(data_labels@.len() as int) =~= data_labels@);
    }
    out
}

/// The labels whose indexes are rebuilt after applying: each label once,
/// in sorted order.
pub fn labels_to_rebuild(labels: &Vec<String>) -> (r: Vec<String>)
    ensures
        strictly_sorted(r@),
        forall|x: Seq<char>| texts(r@).contains(x) <==> texts(labels@).contains(x),
{
    sorted_unique(labels)
}

} // verus!
