//! Shaping query results: the column order, the row values by column, the
//! memory estimate of a result and the memory limit check.
use vstd::prelude::*;
use crate::errors::{UniError, memory_limit_error, memory_limit_text};
use crate::plan_cache::{find_param, param_lookup};
use crate::text::{sorted_unique, strictly_sorted, texts};
use crate::value::{Value, copy_value, value_bytes};

verus! {

/// The shape of the top of a logical plan, as far as it decides the order of
/// the result columns.
pub enum PlanShape {
    /// Projected expressions with optional aliases.
    Project { projections: Vec<(String, Option<String>)> },
    /// Grouping keys followed by aggregates.
    Aggregate { group_by: Vec<String>, aggregates: Vec<String> },
    /// A limit, sort or filter over an input.
    Pass { input: Box<PlanShape> },
    /// Anything else.
    Other,
}

/// The column name of one projection: its alias, else its expression text.
pub open spec fn projected_name(e: (String, Option<String>)) -> Seq<char> {
    match e.1 {
        Some(a) => a@,
        None => e.0@,
    }
}

/// The column order a plan projects, if it decides one: each projection's
/// alias (or its expression text), or the grouping keys then the
/// aggregates; limits, sorts and filters pass their input's order on.
pub open spec fn projection_order(p: PlanShape) -> Option<Seq<Seq<char>>>
    decreases p,
{
    match p {
        PlanShape::Project { projections } => Some(
            projections@.map_values(|e: (String, Option<String>)| projected_name(e)),
        ),
        PlanShape::Aggregate { group_by, aggregates } => Some(texts(group_by@) + texts(aggregates@)),
        PlanShape::Pass { input } => projection_order(*input),
        PlanShape::Other => None,
    }
}

/// An aggregating plan's columns are all its grouping keys, in order,
/// followed by all its aggregates, in order.
pub proof fn law_aggregate_columns(group_by: Vec<String>, aggregates: Vec<String>)
    ensures
        projection_order(PlanShape::Aggregate { group_by, aggregates }) matches Some(cols) && cols.len()
            == group_by@.len() + aggregates@.len() && (forall|i: int|
            0 <= i < group_by@.len() ==> cols[i] == (#[trigger] group_by@[i])@) && (forall|j: int|
            0 <= j < aggregates@.len() ==> cols[group_by@.len() + j] == (#[trigger] aggregates@[j])@),
{
}

/// The column order a plan projects (see [`projection_order`]).
pub fn extract_projection_order(p: &PlanShape) -> (r: Option<Vec<String>>)
    ensures
        match r {
            Some(v) => projection_order(*p) == Some(texts(v@)),
            None => projection_order(*p) is None,
        },
    decreases p,
{
    match p {
        PlanShape::Project { projections } => {
            let mut out: Vec<String> = Vec::new();
            let mut i: usize = 0;
            while i < projections.len()
                invariant
                    i <= projections@.len(),
                    texts(out@) == projections@.take(i as int).map_values(|e: (String, Option<String>)| projected_name(e)),
                decreases projections.len() - i,
            {
                let name = match &projections[i].1 {
                    Some(a) => a.clone(),
                    None => projections[i].0.clone(),
                };
                let ghost before = out@;
                let ghost nm = name@;
                out.push(name);
                proof {
                    assert(nm == projected_name(projections@[i as int]));
                    assert(projections@.take(i + 1) =~= projections@.take(i as int).push(projections@[i as int]));
                    assert(texts(out@) =~= texts(before).push(projected_name(projections@[i as int])));
                    assert(texts(out@) =~= projections@.take(i + 1).map_values(|e: (String, Option<String>)| projected_name(e)));
                }
                i = i + 1;
            }
            proof {
                assert(projections@.take(projections@.len() as int) =~= projections@);
            }
            Some(out)
        },
        PlanShape::Aggregate { group_by, aggregates } => {
            let mut out = crate::text::copy_strings(group_by);
            let mut more = crate::text::copy_strings(aggregates);
            let ghost a = out@;
            let ghost b = more@;
            out.append(&mut more);
            proof {
                assert(texts(out@) =~= texts(a) + texts(b));
            }
            Some(out)
        },
        PlanShape::Pass { input } => extract_projection_order(input),
        PlanShape::Other => None,
    }
}

/// The result columns: none for an empty result; otherwise the plan's
/// projection order, or else the first row's columns in sorted order.
pub fn columns_for_results(first_row_columns: Option<&Vec<String>>, projection: Option<Vec<String>>) -> (r: Vec<String>)
    ensures
        first_row_columns is None ==> r@.len() == 0,
        first_row_columns is Some && projection is Some ==> r == projection->0,
        first_row_columns is Some && projection is None ==> strictly_sorted(r@) && forall|x: Seq<char>|
            texts(r@).contains(x) <==> texts(first_row_columns.unwrap()@).contains(x),
{
    match first_row_columns {
        None => Vec::new(),
        Some(cols) => match projection {
            Some(order) => order,
            None => sorted_unique(cols),
        },
    }
}

/// The values of a result row in column order: the row's value for each
/// column (a copy), or null where the row has none.
pub fn row_values(row: &Vec<(String, Value)>, columns: &Vec<String>) -> (r: Vec<Value>)
    ensures
        r@.len() == columns@.len(),
        forall|i: int| 0 <= i < columns@.len() ==> match param_lookup(row@, columns@[i]@) {
            Some(v) => value_bytes(#[trigger] r@[i]) == value_bytes(v),
            None => r@[i] == Value::Null,
        },
{
    let mut out: Vec<Value> = Vec::new();
    let mut i: usize = 0;
    while i < columns.len()
        invariant
            i <= columns@.len(),
            out@.len() == i,
            forall|k: int| 0 <= k < i ==> match param_lookup(row@, columns@[k]@) {
                Some(v) => value_bytes(#[trigger] out@[k]) == value_bytes(v),
                None => out@[k] == Value::Null,
            },
        decreases columns.len() - i,
    {
        let v = match find_param(row, &columns[i]) {
            Some(j) => copy_value(&row[j].1),
            None => Value::Null,
        };
        out.push(v);
        i = i + 1;
    }
    out
}

/// The sum of the counts.
pub open spec fn count_total(counts: Seq<usize>) -> int
    decreases counts.len(),
{
    if counts.len() == 0 { 0 } else { count_total(counts.drop_last()) + counts.last() }
}

proof fn lemma_count_total_prefix(counts: Seq<usize>, i: int)
    requires
        0 <= i <= counts.len(),
    ensures
        count_total(counts.take(i)) <= count_total(counts),
    decreases counts.len(),
{
    if i < counts.len() {
        assert(counts.drop_last().take(i) =~= counts.take(i));
        lemma_count_total_prefix(counts.drop_last(), i);
    } else {
        assert(counts.take(i) =~= counts);
    }
}

/// The coarse memory estimate of a result whose rows hold `values_per_row`
/// values: each value counts its in-memory size `value_size` plus 64 bytes.
pub fn estimate_result_bytes(values_per_row: &Vec<usize>, value_size: usize) -> (r: usize)
    requires
        count_total(values_per_row@) * (value_size + 64) <= usize::MAX,
    ensures
        r == count_total(values_per_row@) * (value_size + 64),
{
    let mut sum: usize = 0;
    let mut i: usize = 0;
    while i < values_per_row.len()
        invariant
            i <= values_per_row@.len(),
            sum == count_total(values_per_row@.take(i as int)) * (value_size + 64),
            count_total(values_per_row@) * (value_size + 64) <= usize::MAX,
        decreases values_per_row.len() - i,
    {
        proof {
            assert(values_per_row@.take(i + 1).drop_last() =~= values_per_row@.take(i as int));
            lemma_count_total_prefix(values_per_row@, i + 1);
            let a = count_total(values_per_row@.take(i as int));
            let b = count_total(values_per_row@.take(i + 1));
            let t = count_total(values_per_row@);
            let w = value_size + 64;
            assert(b == a + values_per_row@[i as int]);
            assert(b * w <= t * w) by (nonlinear_arith)
                requires
                    b <= t,
                    w >= 0,
            ;
            assert(b * w == a * w + values_per_row@[i as int] * w) by (nonlinear_arith)
                requires
                    b == a + values_per_row@[i as int],
            ;
            assert(values_per_row@[i as int] * w >= 0) by (nonlinear_arith)
                requires
                    w >= 0,
            ;
        }
        if values_per_row[i] > 0 {
            proof {
                let w = value_size + 64;
                let c = values_per_row@[i as int];
                assert(c * w >= w) by (nonlinear_arith)
                    requires
                        c >= 1,
                        w >= 0,
                ;
            }
            let add = values_per_row[i] * (value_size + 64);
            sum = sum + add;
        }
        i = i + 1;
    }
    proof {
        assert(values_per_row@.take(values_per_row@.len() as int) =~= values_per_row@);
    }
    sum
}

/// Whether a result estimated at `estimated_bytes` may be returned under the
/// limit `max_mem` (0: no limit); over the limit it is a memory-limit error.
pub fn enforce_memory_limit(estimated_bytes: usize, max_mem: usize, cypher: &str) -> (r: Result<(), UniError>)
    ensures
        max_mem == 0 || estimated_bytes <= max_mem ==> r is Ok,
        max_mem > 0 && estimated_bytes > max_mem ==> (r matches Err(UniError::Query { message, query: Some(q) })
            && message@ == memory_limit_text(estimated_bytes as nat, max_mem as nat) && q@ == cypher@),
{
    if max_mem == 0 {
        return Ok(());
    }
    if estimated_bytes > max_mem {
        return Err(memory_limit_error(estimated_bytes, max_mem, cypher));
    }
    Ok(())
}

} // verus!
