//! Rule-program integration: the rule registry's sources and strata, the
//! hint for a bare rule name, and resolving vertex ids in derived facts
//! back to nodes.
use vstd::prelude::*;
use crate::errors::UniError;
use crate::plan_cache::{find_param, param_lookup};
use crate::schema::{list_debug, push_list_debug};
use crate::text::{
    ascii_lower, ascii_lowercase, chars_of, copy_strings, int_text, owned, push_i64, push_str,
    string_from, texts, trim_chars, trim_ws,
};
use crate::value::{Value, copy_value, value_bytes};
use crate::params::Params;
use crate::bulk::{append_rows, has_key, lemma_rows_at, rows_of, unique_keys};
use std::collections::HashSet;
use std::time::Duration;

verus! {

broadcast use vstd::std_specs::hash::group_hash_axioms;

// ---------------------------------------------------------------------------
// Resolving vertex ids to nodes
// ---------------------------------------------------------------------------

/// The decimal texts of the ids joined with `, `.
pub open spec fn id_list(ids: Seq<i64>) -> Seq<char>
    decreases ids.len(),
{
    if ids.len() == 0 {
        Seq::empty()
    } else if ids.len() == 1 {
        int_text(ids[0] as int)
    } else {
        id_list(ids.drop_last()) + ", "@ + int_text(ids.last() as int)
    }
}

/// The Cypher statement resolving each of `vids` to its node, the ids
/// listed in the order the set hands them out (each once).
pub fn vid_lookup_query(vids: &HashSet<i64>) -> (r: String)
    ensures
        exists|order: Seq<i64>|
            order.no_duplicates() && order.to_set() == vids@ && r@ == "MATCH (n) WHERE id(n) IN ["@ + id_list(
                order,
            ) + "] RETURN id(n) AS _vid, n"@,
{
    let mut order: Vec<i64> = Vec::new();
    for x in it: vids.iter()
        invariant
            it.seq().unref().to_set() == vids@,
            it.seq().unref().no_duplicates(),
            it.seq().len() == vids@.len(),
            order@ == it.seq().unref().take(it.index() as int),
            order@.no_duplicates(),
            order@.to_set().subset_of(vids@),
        ensures
            order@.no_duplicates(),
            order@.to_set().subset_of(vids@),
            order@.len() == vids@.len(),
    {
        let ghost before = order@;
        let ghost k = it.index() as int;
        proof {
            let sq = it.seq().unref();
            assert(sq.take(k + 1) =~= before.push(*x));
            assert(sq[k] == *x);
            assert(sq.to_set().contains(*x));
            assert forall|j: int| 0 <= j < before.len() implies before[j] != *x by {
                assert(before[j] == sq[j]);
            }
            before.lemma_push_to_set_commute(*x);
        }
        order.push(*x);
    }
    proof {
        order@.unique_seq_to_set();
        vstd::set_lib::lemma_subset_equality(order@.to_set(), vids@);
    }
    vid_list_query(&order)
}

fn vid_list_query(vids: &Vec<i64>) -> (r: String)
    ensures
        r@ == "MATCH (n) WHERE id(n) IN ["@ + id_list(vids@) + "] RETURN id(n) AS _vid, n"@,
{
    let mut v = chars_of("MATCH (n) WHERE id(n) IN [");
    let ghost start = v@;
    let mut i: usize = 0;
    while i < vids.len()
        invariant
            i <= vids@.len(),
            v@ == start + id_list(vids@.take(i as int)),
        decreases vids.len() - i,
    {
        if i > 0 {
            push_str(&mut v, ", ");
        }
        push_i64(&mut v, vids[i]);
        proof {
            assert(vids@.take(i + 1).drop_last() =~= vids@.take(i as int));
            if i == 0 {
                assert(vids@.take(1)[0] == vids@[0]);
            }
        }
        i = i + 1;
        proof {
            assert(v@ =~= start + id_list(vids@.take(i as int)));
        }
    }
    push_str(&mut v, "] RETURN id(n) AS _vid, n");
    proof {
        assert(vids@.take(vids@.len() as int) =~= vids@);
    }
    string_from(&v)
}

/// `row` holds the id `vid` in one of `columns`.
pub open spec fn holds_vid(row: Seq<(String, Value)>, columns: Seq<String>, vid: i64) -> bool {
    exists|c: int| 0 <= c < columns.len() && param_lookup(row, (#[trigger] columns[c])@) == Some(Value::Int(vid))
}

/// The ids held in `columns` of any of `rows`.
pub open spec fn vids_in(rows: Seq<Vec<(String, Value)>>, columns: Seq<String>) -> Set<i64> {
    Set::new(|vid: i64| exists|r: int| 0 <= r < rows.len() && holds_vid((#[trigger] rows[r])@, columns, vid))
}

/// Adds the id held in column `col` of `row`, if it holds one and it is
/// not already there.
#[verifier::loop_isolation(false)]
fn add_column_vid(out: &mut Vec<i64>, row: &Vec<(String, Value)>, col: &String)
    requires
        old(out)@.no_duplicates(),
    ensures
        final(out)@.no_duplicates(),
        final(out)@.to_set() == match param_lookup(row@, col@) {
            Some(Value::Int(vid)) => old(out)@.to_set().insert(vid),
            _ => old(out)@.to_set(),
        },
{
    match find_param(row, col) {
        Some(j) => {
            match &row[j].1 {
                Value::Int(vid) => {
                    let mut k: usize = 0;
                    while k < out.len()
                        invariant
                            k <= out@.len(),
                            forall|q: int| 0 <= q < k ==> out@[q] != *vid,
                        decreases out.len() - k,
                    {
                        if out[k] == *vid {
                            proof {
                                assert(out@.contains(*vid));
                                assert(out@.to_set() =~= out@.to_set().insert(*vid));
                            }
                            return;
                        }
                        k = k + 1;
                    }
                    let ghost before = out@;
                    out.push(*vid);
                    proof {
                        before.lemma_push_to_set_commute(*vid);
                        assert(out@ == before.push(*vid));
                    }
                },
                _ => {},
            }
        },
        None => {},
    }
}

/// The distinct ids held in the id columns `vid_columns` of `rows`.
pub fn unique_vids_in(rows: &Vec<Vec<(String, Value)>>, vid_columns: &Vec<String>) -> (r: HashSet<i64>)
    ensures
        r@ == vids_in(rows@, vid_columns@),
{
    let list = vid_list_in(rows, vid_columns);
    let mut set: HashSet<i64> = HashSet::new();
    let mut i: usize = 0;
    while i < list.len()
        invariant
            i <= list@.len(),
            set@ == list@.take(i as int).to_set(),
        decreases list.len() - i,
    {
        proof {
            assert(list@.take(i + 1) =~= list@.take(i as int).push(list@[i as int]));
            list@.take(i as int).lemma_push_to_set_commute(list@[i as int]);
        }
        set.insert(list[i]);
        i = i + 1;
    }
    proof {
        assert(list@.take(i as int) =~= list@);
    }
    set
}

fn vid_list_in(rows: &Vec<Vec<(String, Value)>>, vid_columns: &Vec<String>) -> (r: Vec<i64>)
    ensures
        r@.no_duplicates(),
        r@.to_set() == vids_in(rows@, vid_columns@),
{
    let mut out: Vec<i64> = Vec::new();
    let mut i: usize = 0;
    while i < rows.len()
        invariant
            i <= rows@.len(),
            out@.no_duplicates(),
            out@.to_set() == vids_in(rows@.take(i as int), vid_columns@),
        decreases rows.len() - i,
    {
        let row = &rows[i];
        let ghost before_rows = out@;
        let mut c: usize = 0;
        while c < vid_columns.len()
            invariant
                c <= vid_columns@.len(),
                i < rows@.len(),
                *row == rows@[i as int],
                out@.no_duplicates(),
                out@.to_set() == vids_in(rows@.take(i as int), vid_columns@).union(
                    Set::new(|vid: i64| exists|k: int| 0 <= k < c && param_lookup(rows@[i as int]@, (#[trigger] vid_columns@[k])@) == Some(Value::Int(vid))),
                ),
            decreases vid_columns.len() - c,
        {
            let ghost before = out@;
            add_column_vid(&mut out, row, &vid_columns[c]);
            proof {
                let s_old = Set::new(|vid: i64| exists|k: int| 0 <= k < c && param_lookup(rows@[i as int]@, (#[trigger] vid_columns@[k])@) == Some(Value::Int(vid)));
                let s_new = Set::new(|vid: i64| exists|k: int| 0 <= k < c + 1 && param_lookup(rows@[i as int]@, (#[trigger] vid_columns@[k])@) == Some(Value::Int(vid)));
                assert forall|x: i64| s_new.contains(x) <==> s_old.contains(x) || param_lookup(rows@[i as int]@, vid_columns@[c as int]@) == Some(Value::Int(x)) by {
                    if s_new.contains(x) {
                        let k = choose|k: int| 0 <= k < c + 1 && param_lookup(rows@[i as int]@, (#[trigger] vid_columns@[k])@) == Some(Value::Int(x));
                        if k < c {
                            assert(s_old.contains(x));
                        }
                    }
                }
                let lk = param_lookup(rows@[i as int]@, vid_columns@[c as int]@);
                assert forall|x: i64| out@.to_set().contains(x) <==> (before.to_set().contains(x) || lk == Some(Value::Int(x))) by {
                    match lk {
                        Some(Value::Int(v)) => {
                            assert(out@.to_set() == before.to_set().insert(v));
                        },
                        _ => {
                            assert(out@.to_set() == before.to_set());
                        },
                    }
                }
                assert(out@.to_set() =~= vids_in(rows@.take(i as int), vid_columns@).union(s_new));
            }
            c = c + 1;
        }
        proof {
            let s_all = Set::new(|vid: i64| exists|k: int| 0 <= k < vid_columns@.len() && param_lookup(rows@[i as int]@, (#[trigger] vid_columns@[k])@) == Some(Value::Int(vid)));
            assert forall|x: i64| vids_in(rows@.take(i + 1), vid_columns@).contains(x) <==> (vids_in(rows@.take(i as int), vid_columns@).union(s_all)).contains(x) by {
                if vids_in(rows@.take(i + 1), vid_columns@).contains(x) {
                    let r = choose|r: int| 0 <= r < i + 1 && holds_vid((#[trigger] rows@.take(i + 1)[r])@, vid_columns@, x);
                    if r < i {
                        assert(rows@.take(i as int)[r] == rows@.take(i + 1)[r]);
                    } else {
                        let cc = choose|cc: int| 0 <= cc < vid_columns@.len() && param_lookup(rows@[i as int]@, (#[trigger] vid_columns@[cc])@) == Some(Value::Int(x));
                        assert(s_all.contains(x));
                    }
                }
                if vids_in(rows@.take(i as int), vid_columns@).contains(x) {
                    let r = choose|r: int| 0 <= r < i && holds_vid((#[trigger] rows@.take(i as int)[r])@, vid_columns@, x);
                    assert(rows@.take(i + 1)[r] == rows@.take(i as int)[r]);
                }
                if s_all.contains(x) {
                    assert(rows@.take(i + 1)[i as int] == rows@[i as int]);
                    let cc = choose|cc: int| 0 <= cc < vid_columns@.len() && param_lookup(rows@[i as int]@, (#[trigger] vid_columns@[cc])@) == Some(Value::Int(x));
                    assert(holds_vid(rows@.take(i + 1)[i as int]@, vid_columns@, x));
                }
            }
            assert(vids_in(rows@.take(i + 1), vid_columns@) =~= vids_in(rows@.take(i as int), vid_columns@).union(s_all));
        }
        i = i + 1;
    }
    proof {
        assert(rows@.take(rows@.len() as int) =~= rows@);
    }
    out
}

/// The node `vid` resolves to, if any (the first binding).
pub open spec fn node_for(nodes: Seq<(i64, Value)>, vid: i64) -> Option<Value>
    decreases nodes.len(),
{
    if nodes.len() == 0 {
        None
    } else if nodes[0].0 == vid {
        Some(nodes[0].1)
    } else {
        node_for(nodes.drop_first(), vid)
    }
}

fn find_node(nodes: &Vec<(i64, Value)>, vid: i64) -> (r: Option<usize>)
    ensures
        match r {
            Some(j) => j < nodes@.len() && node_for(nodes@, vid) == Some(nodes@[j as int].1),
            None => node_for(nodes@, vid) is None,
        },
{
    let mut i: usize = 0;
    proof {
        assert(nodes@.skip(0) =~= nodes@);
    }
    while i < nodes.len()
        invariant
            i <= nodes@.len(),
            node_for(nodes@, vid) == node_for(nodes@.skip(i as int), vid),
        decreases nodes.len() - i,
    {
        proof {
            assert(nodes@.skip(i as int).drop_first() =~= nodes@.skip(i + 1));
            assert(nodes@.skip(i as int)[0] == nodes@[i as int]);
        }
        if nodes[i].0 == vid {
            return Some(i);
        }
        i = i + 1;
    }
    None
}

/// What a cell becomes: an id in an id column that resolves to a node is
/// replaced by (a copy of) that node; every other cell is kept.
pub open spec fn substituted(key: Seq<char>, v: Value, columns: Seq<String>, nodes: Seq<(i64, Value)>) -> Option<Value> {
    if texts(columns).contains(key) && v is Int && node_for(nodes, v->Int_0) is Some {
        node_for(nodes, v->Int_0)
    } else {
        None
    }
}

/// Replaces every id under `vid_columns` that resolves in `vid_to_node` by
/// its node, keeping all other cells (unresolved ids included).
pub fn substitute_nodes(
    rows: Vec<Vec<(String, Value)>>,
    vid_columns: &Vec<String>,
    vid_to_node: &Vec<(i64, Value)>,
) -> (r: Vec<Vec<(String, Value)>>)
    ensures
        r@.len() == rows@.len(),
        forall|i: int| 0 <= i < rows@.len() ==> (#[trigger] r@[i])@.len() == rows@[i]@.len(),
        forall|i: int, j: int|
            0 <= i < rows@.len() && 0 <= j < rows@[i]@.len() ==> {
                let (k, v) = rows@[i]@[j];
                &&& (#[trigger] r@[i]@[j]).0 == k
                &&& match substituted(k@, v, vid_columns@, vid_to_node@) {
                    Some(n) => value_bytes(r@[i]@[j].1) == value_bytes(n),
                    None => r@[i]@[j].1 == v,
                }
            },
{
    let ghost input = rows@;
    let mut out: Vec<Vec<(String, Value)>> = Vec::new();
    for row in it: rows
        invariant
            it.seq() == input,
            out@.len() == it.index(),
            forall|i: int| 0 <= i < out@.len() ==> (#[trigger] out@[i])@.len() == input[i]@.len(),
            forall|i: int, j: int|
                0 <= i < out@.len() && 0 <= j < input[i]@.len() ==> {
                    let (k, v) = input[i]@[j];
                    &&& (#[trigger] out@[i]@[j]).0 == k
                    &&& match substituted(k@, v, vid_columns@, vid_to_node@) {
                        Some(n) => value_bytes(out@[i]@[j].1) == value_bytes(n),
                        None => out@[i]@[j].1 == v,
                    }
                },
    {
        let ghost cells = row@;
        let mut new_row: Vec<(String, Value)> = Vec::new();
        for cell in jt: row
            invariant
                jt.seq() == cells,
                new_row@.len() == jt.index(),
                forall|j: int| 0 <= j < new_row@.len() ==> {
                    let (k, v) = cells[j];
                    &&& (#[trigger] new_row@[j]).0 == k
                    &&& match substituted(k@, v, vid_columns@, vid_to_node@) {
                        Some(n) => value_bytes(new_row@[j].1) == value_bytes(n),
                        None => new_row@[j].1 == v,
                    }
                },
        {
            let (k, v) = cell;
            let ghost kv = (k, v);
            let in_columns = crate::text::text_in(vid_columns, &k);
            let resolved: Option<usize> = match &v {
                Value::Int(vid) => if in_columns {
                    find_node(vid_to_node, *vid)
                } else {
                    None
                },
                _ => None,
            };
            match resolved {
                Some(n) => {
                    let node = copy_value(&vid_to_node[n].1);
                    new_row.push((k, node));
                },
                None => {
                    new_row.push((k, v));
                },
            }
        }
        out.push(new_row);
    }
    out
}

// ---------------------------------------------------------------------------
// Result statistics
// ---------------------------------------------------------------------------

/// The sum of the counts.
pub open spec fn total(counts: Seq<usize>) -> int
    decreases counts.len(),
{
    if counts.len() == 0 { 0 } else { total(counts.drop_last()) + counts.last() }
}

/// The statistics of an evaluation: the number of derived facts (over all
/// rules), and the strata evaluated: all of them, or as many as completed
/// when evaluation was cut short.
pub fn evaluation_totals(fact_counts: &Vec<usize>, strata: usize, completed_strata: Option<usize>) -> (r: (usize, usize))
    requires
        total(fact_counts@) <= usize::MAX,
    ensures
        r.0 == total(fact_counts@),
        r.1 == match completed_strata {
            Some(c) => c,
            None => strata,
        },
{
    let mut sum: usize = 0;
    let mut i: usize = 0;
    while i < fact_counts.len()
        invariant
            i <= fact_counts@.len(),
            sum == total(fact_counts@.take(i as int)),
            total(fact_counts@) <= usize::MAX,
        decreases fact_counts.len() - i,
    {
        proof {
            assert(fact_counts@.take(i + 1).drop_last() =~= fact_counts@.take(i as int));
            lemma_total_prefix(fact_counts@, i + 1);
        }
        sum = sum + fact_counts[i];
        i = i + 1;
    }
    proof {
        assert(fact_counts@.take(fact_counts@.len() as int) =~= fact_counts@);
    }
    let evaluated = match completed_strata {
        Some(c) => c,
        None => strata,
    };
    (sum, evaluated)
}

proof fn lemma_total_prefix(counts: Seq<usize>, i: int)
    requires
        0 <= i <= counts.len(),
    ensures
        total(counts.take(i)) <= total(counts),
    decreases counts.len(),
{
    if i < counts.len() {
        assert(counts.drop_last().take(i) =~= counts.take(i));
        lemma_total_prefix(counts.drop_last(), i);
    } else {
        assert(counts.take(i) =~= counts);
    }
}


// ---------------------------------------------------------------------------
// Strata
// ---------------------------------------------------------------------------

/// A stratum of a compiled rule program: its id, the strata it depends on
/// and the rules it evaluates.
pub struct Stratum {
    pub id: usize,
    pub depends_on: Vec<usize>,
    pub rules: Vec<String>,
}

/// Every stratum's id and dependencies moved up by `base`.
pub open spec fn rebased(s: Stratum, base: usize) -> (usize, Seq<usize>) {
    ((s.id + base) as usize, s.depends_on@.map_values(|d: usize| (d + base) as usize))
}

/// Ids and dependencies fit after moving up by `base`.
pub open spec fn rebase_fits(strata: Seq<Stratum>, base: usize) -> bool {
    forall|i: int| 0 <= i < strata.len() ==> {
        &&& (#[trigger] strata[i]).id + base <= usize::MAX
        &&& forall|j: int| 0 <= j < strata[i].depends_on@.len() ==> strata[i].depends_on@[j] + base <= usize::MAX
    }
}

/// Moves every stratum's id and dependencies up by `base`, so the strata
/// run after `base` strata placed before them.
pub fn rebase_strata(strata: Vec<Stratum>, base: usize) -> (r: Vec<Stratum>)
    requires
        rebase_fits(strata@, base),
    ensures
        r@.len() == strata@.len(),
        forall|i: int| 0 <= i < strata@.len() ==> ((#[trigger] r@[i]).id, r@[i].depends_on@) == rebased(strata@[i], base)
            && r@[i].rules == strata@[i].rules,
{
    let ghost input = strata@;
    let mut out: Vec<Stratum> = Vec::new();
    for st in it: strata
        invariant
            it.seq() == input,
            rebase_fits(input, base),
            out@.len() == it.index(),
            forall|i: int| 0 <= i < out@.len() ==> ((#[trigger] out@[i]).id, out@[i].depends_on@) == rebased(input[i], base)
                && out@[i].rules == input[i].rules,
    {
        let ghost idx = it.index();
        let Stratum { id, depends_on, rules } = st;
        let mut deps: Vec<usize> = Vec::new();
        let mut j: usize = 0;
        while j < depends_on.len()
            invariant
                j <= depends_on@.len(),
                0 <= idx < input.len(),
                depends_on == input[idx].depends_on,
                rebase_fits(input, base),
                deps@ == depends_on@.take(j as int).map_values(|d: usize| (d + base) as usize),
            decreases depends_on.len() - j,
        {
            proof {
                assert(depends_on@[j as int] + base <= usize::MAX);
            }
            deps.push(depends_on[j] + base);
            j = j + 1;
            proof {
                assert(deps@ =~= depends_on@.take(j as int).map_values(|d: usize| (d + base) as usize));
            }
        }
        proof {
            assert(depends_on@.take(depends_on@.len() as int) =~= depends_on@);
        }
        out.push(Stratum { id: id + base, depends_on: deps, rules });
    }
    out
}

/// The renumbering of the kept pool strata after `n` of them: each kept
/// stratum's pool id maps to its position (a later stratum with the same
/// id overrides an earlier one).
pub open spec fn remap_upto(pool: Seq<Stratum>, keep: Seq<usize>, n: int) -> Map<usize, usize>
    decreases n,
{
    if n <= 0 {
        Map::empty()
    } else {
        remap_upto(pool, keep, n - 1).insert(pool[keep[n - 1] as int].id, (n - 1) as usize)
    }
}

/// The dependencies that map under `m`, mapped; the others are dropped.
pub open spec fn remap_deps(deps: Seq<usize>, m: Map<usize, usize>) -> Seq<usize>
    decreases deps.len(),
{
    if deps.len() == 0 {
        Seq::empty()
    } else if m.contains_key(deps.last()) {
        remap_deps(deps.drop_last(), m).push(m[deps.last()])
    } else {
        remap_deps(deps.drop_last(), m)
    }
}

/// The latest pair for `id`, which the map built by inserting the pairs in
/// order holds.
pub open spec fn pairs_map(v: Seq<(usize, usize)>) -> Map<usize, usize>
    decreases v.len(),
{
    if v.len() == 0 {
        Map::empty()
    } else {
        pairs_map(v.drop_last()).insert(v.last().0, v.last().1)
    }
}

fn latest_for(v: &Vec<(usize, usize)>, id: usize) -> (r: Option<usize>)
    ensures
        match r {
            Some(x) => pairs_map(v@).contains_key(id) && pairs_map(v@)[id] == x,
            None => !pairs_map(v@).contains_key(id),
        },
{
    let mut n: usize = v.len();
    proof {
        assert(v@.take(n as int) =~= v@);
    }
    while n > 0
        invariant
            n <= v@.len(),
            forall|k: int| n <= k < v@.len() ==> v@[k].0 != id,
            pairs_map(v@).contains_key(id) == pairs_map(v@.take(n as int)).contains_key(id),
            pairs_map(v@).contains_key(id) ==> pairs_map(v@)[id] == pairs_map(v@.take(n as int))[id],
        decreases n,
    {
        proof {
            assert(v@.take(n as int).drop_last() =~= v@.take(n - 1));
            assert(v@.take(n as int).last() == v@[n - 1]);
        }
        if v[n - 1].0 == id {
            return Some(v[n - 1].1);
        }
        n = n - 1;
    }
    None
}

/// The kept pool strata, renumbered densely, followed by the program's own
/// strata moved up past them: the registered strata a program reaches run
/// first and stratum ids stay dense.
///
/// Kept stratum `i` becomes stratum `i`; of its dependencies, those on
/// strata renumbered so far (itself included) are renumbered and the others
/// dropped.
pub fn merge_strata(pool: &Vec<Stratum>, keep: &Vec<usize>, program: Vec<Stratum>) -> (r: Vec<Stratum>)
    requires
        forall|i: int| 0 <= i < keep@.len() ==> (#[trigger] keep@[i]) < pool@.len(),
        rebase_fits(program@, keep@.len() as usize),
    ensures
        r@.len() == keep@.len() + program@.len(),
        forall|i: int| 0 <= i < keep@.len() ==> {
            &&& (#[trigger] r@[i]).id == i
            &&& r@[i].depends_on@ == remap_deps(pool@[keep@[i] as int].depends_on@, remap_upto(pool@, keep@, i + 1))
            &&& r@[i].rules@ == pool@[keep@[i] as int].rules@
        },
        forall|j: int| 0 <= j < program@.len() ==> {
            &&& ((#[trigger] r@[keep@.len() + j]).id, r@[keep@.len() + j].depends_on@) == rebased(program@[j], keep@.len() as usize)
            &&& r@[keep@.len() + j].rules == program@[j].rules
        },
{
    let mut remap: Vec<(usize, usize)> = Vec::new();
    let mut merged: Vec<Stratum> = Vec::new();
    let mut n: usize = 0;
    while n < keep.len()
        invariant
            n <= keep@.len(),
            forall|i: int| 0 <= i < keep@.len() ==> (#[trigger] keep@[i]) < pool@.len(),
            pairs_map(remap@) == remap_upto(pool@, keep@, n as int),
            merged@.len() == n,
            forall|i: int| 0 <= i < n ==> {
                &&& (#[trigger] merged@[i]).id == i
                &&& merged@[i].depends_on@ == remap_deps(pool@[keep@[i] as int].depends_on@, remap_upto(pool@, keep@, i + 1))
                &&& merged@[i].rules@ == pool@[keep@[i] as int].rules@
            },
        decreases keep.len() - n,
    {
        let src = &pool[keep[n]];
        let ghost before = remap@;
        remap.push((src.id, n));
        proof {
            assert(remap@.drop_last() =~= before);
        }
        let ghost m = remap_upto(pool@, keep@, n + 1);
        let mut deps: Vec<usize> = Vec::new();
        let mut j: usize = 0;
        while j < src.depends_on.len()
            invariant
                j <= src.depends_on@.len(),
                pairs_map(remap@) == m,
                deps@ == remap_deps(src.depends_on@.take(j as int), m),
            decreases src.depends_on.len() - j,
        {
            let d = src.depends_on[j];
            proof {
                assert(src.depends_on@.take(j + 1).drop_last() =~= src.depends_on@.take(j as int));
                assert(src.depends_on@.take(j + 1).last() == d);
            }
            match latest_for(&remap, d) {
                Some(x) => {
                    deps.push(x);
                },
                None => {},
            }
            j = j + 1;
        }
        proof {
            assert(src.depends_on@.take(src.depends_on@.len() as int) =~= src.depends_on@);
        }
        merged.push(Stratum { id: n, depends_on: deps, rules: copy_strings(&src.rules) });
        n = n + 1;
    }
    let base = merged.len();
    let moved = rebase_strata(program, base);
    let ghost kept = merged@;
    let mut moved = moved;
    merged.append(&mut moved);
    proof {
        assert forall|i: int| 0 <= i < keep@.len() implies #[trigger] merged@[i] == kept[i] by {}
    }
    merged
}

/// When a program's own strata are numbered densely from 0, the merged
/// strata are numbered densely from 0 as well.
pub proof fn law_merged_strata_dense(keep_len: nat, program_ids: Seq<usize>, merged_ids: Seq<usize>)
    requires
        merged_ids.len() == keep_len + program_ids.len(),
        forall|i: int| 0 <= i < program_ids.len() ==> program_ids[i] == i,
        forall|i: int| 0 <= i < keep_len ==> merged_ids[i] == i,
        forall|j: int| 0 <= j < program_ids.len() ==> merged_ids[keep_len + j] == program_ids[j] + keep_len,
    ensures
        forall|i: int| 0 <= i < merged_ids.len() ==> merged_ids[i] == i,
{
    assert forall|i: int| 0 <= i < merged_ids.len() implies merged_ids[i] == i by {
        if i >= keep_len {
            assert(merged_ids[keep_len + (i - keep_len)] == program_ids[i - keep_len] + keep_len);
        }
    }
}


// ---------------------------------------------------------------------------
// Registered rule sources
// ---------------------------------------------------------------------------

/// A registered rule program and the rules it defines.
pub struct RegisteredSource {
    pub source: String,
    pub rule_names: Vec<String>,
}

/// A registered source as texts.
pub open spec fn source_view(s: RegisteredSource) -> (Seq<char>, Seq<Seq<char>>) {
    (s.source@, texts(s.rule_names@))
}

/// None of `names` is among `new_names`.
pub open spec fn disjoint_names(names: Seq<Seq<char>>, new_names: Seq<Seq<char>>) -> bool {
    forall|k: int| 0 <= k < names.len() ==> !new_names.contains(#[trigger] names[k])
}

/// All of `names` are among `new_names`.
pub open spec fn covered_names(names: Seq<Seq<char>>, new_names: Seq<Seq<char>>) -> bool {
    forall|k: int| 0 <= k < names.len() ==> new_names.contains(#[trigger] names[k])
}

/// The sources (as texts) that define none of `new_names`, in order.
pub open spec fn untouched(v: Seq<(Seq<char>, Seq<Seq<char>>)>, new_names: Seq<Seq<char>>) -> Seq<(Seq<char>, Seq<Seq<char>>)>
    decreases v.len(),
{
    if v.len() == 0 {
        Seq::empty()
    } else if disjoint_names(v.last().1, new_names) {
        untouched(v.drop_last(), new_names).push(v.last())
    } else {
        untouched(v.drop_last(), new_names)
    }
}

/// The first source that defines some but not all of `new_names`.
pub open spec fn first_partial(v: Seq<(Seq<char>, Seq<Seq<char>>)>, new_names: Seq<Seq<char>>, i: int) -> Option<int>
    decreases v.len() - i,
{
    if i < 0 || i >= v.len() {
        None
    } else if !disjoint_names(v[i].1, new_names) && !covered_names(v[i].1, new_names) {
        Some(i)
    } else {
        first_partial(v, new_names, i + 1)
    }
}

/// The names of `names` that are not among `new_names`, in order.
pub open spec fn orphans(names: Seq<Seq<char>>, new_names: Seq<Seq<char>>) -> Seq<Seq<char>>
    decreases names.len(),
{
    if names.len() == 0 {
        Seq::empty()
    } else if new_names.contains(names.last()) {
        orphans(names.drop_last(), new_names)
    } else {
        orphans(names.drop_last(), new_names).push(names.last())
    }
}

/// The message refusing a partial redefinition.
pub open spec fn partial_redefinition_message(new_names: Seq<Seq<char>>, orphaned: Seq<Seq<char>>) -> Seq<char> {
    "cannot redefine rule(s) "@ + list_debug(new_names) + ": their existing source program also defines "@
        + list_debug(orphaned) + ". Clear the registry and re-register single-rule programs."@
}

fn names_disjoint(names: &Vec<String>, new_names: &Vec<String>) -> (r: bool)
    ensures
        r == disjoint_names(texts(names@), texts(new_names@)),
{
    let mut k: usize = 0;
    while k < names.len()
        invariant
            k <= names@.len(),
            forall|q: int| 0 <= q < k ==> !texts(new_names@).contains(#[trigger] texts(names@)[q]),
        decreases names.len() - k,
    {
        if crate::text::text_in(new_names, &names[k]) {
            proof {
                assert(texts(names@)[k as int] == names@[k as int]@);
            }
            return false;
        }
        k = k + 1;
    }
    true
}

fn names_covered(names: &Vec<String>, new_names: &Vec<String>) -> (r: bool)
    ensures
        r == covered_names(texts(names@), texts(new_names@)),
{
    let mut k: usize = 0;
    while k < names.len()
        invariant
            k <= names@.len(),
            forall|q: int| 0 <= q < k ==> texts(new_names@).contains(#[trigger] texts(names@)[q]),
        decreases names.len() - k,
    {
        if !crate::text::text_in(new_names, &names[k]) {
            assert(!texts(new_names@).contains(texts(names@)[k as int]));
            return false;
        }
        k = k + 1;
    }
    true
}

fn orphan_names(names: &Vec<String>, new_names: &Vec<String>) -> (r: Vec<String>)
    ensures
        texts(r@) == orphans(texts(names@), texts(new_names@)),
{
    let mut out: Vec<String> = Vec::new();
    let mut k: usize = 0;
    while k < names.len()
        invariant
            k <= names@.len(),
            texts(out@) == orphans(texts(names@).take(k as int), texts(new_names@)),
        decreases names.len() - k,
    {
        proof {
            assert(texts(names@).take(k + 1).drop_last() =~= texts(names@).take(k as int));
            assert(texts(names@).take(k + 1).last() == names@[k as int]@);
        }
        if !crate::text::text_in(new_names, &names[k]) {
            let ghost before = out@;
            out.push(names[k].clone());
            proof {
                assert(texts(out@) =~= texts(before).push(names@[k as int]@));
            }
        }
        k = k + 1;
    }
    proof {
        assert(texts(names@).take(names@.len() as int) =~= texts(names@));
    }
    out
}

/// Whether `program` (the same text) is already registered. Registering it
/// again changes nothing, which is known before the program is compiled.
pub fn already_registered(existing: &Vec<RegisteredSource>, program: &str) -> (r: bool)
    ensures
        r == exists|i: int| 0 <= i < existing@.len() && (#[trigger] existing@[i]).source@ == program@,
{
    let mut i: usize = 0;
    while i < existing.len()
        invariant
            i <= existing@.len(),
            forall|q: int| 0 <= q < i ==> (#[trigger] existing@[q]).source@ != program@,
        decreases existing.len() - i,
    {
        if existing[i].source.as_str().as_bytes().len() == program.as_bytes().len() && same_text(&existing[i].source, program) {
            return true;
        }
        i = i + 1;
    }
    false
}

/// The registry's sources after registering `program`, which defines
/// `new_names`.
///
/// Registering a program already registered (same text) changes nothing
/// (`Ok(None)`). Otherwise the last registration of a name wins: sources
/// defining none of the new names are kept, sources all of whose names are
/// redefined are dropped, and the program is appended. A source defining
/// some but not all of the new names would lose the others, so that is
/// refused.
pub fn supersede_sources(existing: &Vec<RegisteredSource>, program: &str, new_names: &Vec<String>) -> (r: Result<
    Option<Vec<RegisteredSource>>,
    UniError,
>)
    ensures
        ({
            let v = existing@.map_values(|s: RegisteredSource| source_view(s));
            let nn = texts(new_names@);
            if exists|i: int| 0 <= i < existing@.len() && (#[trigger] existing@[i]).source@ == program@ {
                r == Ok::<Option<Vec<RegisteredSource>>, UniError>(None)
            } else {
                match first_partial(v, nn, 0) {
                    Some(i) => r matches Err(UniError::Query { message, query }) && query is None
                        && message@ == partial_redefinition_message(nn, orphans(v[i].1, nn)),
                    None => r matches Ok(Some(kept)) && kept@.map_values(|s: RegisteredSource| source_view(s))
                        == untouched(v, nn).push((program@, nn)),
                }
            }
        }),
{
    let ghost v = existing@.map_values(|s: RegisteredSource| source_view(s));
    let ghost nn = texts(new_names@);
    if already_registered(existing, program) {
        return Ok(None);
    }
    let mut kept: Vec<RegisteredSource> = Vec::new();
    let mut i: usize = 0;
    while i < existing.len()
        invariant
            i <= existing@.len(),
            v == existing@.map_values(|s: RegisteredSource| source_view(s)),
            nn == texts(new_names@),
            forall|q: int| 0 <= q < existing@.len() ==> (#[trigger] existing@[q]).source@ != program@,
            first_partial(v, nn, 0) == first_partial(v, nn, i as int),
            kept@.map_values(|s: RegisteredSource| source_view(s)) == untouched(v.take(i as int), nn),
        decreases existing.len() - i,
    {
        let src = &existing[i];
        proof {
            assert(v.take(i + 1).drop_last() =~= v.take(i as int));
            assert(v.take(i + 1).last() == source_view(existing@[i as int]));
            assert(v[i as int] == source_view(existing@[i as int]));
        }
        if names_disjoint(&src.rule_names, new_names) {
            let ghost before = kept@;
            kept.push(RegisteredSource { source: src.source.clone(), rule_names: copy_strings(&src.rule_names) });
            proof {
                assert(kept@.map_values(|s: RegisteredSource| source_view(s)) =~= before.map_values(|s: RegisteredSource| source_view(s)).push(source_view(existing@[i as int])));
            }
        } else if !names_covered(&src.rule_names, new_names) {
            let orphaned = orphan_names(&src.rule_names, new_names);
            let mut m = chars_of("cannot redefine rule(s) ");
            push_list_debug(&mut m, new_names);
            push_str(&mut m, ": their existing source program also defines ");
            push_list_debug(&mut m, &orphaned);
            push_str(&mut m, ". Clear the registry and re-register single-rule programs.");
            return Err(UniError::Query { message: string_from(&m), query: None });
        }
        i = i + 1;
    }
    proof {
        assert(v.take(existing@.len() as int) =~= v);
    }
    let ghost before = kept@;
    kept.push(RegisteredSource { source: owned(program), rule_names: copy_strings(new_names) });
    proof {
        assert(kept@.map_values(|s: RegisteredSource| source_view(s)) =~= before.map_values(|s: RegisteredSource| source_view(s)).push((program@, nn)));
    }
    Ok(Some(kept))
}

fn same_text(a: &String, b: &str) -> (r: bool)
    ensures
        r == (a@ == b@),
{
    *a == owned(b)
}

/// Registers `program`, defining the rules `new_names`, in the sources of
/// a rule registry.
///
/// Registration is idempotent: a program already registered (same text)
/// changes nothing and answers `false`. A program that would orphan rules of
/// an existing source is refused and changes nothing. Otherwise the sources
/// all of whose rules are redefined are dropped, the program is appended and
/// the answer is `true` (the registry is then rebuilt from these sources).
pub fn register_source(sources: &mut Vec<RegisteredSource>, program: &str, new_names: &Vec<String>) -> (r: Result<
    bool,
    UniError,
>)
    ensures
        ({
            let v = old(sources)@.map_values(|s: RegisteredSource| source_view(s));
            let nn = texts(new_names@);
            if exists|i: int| 0 <= i < old(sources)@.len() && (#[trigger] old(sources)@[i]).source@ == program@ {
                r == Ok::<bool, UniError>(false) && final(sources)@ == old(sources)@
            } else {
                match first_partial(v, nn, 0) {
                    Some(i) => (r matches Err(UniError::Query { message, query }) && query is None
                        && message@ == partial_redefinition_message(nn, orphans(v[i].1, nn)))
                        && final(sources)@ == old(sources)@,
                    None => r == Ok::<bool, UniError>(true) && final(sources)@.map_values(
                        |s: RegisteredSource| source_view(s),
                    ) == untouched(v, nn).push((program@, nn)),
                }
            }
        }),
{
    match supersede_sources(sources, program, new_names) {
        Err(e) => Err(e),
        Ok(None) => Ok(false),
        Ok(Some(kept)) => {
            *sources = kept;
            Ok(true)
        },
    }
}

/// Once a program is registered its text is among the sources, so
/// registering it again changes nothing (see [`register_source`]).
pub proof fn law_registered_program_is_found(v: Seq<(Seq<char>, Seq<Seq<char>>)>, program: Seq<char>, new_names: Seq<Seq<char>>)
    ensures
        has_source(untouched(v, new_names).push((program, new_names)), program),
{
    let w = untouched(v, new_names).push((program, new_names));
    assert(w[w.len() - 1].0 == program);
}

/// No source kept after registering a program defines any of its names: a
/// rule name is owned by exactly one source.
pub proof fn law_kept_sources_do_not_redefine(v: Seq<(Seq<char>, Seq<Seq<char>>)>, new_names: Seq<Seq<char>>)
    ensures
        forall|i: int| 0 <= i < untouched(v, new_names).len() ==> disjoint_names(
            (#[trigger] untouched(v, new_names)[i]).1,
            new_names,
        ),
    decreases v.len(),
{
    if v.len() > 0 {
        law_kept_sources_do_not_redefine(v.drop_last(), new_names);
        let u = untouched(v.drop_last(), new_names);
        if disjoint_names(v.last().1, new_names) {
            assert forall|i: int| 0 <= i < u.push(v.last()).len() implies disjoint_names(
                (#[trigger] u.push(v.last())[i]).1,
                new_names,
            ) by {
                if i < u.len() {
                    assert(u.push(v.last())[i] == u[i]);
                }
            }
        }
    }
}

// ---------------------------------------------------------------------------
// Invoking a registered rule by its bare name
// ---------------------------------------------------------------------------

/// An ASCII letter or `_`.
pub open spec fn ident_start(c: char) -> bool {
    ('a' <= c && c <= 'z') || ('A' <= c && c <= 'Z') || c == '_'
}

/// An ASCII letter, digit or `_`.
pub open spec fn ident_char(c: char) -> bool {
    ident_start(c) || ('0' <= c && c <= '9')
}

/// `s` is a lone identifier.
pub open spec fn bare_identifier(s: Seq<char>) -> bool {
    s.len() > 0 && ident_start(s[0]) && forall|i: int| 0 <= i < s.len() ==> ident_char(#[trigger] s[i])
}

/// The first registered name equal to `t` ignoring ASCII case.
pub open spec fn first_case_match(names: Seq<Seq<char>>, t: Seq<char>, i: int) -> Option<Seq<char>>
    decreases names.len() - i,
{
    if i < 0 || i >= names.len() {
        None
    } else if ascii_lower(names[i]) == ascii_lower(t) {
        Some(names[i])
    } else {
        first_case_match(names, t, i + 1)
    }
}

/// The hint for a program that is a bare registered rule name: how to
/// invoke it with a goal query (or, for a name matching ignoring case, which
/// rule was probably meant). Other programs get no hint.
pub open spec fn bare_rule_hint_text(program: Seq<char>, names: Seq<Seq<char>>) -> Option<Seq<char>> {
    let t = trim_ws(program);
    if !bare_identifier(t) {
        None
    } else if names.contains(t) {
        Some("Hint: '"@ + t + "' is a registered Locy rule \u{2014} invoke it with a goal query, e.g. `QUERY "@ + t
            + " [WHERE \u{2026}] [RETURN \u{2026}]`"@)
    } else {
        match first_case_match(names, t, 0) {
            Some(a) => Some("Hint: did you mean the registered Locy rule '"@ + a
                + "'? Invoke it with a goal query, e.g. `QUERY "@ + a + " [WHERE \u{2026}] [RETURN \u{2026}]`"@),
            None => None,
        }
    }
}

fn is_bare_identifier(t: &Vec<char>) -> (r: bool)
    ensures
        r == bare_identifier(t@),
{
    if t.len() == 0 {
        return false;
    }
    let c0 = t[0];
    if !(('a' <= c0 && c0 <= 'z') || ('A' <= c0 && c0 <= 'Z') || c0 == '_') {
        return false;
    }
    let mut i: usize = 0;
    while i < t.len()
        invariant
            i <= t@.len(),
            forall|k: int| 0 <= k < i ==> ident_char(#[trigger] t@[k]),
        decreases t.len() - i,
    {
        let c = t[i];
        if !(('a' <= c && c <= 'z') || ('A' <= c && c <= 'Z') || c == '_' || ('0' <= c && c <= '9')) {
            return false;
        }
        i = i + 1;
    }
    true
}

fn chars_equal(a: &Vec<char>, b: &Vec<char>) -> (r: bool)
    ensures
        r == (a@ == b@),
{
    if a.len() != b.len() {
        return false;
    }
    let mut i: usize = 0;
    while i < a.len()
        invariant
            i <= a@.len(),
            a@.len() == b@.len(),
            forall|k: int| 0 <= k < i ==> a@[k] == b@[k],
        decreases a.len() - i,
    {
        if a[i] != b[i] {
            return false;
        }
        i = i + 1;
    }
    proof {
        assert(a@ =~= b@);
    }
    true
}

/// The hint for `program` given the registered rule names (see
/// [`bare_rule_hint_text`]).
pub fn bare_rule_hint(program: &str, rule_names: &Vec<String>) -> (r: Option<String>)
    ensures
        opt_view(r) == bare_rule_hint_text(program@, texts(rule_names@)),
{
    let t = trim_chars(program);
    if !is_bare_identifier(&t) {
        return None;
    }
    let ts = string_from(&t);
    if crate::text::text_in(rule_names, &ts) {
        let mut m = chars_of("Hint: '");
        push_str(&mut m, ts.as_str());
        push_str(&mut m, "' is a registered Locy rule \u{2014} invoke it with a goal query, e.g. `QUERY ");
        push_str(&mut m, ts.as_str());
        push_str(&mut m, " [WHERE \u{2026}] [RETURN \u{2026}]`");
        return Some(string_from(&m));
    }
    let lower = ascii_lowercase(&t);
    let mut i: usize = 0;
    while i < rule_names.len()
        invariant
            i <= rule_names@.len(),
            lower@ == ascii_lower(t@),
            t@ == trim_ws(program@),
            bare_identifier(t@),
            !texts(rule_names@).contains(t@),
            first_case_match(texts(rule_names@), t@, 0) == first_case_match(texts(rule_names@), t@, i as int),
        decreases rule_names.len() - i,
    {
        let name = chars_of(rule_names[i].as_str());
        let nl = ascii_lowercase(&name);
        if chars_equal(&nl, &lower) {
            proof {
                assert(texts(rule_names@)[i as int] == rule_names@[i as int]@);
            }
            let mut m = chars_of("Hint: did you mean the registered Locy rule '");
            push_str(&mut m, rule_names[i].as_str());
            push_str(&mut m, "'? Invoke it with a goal query, e.g. `QUERY ");
            push_str(&mut m, rule_names[i].as_str());
            push_str(&mut m, " [WHERE \u{2026}] [RETURN \u{2026}]`");
            return Some(string_from(&m));
        }
        i = i + 1;
    }
    None
}

/// The text of an optional string.
pub open spec fn opt_view(o: Option<String>) -> Option<Seq<char>> {
    match o {
        Some(s) => Some(s@),
        None => None,
    }
}


/// The message when a persisted rule source no longer compiles and invalid
/// rules are not skipped.
pub open spec fn persisted_rule_message(detail: Seq<char>) -> Seq<char> {
    "a persisted Locy rule in catalog/locy_rules.json no longer compiles: "@ + detail
        + ". Re-register the rule, or open with skip_invalid_locy_rules(true) to skip it."@
}

/// The error when a persisted rule source no longer compiles.
pub fn persisted_rule_error(detail: &str) -> (r: UniError)
    ensures
        r matches UniError::Internal { message } && message@ == persisted_rule_message(detail@),
{
    let mut v = chars_of("a persisted Locy rule in catalog/locy_rules.json no longer compiles: ");
    push_str(&mut v, detail);
    push_str(&mut v, ". Re-register the rule, or open with skip_invalid_locy_rules(true) to skip it.");
    UniError::Internal { message: string_from(&v) }
}

// ---------------------------------------------------------------------------
// Approximate facts
// ---------------------------------------------------------------------------

/// Some entry of `groups` lists a fallback group for rule `rule`.
pub open spec fn has_approximate_groups(groups: Seq<(String, Vec<String>)>, rule: Seq<char>) -> bool {
    exists|g: int| 0 <= g < groups.len() && (#[trigger] groups[g]).0@ == rule && groups[g].1@.len() > 0
}

/// A derived fact's fields after stamping: rules that fell back to an
/// approximation mark each fact `_approximate = true`.
pub open spec fn stamped(row: Seq<(String, Value)>, approximate: bool) -> Map<Seq<char>, Value> {
    if approximate {
        crate::params::entry_map(row).insert("_approximate"@, Value::Bool(true))
    } else {
        crate::params::entry_map(row)
    }
}

fn rule_is_approximate(groups: &Vec<(String, Vec<String>)>, rule: &String) -> (r: bool)
    ensures
        r == has_approximate_groups(groups@, rule@),
{
    let mut g: usize = 0;
    while g < groups.len()
        invariant
            g <= groups@.len(),
            forall|q: int| 0 <= q < g ==> !((#[trigger] groups@[q]).0@ == rule@ && groups@[q].1@.len() > 0),
        decreases groups.len() - g,
    {
        if groups[g].0 == *rule && groups[g].1.len() > 0 {
            return true;
        }
        g = g + 1;
    }
    false
}

/// Marks every fact of every rule that had approximation fallback groups
/// with `_approximate = true`; other facts are kept as they are.
pub fn stamp_approximate(
    derived: Vec<(String, Vec<Vec<(String, Value)>>)>,
    groups: &Vec<(String, Vec<String>)>,
) -> (r: Vec<(String, Vec<Vec<(String, Value)>>)>)
    requires
        forall|i: int, j: int|
            0 <= i < derived@.len() && 0 <= j < derived@[i].1@.len() ==> crate::params::distinct_names(
                #[trigger] derived@[i].1@[j]@,
            ),
    ensures
        r@.len() == derived@.len(),
        forall|i: int| 0 <= i < r@.len() ==> (#[trigger] r@[i]).0 == derived@[i].0 && r@[i].1@.len()
            == derived@[i].1@.len(),
        forall|i: int, j: int|
            0 <= i < r@.len() && 0 <= j < r@[i].1@.len() ==> {
                &&& crate::params::distinct_names(#[trigger] r@[i].1@[j]@)
                &&& crate::params::entry_map(r@[i].1@[j]@) == stamped(
                    derived@[i].1@[j]@,
                    has_approximate_groups(groups@, derived@[i].0@),
                )
            },
{
    let ghost input = derived@;
    let mut out: Vec<(String, Vec<Vec<(String, Value)>>)> = Vec::new();
    for entry in it: derived
        invariant
            it.seq() == input,
            forall|i: int, j: int|
                0 <= i < input.len() && 0 <= j < input[i].1@.len() ==> crate::params::distinct_names(
                    #[trigger] input[i].1@[j]@,
                ),
            out@.len() == it.index(),
            forall|i: int| 0 <= i < out@.len() ==> (#[trigger] out@[i]).0 == input[i].0 && out@[i].1@.len()
                == input[i].1@.len(),
            forall|i: int, j: int|
                0 <= i < out@.len() && 0 <= j < out@[i].1@.len() ==> {
                    &&& crate::params::distinct_names(#[trigger] out@[i].1@[j]@)
                    &&& crate::params::entry_map(out@[i].1@[j]@) == stamped(
                        input[i].1@[j]@,
                        has_approximate_groups(groups@, input[i].0@),
                    )
                },
    {
        let ghost idx = it.index();
        let (rule, rows) = entry;
        let approx = rule_is_approximate(groups, &rule);
        let ghost in_rows = rows@;
        let mut new_rows: Vec<Vec<(String, Value)>> = Vec::new();
        for row in jt: rows
            invariant
                jt.seq() == in_rows,
                in_rows == input[idx].1@,
                forall|j: int| 0 <= j < in_rows.len() ==> crate::params::distinct_names(#[trigger] in_rows[j]@),
                new_rows@.len() == jt.index(),
                forall|j: int| 0 <= j < new_rows@.len() ==> {
                    &&& crate::params::distinct_names(#[trigger] new_rows@[j]@)
                    &&& crate::params::entry_map(new_rows@[j]@) == stamped(in_rows[j]@, approx)
                },
        {
            let mut fields = row;
            if approx {
                crate::params::bind_entry(&mut fields, owned("_approximate"), Value::Bool(true));
            }
            new_rows.push(fields);
        }
        out.push((rule, new_rows));
    }
    out
}

// ---------------------------------------------------------------------------
// Collected derived facts
// ---------------------------------------------------------------------------

/// What one derive command collected: new vertices by label, new edges and
/// the mutation statements that materialize them.
pub struct DeriveOutput<V, E, Q> {
    pub vertices: Vec<(String, Vec<V>)>,
    pub edges: Vec<E>,
    pub queries: Vec<Q>,
}

/// Everything a program's derive commands collected, merged.
pub struct DerivedFacts<V, E, Q> {
    pub vertices: Vec<(String, Vec<V>)>,
    pub edges: Vec<E>,
    pub mutation_queries: Vec<Q>,
}

/// The vertices collected for `label`, command by command.
pub open spec fn merged_vertices<V, E, Q>(outputs: Seq<DeriveOutput<V, E, Q>>, label: Seq<char>) -> Seq<V>
    decreases outputs.len(),
{
    if outputs.len() == 0 {
        Seq::empty()
    } else {
        merged_vertices(outputs.drop_last(), label) + rows_of(outputs.last().vertices@, label)
    }
}

/// Some command collected vertices under `label`.
pub open spec fn merged_has_label<V, E, Q>(outputs: Seq<DeriveOutput<V, E, Q>>, label: Seq<char>) -> bool {
    exists|o: int| 0 <= o < outputs.len() && has_key((#[trigger] outputs[o]).vertices@, label)
}

/// The edges collected, command by command.
pub open spec fn merged_edges<V, E, Q>(outputs: Seq<DeriveOutput<V, E, Q>>) -> Seq<E>
    decreases outputs.len(),
{
    if outputs.len() == 0 {
        Seq::empty()
    } else {
        merged_edges(outputs.drop_last()) + outputs.last().edges@
    }
}

/// The mutation statements collected, command by command.
pub open spec fn merged_queries<V, E, Q>(outputs: Seq<DeriveOutput<V, E, Q>>) -> Seq<Q>
    decreases outputs.len(),
{
    if outputs.len() == 0 {
        Seq::empty()
    } else {
        merged_queries(outputs.drop_last()) + outputs.last().queries@
    }
}

proof fn lemma_rows_prefix_step<T>(entries: Seq<(String, Vec<T>)>, j: int, k: Seq<char>)
    requires
        unique_keys(entries),
        0 <= j < entries.len(),
    ensures
        rows_of(entries.take(j + 1), k) == rows_of(entries.take(j), k) + (if entries[j].0@ == k {
            entries[j].1@
        } else {
            Seq::<T>::empty()
        }),
        has_key(entries.take(j + 1), k) == (has_key(entries.take(j), k) || entries[j].0@ == k),
{
    let p = entries.take(j);
    let q = entries.take(j + 1);
    assert(unique_keys(p));
    assert(unique_keys(q));
    if entries[j].0@ == k {
        assert(q[j] == entries[j]);
        lemma_rows_at(q, j);
        assert(!has_key(p, k)) by {
            if has_key(p, k) {
                let i = choose|i: int| 0 <= i < p.len() && (#[trigger] p[i]).0@ == k;
                assert(entries[i].0@ != entries[j].0@);
            }
        }
        assert(rows_of(p, k) =~= Seq::<T>::empty());
        assert(rows_of(q, k) =~= rows_of(p, k) + entries[j].1@);
    } else {
        if has_key(p, k) {
            let i = choose|i: int| 0 <= i < p.len() && (#[trigger] p[i]).0@ == k;
            lemma_rows_at(p, i);
            assert(q[i] == p[i]);
            lemma_rows_at(q, i);
            assert(rows_of(q, k) =~= rows_of(p, k) + Seq::<T>::empty());
        } else {
            assert(!has_key(q, k)) by {
                if has_key(q, k) {
                    let i = choose|i: int| 0 <= i < q.len() && (#[trigger] q[i]).0@ == k;
                    assert(i != j);
                    assert(p[i] == q[i]);
                }
            }
            assert(rows_of(q, k) =~= rows_of(p, k) + Seq::<T>::empty());
        }
    }
}

/// Merges what the derive commands collected, in command order: vertices
/// are grouped by label (each label's vertices in collection order), edges
/// and mutation statements are concatenated. Nothing collected is `None`.
pub fn merge_derive_outputs<V, E, Q>(outputs: Vec<DeriveOutput<V, E, Q>>) -> (r: Option<DerivedFacts<V, E, Q>>)
    requires
        forall|o: int| 0 <= o < outputs@.len() ==> unique_keys(#[trigger] outputs@[o].vertices@),
    ensures
        outputs@.len() == 0 ==> r is None,
        outputs@.len() > 0 ==> (r matches Some(f) && {
            &&& unique_keys(f.vertices@)
            &&& forall|k: Seq<char>| #[trigger] has_key(f.vertices@, k) == merged_has_label(outputs@, k)
            &&& forall|k: Seq<char>| #[trigger] rows_of(f.vertices@, k) == merged_vertices(outputs@, k)
            &&& f.edges@ == merged_edges(outputs@)
            &&& f.mutation_queries@ == merged_queries(outputs@)
        }),
{
    if outputs.len() == 0 {
        return None;
    }
    let ghost all = outputs@;
    let mut vertices: Vec<(String, Vec<V>)> = Vec::new();
    let mut edges: Vec<E> = Vec::new();
    let mut queries: Vec<Q> = Vec::new();
    for output in it: outputs
        invariant
            it.seq() == all,
            forall|o: int| 0 <= o < all.len() ==> unique_keys(#[trigger] all[o].vertices@),
            unique_keys(vertices@),
            forall|k: Seq<char>| #[trigger] has_key(vertices@, k) == merged_has_label(all.take(it.index()), k),
            forall|k: Seq<char>| #[trigger] rows_of(vertices@, k) == merged_vertices(all.take(it.index()), k),
            edges@ == merged_edges(all.take(it.index())),
            queries@ == merged_queries(all.take(it.index())),
    {
        let ghost idx = it.index();
        let ghost prev = all.take(idx);
        let ghost next = all.take(idx + 1);
        proof {
            assert(next.drop_last() =~= prev);
            assert(next.last() == all[idx]);
        }
        let DeriveOutput { vertices: verts, edges: mut es, queries: mut qs } = output;
        let ghost entries = verts@;
        let ghost base = vertices@;
        let rest = verts;
        proof {
            assert(entries == all[idx].vertices@);
            assert(entries.take(0) =~= Seq::<(String, Vec<V>)>::empty());
        }
        for entry in jt: rest
            invariant
                jt.seq() == entries,
                unique_keys(entries),
                unique_keys(vertices@),
                forall|k: Seq<char>| #[trigger] has_key(vertices@, k) == (merged_has_label(prev, k) || has_key(entries.take(jt.index() as int), k)),
                forall|k: Seq<char>| #[trigger] rows_of(vertices@, k) == merged_vertices(prev, k) + rows_of(entries.take(jt.index() as int), k),
        {
            let ghost jj = jt.index();
            let ghost before = vertices@;
            let (label, vs) = entry;
            append_rows(&mut vertices, &label, vs);
            proof {
                assert forall|k: Seq<char>| #[trigger] has_key(vertices@, k) == (merged_has_label(prev, k) || has_key(entries.take(jj + 1), k)) by {
                    lemma_rows_prefix_step(entries, jj, k);
                }
                assert forall|k: Seq<char>| #[trigger] rows_of(vertices@, k) == merged_vertices(prev, k) + rows_of(entries.take(jj + 1), k) by {
                    lemma_rows_prefix_step(entries, jj, k);
                    if k == label@ {
                        assert(rows_of(vertices@, k) == rows_of(before, k) + entries[jj].1@);
                    }
                }
            }
        }
        edges.append(&mut es);
        queries.append(&mut qs);
        proof {
            assert(entries.take(entries.len() as int) =~= entries);
            assert forall|k: Seq<char>| #[trigger] merged_has_label(next, k) == (merged_has_label(prev, k) || has_key(entries, k)) by {
                if merged_has_label(next, k) {
                    let o = choose|o: int| 0 <= o < next.len() && has_key((#[trigger] next[o]).vertices@, k);
                    if o < idx {
                        assert(prev[o] == next[o]);
                    }
                }
                if merged_has_label(prev, k) {
                    let o = choose|o: int| 0 <= o < prev.len() && has_key((#[trigger] prev[o]).vertices@, k);
                    assert(next[o] == prev[o]);
                }
                if has_key(entries, k) {
                    assert(next[idx as int] == all[idx]);
                }
            }
        }
    }
    proof {
        assert(all.take(all.len() as int) =~= all);
    }
    Some(DerivedFacts { vertices, edges, mutation_queries: queries })
}

// ---------------------------------------------------------------------------
// Evaluation configuration
// ---------------------------------------------------------------------------

/// How a rule program is evaluated.
pub struct LocyConfig {
    /// Values for the program's `$name` parameters.
    pub params: Params,
    /// Evaluation time budget.
    pub timeout: Duration,
    /// Fixpoint iteration budget.
    pub max_iterations: usize,
    /// Return partial results instead of failing when a budget is exceeded.
    pub allow_partial: bool,
}

/// Builds the configuration a rule program is evaluated with.
pub struct LocyBuilder {
    program: String,
    config: LocyConfig,
}

impl LocyBuilder {
    pub closed spec fn spec_program(&self) -> Seq<char> {
        self.program@
    }

    pub closed spec fn spec_config(&self) -> LocyConfig {
        self.config
    }

    /// A builder for `program` starting from `config`.
    pub fn new(program: &str, config: LocyConfig) -> (r: Self)
        ensures
            r.spec_program() == program@,
            r.spec_config() == config,
    {
        LocyBuilder { program: owned(program), config }
    }

    /// Binds parameter `name` (without the `$`).
    pub fn param(self, name: String, value: Value) -> (r: Self)
        requires
            self.spec_config().params.wf(),
        ensures
            r.spec_program() == self.spec_program(),
            r.spec_config().params.wf(),
            r.spec_config().params.view_map() == self.spec_config().params.view_map().insert(name@, value),
            r.spec_config().timeout == self.spec_config().timeout,
            r.spec_config().max_iterations == self.spec_config().max_iterations,
            r.spec_config().allow_partial == self.spec_config().allow_partial,
    {
        let mut b = self;
        b.config.params.set(name, value);
        b
    }

    /// Binds every parameter of `params`.
    pub fn params_map(self, params: Params) -> (r: Self)
        requires
            self.spec_config().params.wf(),
            params.wf(),
        ensures
            r.spec_program() == self.spec_program(),
            r.spec_config().params.wf(),
            r.spec_config().params.view_map() == self.spec_config().params.view_map().union_prefer_right(
                params.view_map(),
            ),
            r.spec_config().timeout == self.spec_config().timeout,
            r.spec_config().max_iterations == self.spec_config().max_iterations,
            r.spec_config().allow_partial == self.spec_config().allow_partial,
    {
        let mut b = self;
        b.config.params.extend(params);
        b
    }

    /// Overrides the evaluation time budget.
    pub fn timeout(self, duration: Duration) -> (r: Self)
        ensures
            r.spec_program() == self.spec_program(),
            r.spec_config() == (LocyConfig { timeout: duration, ..self.spec_config() }),
    {
        let mut b = self;
        b.config.timeout = duration;
        b
    }

    /// Returns partial results instead of failing when over budget.
    pub fn allow_partial(self, allow: bool) -> (r: Self)
        ensures
            r.spec_program() == self.spec_program(),
            r.spec_config() == (LocyConfig { allow_partial: allow, ..self.spec_config() }),
    {
        let mut b = self;
        b.config.allow_partial = allow;
        b
    }

    /// Overrides the fixpoint iteration budget.
    pub fn max_iterations(self, n: usize) -> (r: Self)
        ensures
            r.spec_program() == self.spec_program(),
            r.spec_config() == (LocyConfig { max_iterations: n, ..self.spec_config() }),
    {
        let mut b = self;
        b.config.max_iterations = n;
        b
    }

    /// Replaces the configuration, keeping the parameters bound on the
    /// builder (they win over the new configuration's).
    pub fn with_config(self, config: LocyConfig) -> (r: Self)
        requires
            self.spec_config().params.wf(),
            config.params.wf(),
        ensures
            r.spec_program() == self.spec_program(),
            r.spec_config().params.wf(),
            r.spec_config().params.view_map() == config.params.view_map().union_prefer_right(
                self.spec_config().params.view_map(),
            ),
            r.spec_config().timeout == config.timeout,
            r.spec_config().max_iterations == config.max_iterations,
            r.spec_config().allow_partial == config.allow_partial,
    {
        let LocyBuilder { program, config: mine } = self;
        let mut c = config;
        c.params.extend(mine.params);
        LocyBuilder { program, config: c }
    }

    /// The program and the configuration to evaluate it with.
    pub fn into_parts(self) -> (r: (String, LocyConfig))
        ensures
            r.0@ == self.spec_program(),
            r.1 == self.spec_config(),
    {
        (self.program, self.config)
    }
}

/// Whether an evaluation that stopped early (`incomplete` describes how far
/// it got) may hand back its partial results: only when the caller allowed
/// partial results; otherwise it is an error carrying that description. A
/// complete evaluation always succeeds.
pub fn incomplete_outcome(incomplete: Option<String>, allow_partial: bool) -> (r: Result<
    Option<String>,
    UniError,
>)
    ensures
        match incomplete {
            None => r == Ok::<Option<String>, UniError>(None),
            Some(d) => if allow_partial {
                r == Ok::<Option<String>, UniError>(Some(d))
            } else {
                r matches Err(UniError::LocyIncomplete { detail }) && detail@ == d@
            },
        },
{
    match incomplete {
        None => Ok(None),
        Some(d) => {
            if allow_partial {
                Ok(Some(d))
            } else {
                Err(UniError::LocyIncomplete { detail: d })
            }
        },
    }
}

// ---------------------------------------------------------------------------
// Promoting a committed transaction's rules to its session
// ---------------------------------------------------------------------------

/// The names of `tx` not among `session`, in order.
pub open spec fn names_not_in(tx: Seq<Seq<char>>, session: Seq<Seq<char>>) -> Seq<Seq<char>>
    decreases tx.len(),
{
    if tx.len() == 0 {
        Seq::empty()
    } else {
        let rest = names_not_in(tx.drop_last(), session);
        if session.contains(tx.last()) {
            rest
        } else {
            rest.push(tx.last())
        }
    }
}

/// The rules a commit promotes: those the transaction defined (`tx_names`)
/// that its session does not already have, in the transaction's order.
pub fn new_rule_names(tx_names: &Vec<String>, session_names: &Vec<String>) -> (r: Vec<String>)
    ensures
        texts(r@) == names_not_in(texts(tx_names@), texts(session_names@)),
{
    let mut out: Vec<String> = Vec::new();
    let mut i: usize = 0;
    while i < tx_names.len()
        invariant
            i <= tx_names@.len(),
            texts(out@) == names_not_in(texts(tx_names@).take(i as int), texts(session_names@)),
        decreases tx_names.len() - i,
    {
        proof {
            assert(texts(tx_names@).take(i + 1).drop_last() =~= texts(tx_names@).take(i as int));
        }
        let ghost before = out@;
        if !crate::text::text_in(session_names, &tx_names[i]) {
            out.push(owned(tx_names[i].as_str()));
            proof {
                assert(texts(out@) =~= texts(before).push(tx_names@[i as int]@));
            }
        }
        i = i + 1;
    }
    proof {
        assert(texts(tx_names@).take(i as int) =~= texts(tx_names@));
    }
    out
}

/// Whether some name of `names` is among `wanted`.
pub open spec fn owns_any(names: Seq<Seq<char>>, wanted: Seq<Seq<char>>) -> bool {
    exists|i: int| 0 <= i < names.len() && wanted.contains(#[trigger] names[i])
}

/// Whether some source of `sources` has the text `text`.
pub open spec fn has_source(sources: Seq<(Seq<char>, Seq<Seq<char>>)>, text: Seq<char>) -> bool {
    exists|i: int| 0 <= i < sources.len() && (#[trigger] sources[i]).0 == text
}

/// The sources the session registry is rebuilt from when a commit promotes
/// the rules `new_names`: the session's own sources, then each source of
/// the transaction that defines a promoted rule and is not already there.
pub open spec fn promoted_sources(
    session: Seq<(Seq<char>, Seq<Seq<char>>)>,
    tx: Seq<(Seq<char>, Seq<Seq<char>>)>,
    new_names: Seq<Seq<char>>,
) -> Seq<(Seq<char>, Seq<Seq<char>>)>
    decreases tx.len(),
{
    if tx.len() == 0 {
        session
    } else {
        let c = promoted_sources(session, tx.drop_last(), new_names);
        let s = tx.last();
        if owns_any(s.1, new_names) && !has_source(c, s.0) {
            c.push(s)
        } else {
            c
        }
    }
}

fn owns_new(names: &Vec<String>, new_names: &Vec<String>) -> (r: bool)
    ensures
        r == owns_any(texts(names@), texts(new_names@)),
{
    let mut i: usize = 0;
    while i < names.len()
        invariant
            i <= names@.len(),
            forall|j: int| 0 <= j < i ==> !texts(new_names@).contains(#[trigger] texts(names@)[j]),
        decreases names.len() - i,
    {
        if crate::text::text_in(new_names, &names[i]) {
            proof {
                assert(texts(new_names@).contains(texts(names@)[i as int]));
            }
            return true;
        }
        i = i + 1;
    }
    false
}

fn holds_source(sources: &Vec<RegisteredSource>, text: &String) -> (r: bool)
    ensures
        r == has_source(sources@.map_values(|s: RegisteredSource| source_view(s)), text@),
{
    let ghost v = sources@.map_values(|s: RegisteredSource| source_view(s));
    let mut i: usize = 0;
    while i < sources.len()
        invariant
            i <= sources@.len(),
            v == sources@.map_values(|s: RegisteredSource| source_view(s)),
            forall|j: int| 0 <= j < i ==> (#[trigger] v[j]).0 != text@,
        decreases sources.len() - i,
    {
        if sources[i].source == *text {
            proof {
                assert(v[i as int].0 == text@);
            }
            return true;
        }
        i = i + 1;
    }
    false
}

fn copy_source(s: &RegisteredSource) -> (r: RegisteredSource)
    ensures
        source_view(r) == source_view(*s),
{
    RegisteredSource { source: owned(s.source.as_str()), rule_names: copy_strings(&s.rule_names) }
}

/// The sources to rebuild the session registry from when a commit promotes
/// the rules `new_names` (see [`promoted_sources`]).
pub fn promotion_sources(
    session_sources: &Vec<RegisteredSource>,
    tx_sources: &Vec<RegisteredSource>,
    new_names: &Vec<String>,
) -> (r: Vec<RegisteredSource>)
    ensures
        r@.map_values(|s: RegisteredSource| source_view(s)) == promoted_sources(
            session_sources@.map_values(|s: RegisteredSource| source_view(s)),
            tx_sources@.map_values(|s: RegisteredSource| source_view(s)),
            texts(new_names@),
        ),
{
    let ghost sv = session_sources@.map_values(|s: RegisteredSource| source_view(s));
    let ghost tv = tx_sources@.map_values(|s: RegisteredSource| source_view(s));
    let mut combined: Vec<RegisteredSource> = Vec::new();
    let mut i: usize = 0;
    while i < session_sources.len()
        invariant
            i <= session_sources@.len(),
            sv == session_sources@.map_values(|s: RegisteredSource| source_view(s)),
            combined@.map_values(|s: RegisteredSource| source_view(s)) == sv.take(i as int),
        decreases session_sources.len() - i,
    {
        let c = copy_source(&session_sources[i]);
        let ghost before = combined@;
        let ghost cv = source_view(c);
        combined.push(c);
        proof {
            assert(cv == sv[i as int]);
            assert(sv.take(i + 1) =~= sv.take(i as int).push(sv[i as int]));
            assert(combined@.map_values(|s: RegisteredSource| source_view(s)) =~= before.map_values(
                |s: RegisteredSource| source_view(s),
            ).push(cv));
        }
        i = i + 1;
    }
    proof {
        assert(sv.take(i as int) =~= sv);
    }
    let mut j: usize = 0;
    while j < tx_sources.len()
        invariant
            j <= tx_sources@.len(),
            sv == session_sources@.map_values(|s: RegisteredSource| source_view(s)),
            tv == tx_sources@.map_values(|s: RegisteredSource| source_view(s)),
            combined@.map_values(|s: RegisteredSource| source_view(s)) == promoted_sources(
                sv,
                tv.take(j as int),
                texts(new_names@),
            ),
        decreases tx_sources.len() - j,
    {
        proof {
            assert(tv.take(j + 1).drop_last() =~= tv.take(j as int));
            assert(tv.take(j + 1).last() == source_view(tx_sources@[j as int]));
        }
        let src = &tx_sources[j];
        if owns_new(&src.rule_names, new_names) && !holds_source(&combined, &src.source) {
            let c = copy_source(src);
            combined.push(c);
            proof {
                let cv = combined@.map_values(|s: RegisteredSource| source_view(s));
                assert(cv =~= promoted_sources(sv, tv.take(j as int), texts(new_names@)).push(source_view(*src)));
            }
        }
        j = j + 1;
    }
    proof {
        assert(tv.take(j as int) =~= tv);
    }
    combined
}

/// Whether the registry rebuilt from the promoted sources (holding the
/// rules `rebuilt`, or `None` when the rebuild failed) may replace the
/// session's: only when it kept every promoted rule and every rule the
/// session had. Otherwise the promoted rules are copied over without their
/// strata and the commit reports that.
pub fn rebuilt_registry_usable(rebuilt: Option<&Vec<String>>, new_names: &Vec<String>, session_names: &Vec<String>) -> (r: bool)
    ensures
        r == (rebuilt matches Some(names) && (forall|i: int|
            0 <= i < new_names@.len() ==> texts(names@).contains(#[trigger] new_names@[i]@)) && (forall|i: int|
            0 <= i < session_names@.len() ==> texts(names@).contains(#[trigger] session_names@[i]@))),
{
    match rebuilt {
        None => false,
        Some(names) => all_in(new_names, names) && all_in(session_names, names),
    }
}

fn all_in(wanted: &Vec<String>, names: &Vec<String>) -> (r: bool)
    ensures
        r == (forall|i: int| 0 <= i < wanted@.len() ==> texts(names@).contains(#[trigger] wanted@[i]@)),
{
    let mut i: usize = 0;
    while i < wanted.len()
        invariant
            i <= wanted@.len(),
            forall|j: int| 0 <= j < i ==> texts(names@).contains(#[trigger] wanted@[j]@),
        decreases wanted.len() - i,
    {
        if !crate::text::text_in(names, &wanted[i]) {
            return false;
        }
        i = i + 1;
    }
    true
}

} // verus!
