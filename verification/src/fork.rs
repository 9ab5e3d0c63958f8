//! Fork administration: the names fork tags are stored under and read back
//! from, the labels a promotion baseline scans, and the texts reported when
//! a fork subtree cannot be dropped.
use vstd::prelude::*;
use crate::errors::UniError;
use crate::text::{
    chars_of, ends_with, nat_digits, owned, push_str, push_u64, sorted_unique, starts_with,
    strictly_sorted, string_from, text_in, texts,
};

verus! {

/// The per-dataset tag name a fork tag is stored under.
pub open spec fn stored_tag(tag: Seq<char>, dataset: Seq<char>) -> Seq<char> {
    "fork_"@ + tag + "_"@ + dataset
}

/// The per-dataset tag name for fork tag `tag` on `dataset`:
/// `fork_{tag}_{dataset}`.
pub fn lance_tag_name(tag: &str, dataset: &str) -> (r: String)
    ensures
        r@ == stored_tag(tag@, dataset@),
{
    let mut v = chars_of("fork_");
    push_str(&mut v, tag);
    push_str(&mut v, "_");
    push_str(&mut v, dataset);
    string_from(&v)
}

/// The fork tag a stored tag name on `dataset` carries, if it is one: the
/// name with the `fork_` prefix and the `_{dataset}` suffix removed.
pub open spec fn tag_from_stored(name: Seq<char>, dataset: Seq<char>) -> Option<Seq<char>> {
    let suffix = "_"@ + dataset;
    if starts_with(name, "fork_"@) && ends_with(name.skip(5), suffix) {
        Some(name.subrange(5, name.len() - suffix.len()))
    } else {
        None
    }
}

/// The fork tag stored under `name` on `dataset` (see [`tag_from_stored`]).
pub fn tag_of(name: &str, dataset: &str) -> (r: Option<String>)
    ensures
        crate::locy::opt_view(r) == tag_from_stored(name@, dataset@),
{
    let v = chars_of(name);
    let prefix = chars_of("fork_");
    let mut suffix = chars_of("_");
    push_str(&mut suffix, dataset);
    proof {
        reveal_strlit("fork_");
    }
    if !crate::text::has_prefix(&v, &prefix) {
        return None;
    }
    let mut rest: Vec<char> = Vec::new();
    let mut i: usize = 5;
    while i < v.len()
        invariant
            5 <= i <= v@.len(),
            rest@ == v@.subrange(5, i as int),
        decreases v.len() - i,
    {
        rest.push(v[i]);
        i = i + 1;
        proof {
            assert(v@.subrange(5, i as int) =~= v@.subrange(5, i - 1).push(v@[i - 1]));
        }
    }
    proof {
        assert(rest@ =~= v@.skip(5));
    }
    if !crate::text::has_suffix(&rest, &suffix) {
        return None;
    }
    let keep = rest.len() - suffix.len();
    let mut t: Vec<char> = Vec::new();
    let mut j: usize = 0;
    while j < keep
        invariant
            j <= keep,
            keep + suffix@.len() == rest@.len(),
            t@ == rest@.take(j as int),
        decreases keep - j,
    {
        t.push(rest[j]);
        j = j + 1;
        proof {
            assert(rest@.take(j as int) =~= rest@.take(j - 1).push(rest@[j - 1]));
        }
    }
    proof {
        assert(t@ =~= v@.subrange(5, v@.len() - suffix@.len()));
    }
    Some(string_from(&t))
}

/// Reading back the tag a fork tag was stored under gives the fork tag.
pub proof fn law_stored_tag_round_trip(tag: Seq<char>, dataset: Seq<char>)
    ensures
        tag_from_stored(stored_tag(tag, dataset), dataset) == Some(tag),
{
    reveal_strlit("fork_");
    let name = stored_tag(tag, dataset);
    let suffix = "_"@ + dataset;
    assert(name.subrange(0, 5) =~= "fork_"@);
    assert(name.skip(5) =~= tag + suffix);
    assert((tag + suffix).subrange((tag + suffix).len() - suffix.len(), (tag + suffix).len() as int) =~= suffix);
    assert(name.subrange(5, name.len() - suffix.len()) =~= tag);
}

/// The fork tags found among the stored tag names of each dataset
/// (`(dataset, names)`), each once, in sorted order.
pub fn fork_tags(on_disk: &Vec<(String, Vec<String>)>) -> (r: Vec<String>)
    ensures
        strictly_sorted(r@),
        forall|t: Seq<char>| texts(r@).contains(t) <==> exists|d: int, k: int|
            0 <= d < on_disk@.len() && 0 <= k < on_disk@[d].1@.len() && tag_from_stored(
                (#[trigger] on_disk@[d].1@[k])@,
                on_disk@[d].0@,
            ) == Some(t),
{
    let mut found: Vec<String> = Vec::new();
    let mut d: usize = 0;
    while d < on_disk.len()
        invariant
            d <= on_disk@.len(),
            forall|t: Seq<char>| texts(found@).contains(t) <==> exists|dd: int, k: int|
                0 <= dd < d && 0 <= k < on_disk@[dd].1@.len() && tag_from_stored(
                    (#[trigger] on_disk@[dd].1@[k])@,
                    on_disk@[dd].0@,
                ) == Some(t),
        decreases on_disk.len() - d,
    {
        let names = &on_disk[d].1;
        let mut k: usize = 0;
        while k < names.len()
            invariant
                k <= names@.len(),
                d < on_disk@.len(),
                *names == on_disk@[d as int].1,
                forall|t: Seq<char>| texts(found@).contains(t) <==> (exists|dd: int, kk: int|
                    0 <= dd < d && 0 <= kk < on_disk@[dd].1@.len() && tag_from_stored(
                        (#[trigger] on_disk@[dd].1@[kk])@,
                        on_disk@[dd].0@,
                    ) == Some(t)) || (exists|kk: int| 0 <= kk < k && tag_from_stored(
                        (#[trigger] on_disk@[d as int].1@[kk])@,
                        on_disk@[d as int].0@,
                    ) == Some(t)),
            decreases names.len() - k,
        {
            let ghost before = found@;
            match tag_of(names[k].as_str(), on_disk[d].0.as_str()) {
                Some(t) => {
                    found.push(t);
                    proof {
                        assert(texts(found@) =~= texts(before).push(found@.last()@));
                    }
                },
                None => {},
            }
            proof {
                assert forall|t: Seq<char>| texts(found@).contains(t) <==> (exists|dd: int, kk: int|
                    0 <= dd < d && 0 <= kk < on_disk@[dd].1@.len() && tag_from_stored(
                        (#[trigger] on_disk@[dd].1@[kk])@,
                        on_disk@[dd].0@,
                    ) == Some(t)) || (exists|kk: int| 0 <= kk < k + 1 && tag_from_stored(
                        (#[trigger] on_disk@[d as int].1@[kk])@,
                        on_disk@[d as int].0@,
                    ) == Some(t)) by {
                    if texts(found@).contains(t) && !texts(before).contains(t) {
                        assert(tag_from_stored(on_disk@[d as int].1@[k as int]@, on_disk@[d as int].0@) == Some(t));
                    }
                    if texts(before).contains(t) {
                        let q = choose|q: int| 0 <= q < texts(before).len() && texts(before)[q] == t;
                        assert(texts(found@)[q] == t);
                    }
                    if exists|kk: int| 0 <= kk < k + 1 && tag_from_stored(
                        (#[trigger] on_disk@[d as int].1@[kk])@,
                        on_disk@[d as int].0@,
                    ) == Some(t) {
                        let kk = choose|kk: int| 0 <= kk < k + 1 && tag_from_stored(
                            (#[trigger] on_disk@[d as int].1@[kk])@,
                            on_disk@[d as int].0@,
                        ) == Some(t);
                        if kk == k {
                            assert(texts(found@).last() == t);
                        }
                    }
                }
            }
            k = k + 1;
        }
        proof {
            assert forall|t: Seq<char>| texts(found@).contains(t) <==> exists|dd: int, kk: int|
                0 <= dd < d + 1 && 0 <= kk < on_disk@[dd].1@.len() && tag_from_stored(
                    (#[trigger] on_disk@[dd].1@[kk])@,
                    on_disk@[dd].0@,
                ) == Some(t) by {
                if exists|dd: int, kk: int|
                    0 <= dd < d + 1 && 0 <= kk < on_disk@[dd].1@.len() && tag_from_stored(
                        (#[trigger] on_disk@[dd].1@[kk])@,
                        on_disk@[dd].0@,
                    ) == Some(t) {
                    let (dd, kk) = choose|dd: int, kk: int|
                        0 <= dd < d + 1 && 0 <= kk < on_disk@[dd].1@.len() && tag_from_stored(
                            (#[trigger] on_disk@[dd].1@[kk])@,
                            on_disk@[dd].0@,
                        ) == Some(t);
                    if dd == d {
                        assert(tag_from_stored(on_disk@[d as int].1@[kk]@, on_disk@[d as int].0@) == Some(t));
                    }
                }
            }
        }
        d = d + 1;
    }
    sorted_unique(&found)
}

/// The label of a promotion pattern with backticks doubled, for use between
/// backticks in Cypher.
pub open spec fn escape_backticks(s: Seq<char>) -> Seq<char>
    decreases s.len(),
{
    if s.len() == 0 {
        Seq::empty()
    } else if s.last() == '`' {
        escape_backticks(s.drop_last()) + seq!['`', '`']
    } else {
        escape_backticks(s.drop_last()).push(s.last())
    }
}

/// The statement scanning label `label` for a promotion baseline.
pub fn baseline_scan_query(label: &str) -> (r: String)
    ensures
        r@ == "MATCH (n:`"@ + escape_backticks(label@) + "`) RETURN n"@,
{
    let l = chars_of(label);
    let mut v = chars_of("MATCH (n:`");
    let ghost start = v@;
    let mut i: usize = 0;
    while i < l.len()
        invariant
            i <= l@.len(),
            l@ == label@,
            v@ == start + escape_backticks(l@.take(i as int)),
        decreases l.len() - i,
    {
        proof {
            assert(l@.take(i + 1).drop_last() =~= l@.take(i as int));
        }
        if l[i] == '`' {
            v.push('`');
            v.push('`');
        } else {
            v.push(l[i]);
        }
        i = i + 1;
        proof {
            assert(v@ =~= start + escape_backticks(l@.take(i as int)));
        }
    }
    push_str(&mut v, "`) RETURN n");
    proof {
        assert(l@.take(l@.len() as int) =~= l@);
    }
    string_from(&v)
}

/// A baseline needs no scan when the fork was created before the database
/// held any snapshot.
pub fn baseline_is_empty(parent_snapshot_id: &str) -> (r: bool)
    ensures
        r == (parent_snapshot_id@ == "uninitialized"@),
{
    owned(parent_snapshot_id) == owned("uninitialized")
}

/// The blocker text for a fork node with a transaction in flight.
pub fn inflight_blocker(name: &str) -> (r: String)
    ensures
        r@ == name@ + ": in-flight tx"@,
{
    let mut v = chars_of(name);
    push_str(&mut v, ": in-flight tx");
    string_from(&v)
}

/// The blocker text for a fork node still held by live sessions.
pub fn holders_blocker(name: &str, holders: usize) -> (r: String)
    ensures
        r@ == name@ + ": "@ + nat_digits(holders as nat) + " live session(s)"@,
{
    let mut v = chars_of(name);
    push_str(&mut v, ": ");
    push_u64(&mut v, holders as u64);
    push_str(&mut v, " live session(s)");
    string_from(&v)
}

/// Whether fork `name` may be dropped on its own: not while it has child
/// forks (they are listed), nor while a transaction is in flight on it.
pub fn drop_gate(name: &str, children: Vec<String>, inflight_tx: usize) -> (r: Result<(), UniError>)
    ensures
        children@.len() > 0 ==> (r matches Err(UniError::ForkHasChildren { name: n, children: c })
            && n@ == name@ && c == children),
        children@.len() == 0 && inflight_tx > 0 ==> (r matches Err(UniError::ForkInflightTx { name: n })
            && n@ == name@),
        children@.len() == 0 && inflight_tx == 0 ==> r is Ok,
{
    if children.len() > 0 {
        return Err(UniError::ForkHasChildren { name: owned(name), children });
    }
    if inflight_tx > 0 {
        return Err(UniError::ForkInflightTx { name: owned(name) });
    }
    Ok(())
}

/// The error when draining a fork's pending flushes timed out.
pub fn flush_timeout_error(name: &str) -> (r: UniError)
    ensures
        r matches UniError::PendingFlushTimeout { name: n } && n@ == name@,
{
    UniError::PendingFlushTimeout { name: owned(name) }
}

/// What keeps fork node `name` of a subtree from being dropped: a
/// transaction in flight, else live sessions still holding it, else nothing.
pub fn node_blocker(name: &str, inflight_tx: bool, holders: usize) -> (r: Option<String>)
    ensures
        inflight_tx ==> crate::locy::opt_view(r) == Some(name@ + ": in-flight tx"@),
        !inflight_tx && holders > 0 ==> crate::locy::opt_view(r) == Some(
            name@ + ": "@ + nat_digits(holders as nat) + " live session(s)"@,
        ),
        !inflight_tx && holders == 0 ==> r is None,
{
    if inflight_tx {
        Some(inflight_blocker(name))
    } else if holders > 0 {
        Some(holders_blocker(name, holders))
    } else {
        None
    }
}

/// Whether a subtree may be dropped given the blockers found on its nodes:
/// only when there are none.
pub fn cascade_gate(blockers: Vec<String>) -> (r: Result<(), UniError>)
    ensures
        blockers@.len() == 0 ==> r is Ok,
        blockers@.len() > 0 ==> r == Err::<(), UniError>(UniError::ForkSubtreeInUse { blockers }),
{
    if blockers.len() > 0 {
        return Err(UniError::ForkSubtreeInUse { blockers });
    }
    Ok(())
}

/// How deleting a dropped fork's branches ends: a failed delete leaves the
/// fork tombstoned for recovery and is reported with its detail.
pub fn branch_delete_outcome(name: &str, failure: Option<String>) -> (r: Result<(), UniError>)
    ensures
        failure is None ==> r is Ok,
        failure matches Some(d) ==> (r matches Err(UniError::ForkLifecycle { name: n, stage, message })
            && n@ == name@ && stage@ == "delete_branch"@
            && message@ == "branch delete failed; fork left Tombstoned for recovery ("@ + d@ + ")"@),
{
    match failure {
        None => Ok(()),
        Some(d) => {
            let mut v = chars_of("branch delete failed; fork left Tombstoned for recovery (");
            push_str(&mut v, d.as_str());
            push_str(&mut v, ")");
            Err(UniError::ForkLifecycle { name: owned(name), stage: owned("delete_branch"), message: string_from(&v) })
        },
    }
}

/// Dataset `d` (its name and the tags it already carries) carries fork tag
/// `tag`.
pub open spec fn carries_tag(d: (String, Vec<String>), tag: Seq<char>) -> bool {
    texts(d.1@).contains(stored_tag(tag, d.0@))
}

/// Tagging fork `fork_name` as `tag` is refused, before any tag is created,
/// when one of its datasets (each with the tags it carries, in order)
/// already carries it; the refusal names the first such dataset.
pub fn tag_precheck(fork_name: &str, tag: &str, datasets: &Vec<(String, Vec<String>)>) -> (r: Result<(), UniError>)
    ensures
        r is Ok <==> (forall|i: int| 0 <= i < datasets@.len() ==> !carries_tag(#[trigger] datasets@[i], tag@)),
        r is Err ==> exists|i: int|
            0 <= i < datasets@.len() && carries_tag(#[trigger] datasets@[i], tag@) && (forall|j: int|
                0 <= j < i ==> !carries_tag(#[trigger] datasets@[j], tag@)) && (r matches Err(
                UniError::ForkLifecycle { name, stage, message },
            ) && name@ == fork_name@ && stage@ == "tag"@ && message@ == "tag '"@ + tag@
                + "' already present on dataset '"@ + datasets@[i].0@ + "'"@),
{
    let mut i: usize = 0;
    while i < datasets.len()
        invariant
            i <= datasets@.len(),
            forall|j: int| 0 <= j < i ==> !carries_tag(#[trigger] datasets@[j], tag@),
        decreases datasets.len() - i,
    {
        let d = &datasets[i];
        let stored = lance_tag_name(tag, d.0.as_str());
        if text_in(&d.1, &stored) {
            let mut v = chars_of("tag '");
            push_str(&mut v, tag);
            push_str(&mut v, "' already present on dataset '");
            push_str(&mut v, d.0.as_str());
            push_str(&mut v, "'");
            proof {
                assert(carries_tag(datasets@[i as int], tag@));
            }
            return Err(UniError::ForkLifecycle { name: owned(fork_name), stage: owned("tag"), message: string_from(&v) });
        }
        i = i + 1;
    }
    Ok(())
}

} // verus!
