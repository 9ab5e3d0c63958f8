//! Named parameters: a map from names to values, each name bound once.
use vstd::prelude::*;
use crate::value::Value;

verus! {

/// No name is bound twice.
pub open spec fn distinct_names<V>(e: Seq<(String, V)>) -> bool {
    forall|i: int, j: int| 0 <= i < j < e.len() ==> (#[trigger] e[i]).0@ != (#[trigger] e[j]).0@
}

/// Some entry binds `name`.
pub open spec fn binds<V>(e: Seq<(String, V)>, name: Seq<char>) -> bool {
    exists|i: int| 0 <= i < e.len() && (#[trigger] e[i]).0@ == name
}

/// The entries as a map from name to value.
pub open spec fn entry_map<V>(e: Seq<(String, V)>) -> Map<Seq<char>, V> {
    Map::new(
        |k: Seq<char>| binds(e, k),
        |k: Seq<char>| e[choose|i: int| 0 <= i < e.len() && (#[trigger] e[i]).0@ == k].1,
    )
}

pub proof fn lemma_entry_at<V>(e: Seq<(String, V)>, i: int)
    requires
        distinct_names(e),
        0 <= i < e.len(),
    ensures
        entry_map(e).contains_key(e[i].0@),
        entry_map(e)[e[i].0@] == e[i].1,
{
    assert(binds(e, e[i].0@));
    let j = choose|j: int| 0 <= j < e.len() && (#[trigger] e[j]).0@ == e[i].0@;
    if j != i {
        if j < i {
            assert(e[j].0@ != e[i].0@);
        } else {
            assert(e[i].0@ != e[j].0@);
        }
    }
}

fn position<V>(e: &Vec<(String, V)>, name: &str) -> (r: Option<usize>)
    ensures
        match r {
            Some(i) => i < e@.len() && e@[i as int].0@ == name@,
            None => !binds(e@, name@),
        },
{
    let n = crate::text::owned(name);
    let mut i: usize = 0;
    while i < e.len()
        invariant
            i <= e@.len(),
            n@ == name@,
            forall|j: int| 0 <= j < i ==> (#[trigger] e@[j]).0@ != name@,
        decreases e.len() - i,
    {
        if e[i].0 == n {
            return Some(i);
        }
        i = i + 1;
    }
    None
}

/// Binds `name` to `value` in `entries`, replacing any earlier binding.
pub(crate) fn bind_entry<V>(entries: &mut Vec<(String, V)>, name: String, value: V)
    requires
        distinct_names(old(entries)@),
    ensures
        distinct_names(final(entries)@),
        entry_map(final(entries)@) == entry_map(old(entries)@).insert(name@, value),
{
    let ghost before = entries@;
    let ghost v = value;
    match position(&entries, name.as_str()) {
        Some(i) => {
            entries.remove(i);
            entries.insert(i, (name, value));
            proof {
                let e = entries@;
                assert(e =~= before.update(i as int, e[i as int]));
                assert forall|x: int, y: int| 0 <= x < y < e.len() implies (#[trigger] e[x]).0@
                    != (#[trigger] e[y]).0@ by {
                    assert(before[x].0@ != before[y].0@);
                }
                lemma_entry_at(e, i as int);
                assert forall|k: Seq<char>| #[trigger] entry_map(e).contains_key(k) == entry_map(before).insert(name@, v).contains_key(k) by {
                    if binds(before, k) {
                        let j = choose|j: int| 0 <= j < before.len() && (#[trigger] before[j]).0@ == k;
                        assert(e[j].0@ == k);
                    }
                    if binds(e, k) {
                        let j = choose|j: int| 0 <= j < e.len() && (#[trigger] e[j]).0@ == k;
                        assert(before[j].0@ == k);
                    }
                }
                assert forall|k: Seq<char>| #[trigger] entry_map(e).contains_key(k) implies entry_map(e)[k] == entry_map(before).insert(name@, v)[k] by {
                    if k != name@ {
                        let j = choose|j: int| 0 <= j < before.len() && (#[trigger] before[j]).0@ == k;
                        lemma_entry_at(before, j);
                        lemma_entry_at(e, j);
                    }
                }
                assert(entry_map(e) =~= entry_map(before).insert(name@, v));
            }
        },
        None => {
            entries.push((name, value));
            proof {
                let e = entries@;
                let last = e.len() - 1;
                assert forall|x: int, y: int| 0 <= x < y < e.len() implies (#[trigger] e[x]).0@
                    != (#[trigger] e[y]).0@ by {
                    if y == last {
                        assert(before[x].0@ != name@);
                    } else {
                        assert(before[x].0@ != before[y].0@);
                    }
                }
                lemma_entry_at(e, last);
                assert forall|k: Seq<char>| #[trigger] entry_map(e).contains_key(k) == entry_map(before).insert(name@, v).contains_key(k) by {
                    if binds(before, k) {
                        let j = choose|j: int| 0 <= j < before.len() && (#[trigger] before[j]).0@ == k;
                        assert(e[j].0@ == k);
                    }
                    if binds(e, k) {
                        let j = choose|j: int| 0 <= j < e.len() && (#[trigger] e[j]).0@ == k;
                        if j < last {
                            assert(before[j].0@ == k);
                        }
                    }
                }
                assert forall|k: Seq<char>| #[trigger] entry_map(e).contains_key(k) implies entry_map(e)[k] == entry_map(before).insert(name@, v)[k] by {
                    if k != name@ {
                        let j = choose|j: int| 0 <= j < before.len() && (#[trigger] before[j]).0@ == k;
                        lemma_entry_at(before, j);
                        lemma_entry_at(e, j);
                    }
                }
                assert(entry_map(e) =~= entry_map(before).insert(name@, v));
            }
        },
    }
}


/// `m` after binding each pair of `params` in order.
pub open spec fn bound_in_order(m: Map<Seq<char>, Value>, params: Seq<(String, Value)>) -> Map<Seq<char>, Value>
    decreases params.len(),
{
    if params.len() == 0 {
        m
    } else {
        bound_in_order(m, params.drop_last()).insert(params.last().0@, params.last().1)
    }
}

/// Parameters by name.
pub struct Params {
    entries: Vec<(String, Value)>,
}

impl Params {
    /// The bound parameters.
    pub open spec fn view_map(&self) -> Map<Seq<char>, Value> {
        entry_map(self.spec_entries())
    }

    /// Each name is bound once.
    pub open spec fn wf(&self) -> bool {
        distinct_names(self.spec_entries())
    }

    /// The entries in binding order.
    pub closed spec fn spec_entries(&self) -> Seq<(String, Value)> {
        self.entries@
    }

    /// No parameters.
    pub fn new() -> (r: Self)
        ensures
            r.wf(),
            r.view_map() == Map::<Seq<char>, Value>::empty(),
            r.spec_entries().len() == 0,
    {
        let r = Params { entries: Vec::new() };
        proof {
            assert(entry_map(r.entries@) =~= Map::<Seq<char>, Value>::empty());
        }
        r
    }

    /// Number of bound parameters.
    pub fn len(&self) -> (r: usize)
        requires
            self.wf(),
        ensures
            r == self.view_map().len(),
    {
        proof {
            self.lemma_len();
        }
        self.entries.len()
    }

    proof fn lemma_len(&self)
        requires
            self.wf(),
        ensures
            self.view_map().len() == self.entries@.len(),
            self.view_map().dom().finite(),
    {
        let e = self.entries@;
        let names = e.map_values(|p: (String, Value)| p.0@);
        assert forall|i: int, j: int| 0 <= i < names.len() && 0 <= j < names.len() && i != j implies names[i] != names[j] by {
            if i < j {
                assert(e[i].0@ != e[j].0@);
            } else {
                assert(e[j].0@ != e[i].0@);
            }
        }
        assert(names.no_duplicates());
        names.unique_seq_to_set();
        assert forall|k: Seq<char>| names.to_set().contains(k) <==> self.view_map().dom().contains(k) by {
            if names.to_set().contains(k) {
                let i = choose|i: int| 0 <= i < names.len() && names[i] == k;
                assert(e[i].0@ == k);
            }
            if self.view_map().dom().contains(k) {
                let i = choose|i: int| 0 <= i < e.len() && (#[trigger] e[i]).0@ == k;
                assert(names[i] == k);
            }
        }
        assert(names.to_set() =~= self.view_map().dom());
    }

    /// Whether no parameter is bound.
    pub fn is_empty(&self) -> (r: bool)
        requires
            self.wf(),
        ensures
            r == (self.view_map().len() == 0),
    {
        self.len() == 0
    }

    /// The value bound to `name`.
    pub fn get(&self, name: &str) -> (r: Option<&Value>)
        requires
            self.wf(),
        ensures
            match r {
                Some(v) => self.view_map().contains_key(name@) && *v == self.view_map()[name@],
                None => !self.view_map().contains_key(name@),
            },
    {
        match position(&self.entries, name) {
            Some(i) => {
                proof {
                    lemma_entry_at(self.entries@, i as int);
                }
                Some(&self.entries[i].1)
            },
            None => None,
        }
    }

    /// Binds `name` to `value`, replacing any earlier binding.
    pub fn set(&mut self, name: String, value: Value)
        requires
            old(self).wf(),
        ensures
            final(self).wf(),
            final(self).view_map() == old(self).view_map().insert(name@, value),
    {
        bind_entry(&mut self.entries, name, value);
    }

    /// Removes the binding of `name`, handing out its value.
    pub fn unset(&mut self, name: &str) -> (r: Option<Value>)
        requires
            old(self).wf(),
        ensures
            final(self).wf(),
            final(self).view_map() == old(self).view_map().remove(name@),
            match r {
                Some(v) => old(self).view_map().contains_key(name@) && v == old(self).view_map()[name@],
                None => !old(self).view_map().contains_key(name@),
            },
    {
        let ghost before = self.entries@;
        match position(&self.entries, name) {
            Some(i) => {
                proof {
                    lemma_entry_at(before, i as int);
                }
                let (_k, v) = self.entries.remove(i);
                proof {
                    let e = self.entries@;
                    assert(e =~= before.remove(i as int));
                    assert forall|x: int, y: int| 0 <= x < y < e.len() implies (#[trigger] e[x]).0@
                        != (#[trigger] e[y]).0@ by {
                        let x0 = if x < i { x } else { x + 1 };
                        let y0 = if y < i { y } else { y + 1 };
                        assert(e[x] == before[x0]);
                        assert(e[y] == before[y0]);
                        assert(before[x0].0@ != before[y0].0@);
                    }
                    assert forall|k: Seq<char>| #[trigger] entry_map(e).contains_key(k) == entry_map(before).remove(name@).contains_key(k) by {
                        if binds(before, k) && k != name@ {
                            let j = choose|j: int| 0 <= j < before.len() && (#[trigger] before[j]).0@ == k;
                            assert(j != i);
                            if j < i {
                                assert(e[j].0@ == k);
                            } else {
                                assert(e[j - 1].0@ == k);
                            }
                        }
                        if binds(e, k) {
                            let j = choose|j: int| 0 <= j < e.len() && (#[trigger] e[j]).0@ == k;
                            let j0 = if j < i { j } else { j + 1 };
                            assert(before[j0].0@ == k);
                            if k == name@ {
                                if j0 < i {
                                    assert(before[j0].0@ != before[i as int].0@);
                                } else {
                                    assert(before[i as int].0@ != before[j0].0@);
                                }
                            }
                        }
                    }
                    assert forall|k: Seq<char>| #[trigger] entry_map(e).contains_key(k) implies entry_map(e)[k] == entry_map(before).remove(name@)[k] by {
                        let j = choose|j: int| 0 <= j < e.len() && (#[trigger] e[j]).0@ == k;
                        let j0 = if j < i { j } else { j + 1 };
                        assert(e[j] == before[j0]);
                        lemma_entry_at(before, j0);
                        lemma_entry_at(e, j);
                    }
                    assert(entry_map(e) =~= entry_map(before).remove(name@));
                }
                Some(v)
            },
            None => {
                proof {
                    assert(entry_map(before) =~= entry_map(before).remove(name@));
                }
                None
            },
        }
    }

    /// Binds every parameter of `other`, replacing earlier bindings of the
    /// same names.
    pub fn extend(&mut self, other: Params)
        requires
            old(self).wf(),
            other.wf(),
        ensures
            final(self).wf(),
            final(self).view_map() == old(self).view_map().union_prefer_right(other.view_map()),
    {
        let ghost oe = other.spec_entries();
        let ghost om = other.view_map();
        let ghost start = self.view_map();
        let entries = other.into_entries();
        for e in it: entries
            invariant
                it.seq() == oe,
                distinct_names(oe),
                om == entry_map(oe),
                self.wf(),
                self.view_map() == start.union_prefer_right(entry_map(oe.take(it.index()))),
        {
            let ghost idx = it.index();
            let (k, v) = e;
            self.set(k, v);
            proof {
                let t = oe.take(idx + 1);
                assert(t.drop_last() =~= oe.take(idx));
                assert forall|x: int, y: int| 0 <= x < y < t.len() implies (#[trigger] t[x]).0@ != (#[trigger] t[y]).0@ by {
                    assert(oe[x].0@ != oe[y].0@);
                }
                lemma_entry_at(t, idx);
                assert forall|kk: Seq<char>| #[trigger] entry_map(t).contains_key(kk) == entry_map(oe.take(idx)).insert(oe[idx].0@, oe[idx].1).contains_key(kk) by {
                    if binds(oe.take(idx), kk) {
                        let j = choose|j: int| 0 <= j < oe.take(idx).len() && (#[trigger] oe.take(idx)[j]).0@ == kk;
                        assert(t[j].0@ == kk);
                    }
                    if binds(t, kk) {
                        let j = choose|j: int| 0 <= j < t.len() && (#[trigger] t[j]).0@ == kk;
                        if j < idx {
                            assert(oe.take(idx)[j].0@ == kk);
                        }
                    }
                }
                assert forall|kk: Seq<char>| #[trigger] entry_map(t).contains_key(kk) implies entry_map(t)[kk] == entry_map(oe.take(idx)).insert(oe[idx].0@, oe[idx].1)[kk] by {
                    if kk != oe[idx].0@ {
                        let j = choose|j: int| 0 <= j < oe.take(idx).len() && (#[trigger] oe.take(idx)[j]).0@ == kk;
                        assert forall|x: int, y: int| 0 <= x < y < oe.take(idx).len() implies (#[trigger] oe.take(idx)[x]).0@ != (#[trigger] oe.take(idx)[y]).0@ by {
                            assert(oe[x].0@ != oe[y].0@);
                        }
                        lemma_entry_at(oe.take(idx), j);
                        lemma_entry_at(t, j);
                    }
                }
                assert(entry_map(t) =~= entry_map(oe.take(idx)).insert(oe[idx].0@, oe[idx].1));
                assert(self.view_map() =~= start.union_prefer_right(entry_map(t)));
            }
        }
        proof {
            assert(oe.take(oe.len() as int) =~= oe);
        }
    }

    /// Binds each `(name, value)` of `params` in order; a later binding of a
    /// name replaces an earlier one.
    pub fn set_all(&mut self, params: Vec<(String, Value)>)
        requires
            old(self).wf(),
        ensures
            final(self).wf(),
            final(self).view_map() == bound_in_order(old(self).view_map(), params@),
    {
        let ghost all = params@;
        let ghost start = self.view_map();
        for p in it: params
            invariant
                it.seq() == all,
                self.wf(),
                self.view_map() == bound_in_order(start, all.take(it.index() as int)),
        {
            let ghost idx = it.index();
            let (k, v) = p;
            self.set(k, v);
            proof {
                assert(all.take(idx + 1).drop_last() =~= all.take(idx));
            }
        }
        proof {
            assert(all.take(all.len() as int) =~= all);
        }
    }

    /// All bindings, in binding order.
    pub fn get_all(&self) -> (r: &Vec<(String, Value)>)
        ensures
            r@ == self.spec_entries(),
    {
        &self.entries
    }

    /// The bindings, consuming the map.
    pub fn into_entries(self) -> (r: Vec<(String, Value)>)
        ensures
            r@ == self.spec_entries(),
    {
        self.entries
    }
}

/// Binding `name` then reading it gives the value bound.
pub proof fn law_set_then_get(before: Map<Seq<char>, Value>, name: Seq<char>, v: Value)
    ensures
        before.insert(name, v).contains_key(name),
        before.insert(name, v)[name] == v,
{
}

/// Removing a binding leaves every other binding as it was.
pub proof fn law_unset_keeps_others(before: Map<Seq<char>, Value>, name: Seq<char>, other: Seq<char>)
    requires
        other != name,
    ensures
        before.remove(name).contains_key(other) == before.contains_key(other),
        before.contains_key(other) ==> before.remove(name)[other] == before[other],
{
}

} // verus!
