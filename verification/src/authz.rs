//! The resource an authorization policy is asked about: the labels,
//! relationship types, inline property keys and operations a parsed
//! statement touches.
use vstd::prelude::*;
use crate::text::{sorted_unique, strictly_sorted, texts};

verus! {

/// One element of a pattern path, as far as authorization reads it.
pub enum PatternElement {
    /// A node pattern: its labels and the keys of its inline property map.
    Node { labels: Vec<String>, property_keys: Vec<String> },
    /// A relationship pattern: its types and the keys of its inline property map.
    Relationship { types: Vec<String>, property_keys: Vec<String> },
    /// A parenthesized sub-path.
    Parenthesized { elements: Vec<PatternElement> },
}

/// A pattern: its paths, each a sequence of elements.
pub struct Pattern {
    pub paths: Vec<Vec<PatternElement>>,
}

/// A clause of a statement, as far as authorization reads it.
pub enum Clause {
    Match(Pattern),
    Create(Pattern),
    Merge(Pattern),
    Delete,
    SetProperties,
    Remove,
    With,
    WithRecursive,
    Unwind,
    Return,
    Call,
}

/// A parsed statement, as far as authorization reads it.
pub enum Query {
    Single(Vec<Clause>),
    Union { left: Box<Query>, right: Box<Query> },
    Explain(Box<Query>),
    TimeTravel(Box<Query>),
    /// A schema command.
    Schema,
}

/// What a pattern element names: labels (`kind` 0), relationship types
/// (`kind` 1) or inline property keys (`kind` 2).
pub open spec fn element_names(e: PatternElement, kind: int, x: Seq<char>) -> bool
    decreases e,
{
    match e {
        PatternElement::Node { labels, property_keys } => (kind == 0 && texts(labels@).contains(x)) || (kind
            == 2 && texts(property_keys@).contains(x)),
        PatternElement::Relationship { types, property_keys } => (kind == 1 && texts(types@).contains(x)) || (
        kind == 2 && texts(property_keys@).contains(x)),
        PatternElement::Parenthesized { elements } => elements_name(elements@, kind, x),
    }
}

/// Some element of `s` names `x` (see [`element_names`]).
pub open spec fn elements_name(s: Seq<PatternElement>, kind: int, x: Seq<char>) -> bool
    decreases s,
{
    if s.len() == 0 {
        false
    } else {
        elements_name(s.drop_last(), kind, x) || element_names(s.last(), kind, x)
    }
}

/// Some path of `paths` names `x`.
pub open spec fn paths_name(paths: Seq<Vec<PatternElement>>, kind: int, x: Seq<char>) -> bool {
    exists|p: int| 0 <= p < paths.len() && elements_name((#[trigger] paths[p])@, kind, x)
}

/// The pattern a clause reads or writes, if it has one.
pub open spec fn clause_pattern(c: Clause) -> Option<Pattern> {
    match c {
        Clause::Match(p) => Some(p),
        Clause::Create(p) => Some(p),
        Clause::Merge(p) => Some(p),
        _ => None,
    }
}

/// The operation names a clause stands for.
pub open spec fn clause_operation(c: Clause, op: Seq<char>) -> bool {
    match c {
        Clause::Match(_) => op == "read"@,
        Clause::Create(_) => op == "write"@,
        Clause::Merge(_) => op == "write"@,
        Clause::Delete => op == "delete"@ || op == "write"@,
        Clause::SetProperties => op == "write"@,
        Clause::Remove => op == "write"@,
        Clause::Call => op == "call"@,
        _ => op == "read"@,
    }
}

/// A clause names `x` (of `kind` 0 to 2) through its pattern, or, for
/// `kind` 3, stands for operation `x`.
pub open spec fn clause_names(c: Clause, kind: int, x: Seq<char>) -> bool {
    if kind == 3 {
        clause_operation(c, x)
    } else {
        match clause_pattern(c) {
            Some(p) => paths_name(p.paths@, kind, x),
            None => false,
        }
    }
}

/// What a statement touches: labels (`kind` 0), relationship types (1),
/// inline property keys (2) and operations (3), through every branch of a
/// union and inside an explained or time-travel statement; a schema command
/// is the operation `schema`.
pub open spec fn query_names(q: Query, kind: int, x: Seq<char>) -> bool
    decreases q,
{
    match q {
        Query::Single(clauses) => exists|i: int| 0 <= i < clauses@.len() && clause_names(
            #[trigger] clauses@[i],
            kind,
            x,
        ),
        Query::Union { left, right } => query_names(*left, kind, x) || query_names(*right, kind, x),
        Query::Explain(inner) => query_names(*inner, kind, x),
        Query::TimeTravel(inner) => query_names(*inner, kind, x),
        Query::Schema => kind == 3 && x == "schema"@,
    }
}

/// The four collections being filled: labels, types, keys, operations.
pub open spec fn acc_has(acc: (Seq<String>, Seq<String>, Seq<String>, Seq<String>), kind: int, x: Seq<char>) -> bool {
    if kind == 0 {
        texts(acc.0).contains(x)
    } else if kind == 1 {
        texts(acc.1).contains(x)
    } else if kind == 2 {
        texts(acc.2).contains(x)
    } else {
        texts(acc.3).contains(x)
    }
}

/// Appends all of `src`.
fn push_all_texts(out: &mut Vec<String>, src: &Vec<String>)
    ensures
        forall|x: Seq<char>| #[trigger] texts(final(out)@).contains(x) <==> (texts(old(out)@).contains(x)
            || texts(src@).contains(x)),
{
    let ghost start = out@;
    let mut i: usize = 0;
    while i < src.len()
        invariant
            i <= src@.len(),
            out@ == start + src@.take(i as int),
        decreases src.len() - i,
    {
        out.push(src[i].clone());
        proof {
            assert(src@.take(i + 1) =~= src@.take(i as int).push(src@[i as int]));
        }
        i = i + 1;
    }
    proof {
        assert(src@.take(src@.len() as int) =~= src@);
        assert(texts(out@) =~= texts(start) + texts(src@));
        assert forall|x: Seq<char>| #[trigger] texts(out@).contains(x) <==> (texts(start).contains(x)
            || texts(src@).contains(x)) by {
            if texts(out@).contains(x) {
                let k = choose|k: int| 0 <= k < texts(out@).len() && #[trigger] texts(out@)[k] == x;
                if k < start.len() {
                    assert(texts(start)[k] == x);
                } else {
                    assert(texts(src@)[k - start.len()] == x);
                }
            }
            if texts(start).contains(x) {
                let k = choose|k: int| 0 <= k < texts(start).len() && #[trigger] texts(start)[k] == x;
                assert(texts(out@)[k] == x);
            }
            if texts(src@).contains(x) {
                let k = choose|k: int| 0 <= k < texts(src@).len() && #[trigger] texts(src@)[k] == x;
                assert(texts(out@)[start.len() + k] == x);
            }
        }
    }
}

/// Appends `s`.
fn push_text(out: &mut Vec<String>, s: &str)
    ensures
        forall|x: Seq<char>| #[trigger] texts(final(out)@).contains(x) <==> (texts(old(out)@).contains(x)
            || x == s@),
{
    let ghost start = out@;
    out.push(crate::text::owned(s));
    proof {
        assert(texts(out@) =~= texts(start).push(s@));
        assert forall|x: Seq<char>| #[trigger] texts(out@).contains(x) <==> (texts(start).contains(x) || x
            == s@) by {
            if texts(start).contains(x) {
                let k = choose|k: int| 0 <= k < texts(start).len() && #[trigger] texts(start)[k] == x;
                assert(texts(out@)[k] == x);
            }
            if x == s@ {
                assert(texts(out@)[start.len() as int] == x);
            }
            if texts(out@).contains(x) && x != s@ {
                let k = choose|k: int| 0 <= k < texts(out@).len() && #[trigger] texts(out@)[k] == x;
                assert(texts(start)[k] == x);
            }
        }
    }
}

/// Collects what pattern element `e` names into `labels`, `types` and `keys`.
fn collect_element(e: &PatternElement, labels: &mut Vec<String>, types: &mut Vec<String>, keys: &mut Vec<String>)
    ensures
        forall|x: Seq<char>| #[trigger] texts(final(labels)@).contains(x) <==> (texts(old(labels)@).contains(x)
            || element_names(*e, 0, x)),
        forall|x: Seq<char>| #[trigger] texts(final(types)@).contains(x) <==> (texts(old(types)@).contains(x)
            || element_names(*e, 1, x)),
        forall|x: Seq<char>| #[trigger] texts(final(keys)@).contains(x) <==> (texts(old(keys)@).contains(x)
            || element_names(*e, 2, x)),
    decreases e,
{
    match e {
        PatternElement::Node { labels: ls, property_keys } => {
            push_all_texts(labels, ls);
            push_all_texts(keys, property_keys);
        },
        PatternElement::Relationship { types: ts, property_keys } => {
            push_all_texts(types, ts);
            push_all_texts(keys, property_keys);
        },
        PatternElement::Parenthesized { elements } => {
            proof {
                assert(decreases_to!(*e => elements@));
            }
            collect_elements(elements, labels, types, keys, Ghost(*e));
        },
    }
}

/// Collects what the elements `elements` (a field of `parent`) name.
fn collect_elements(
    elements: &Vec<PatternElement>,
    labels: &mut Vec<String>,
    types: &mut Vec<String>,
    keys: &mut Vec<String>,
    Ghost(parent): Ghost<PatternElement>,
)
    requires
        decreases_to!(parent => elements@),
    ensures
        forall|x: Seq<char>| #[trigger] texts(final(labels)@).contains(x) <==> (texts(old(labels)@).contains(x)
            || elements_name(elements@, 0, x)),
        forall|x: Seq<char>| #[trigger] texts(final(types)@).contains(x) <==> (texts(old(types)@).contains(x)
            || elements_name(elements@, 1, x)),
        forall|x: Seq<char>| #[trigger] texts(final(keys)@).contains(x) <==> (texts(old(keys)@).contains(x)
            || elements_name(elements@, 2, x)),
    decreases parent, 0nat,
{
    let ghost l0 = labels@;
    let ghost t0 = types@;
    let ghost k0 = keys@;
    let mut i: usize = 0;
    while i < elements.len()
        invariant
            i <= elements@.len(),
            decreases_to!(parent => elements@),
            forall|x: Seq<char>| #[trigger] texts(labels@).contains(x) <==> (texts(l0).contains(x)
                || elements_name(elements@.take(i as int), 0, x)),
            forall|x: Seq<char>| #[trigger] texts(types@).contains(x) <==> (texts(t0).contains(x)
                || elements_name(elements@.take(i as int), 1, x)),
            forall|x: Seq<char>| #[trigger] texts(keys@).contains(x) <==> (texts(k0).contains(x)
                || elements_name(elements@.take(i as int), 2, x)),
        decreases elements.len() - i,
    {
        proof {
            assert(decreases_to!(elements@ => elements@[i as int]));
            let t = elements@.take(i + 1);
            assert(t.drop_last() =~= elements@.take(i as int));
            assert(t.last() == elements@[i as int]);
        }
        collect_element(&elements[i], labels, types, keys);
        i = i + 1;
    }
    proof {
        assert(elements@.take(elements@.len() as int) =~= elements@);
    }
}

/// Collects what the paths of `pattern` name.
fn collect_pattern(pattern: &Pattern, labels: &mut Vec<String>, types: &mut Vec<String>, keys: &mut Vec<String>)
    ensures
        forall|x: Seq<char>| #[trigger] texts(final(labels)@).contains(x) <==> (texts(old(labels)@).contains(x)
            || paths_name(pattern.paths@, 0, x)),
        forall|x: Seq<char>| #[trigger] texts(final(types)@).contains(x) <==> (texts(old(types)@).contains(x)
            || paths_name(pattern.paths@, 1, x)),
        forall|x: Seq<char>| #[trigger] texts(final(keys)@).contains(x) <==> (texts(old(keys)@).contains(x)
            || paths_name(pattern.paths@, 2, x)),
{
    let ghost l0 = labels@;
    let ghost t0 = types@;
    let ghost k0 = keys@;
    let ghost paths = pattern.paths@;
    let mut p: usize = 0;
    while p < pattern.paths.len()
        invariant
            p <= paths.len(),
            paths == pattern.paths@,
            forall|x: Seq<char>| #[trigger] texts(labels@).contains(x) <==> (texts(l0).contains(x)
                || paths_name(paths.take(p as int), 0, x)),
            forall|x: Seq<char>| #[trigger] texts(types@).contains(x) <==> (texts(t0).contains(x)
                || paths_name(paths.take(p as int), 1, x)),
            forall|x: Seq<char>| #[trigger] texts(keys@).contains(x) <==> (texts(k0).contains(x)
                || paths_name(paths.take(p as int), 2, x)),
        decreases paths.len() - p,
    {
        let path = &pattern.paths[p];
        let ghost lb = labels@;
        let ghost tb = types@;
        let ghost kb = keys@;
        let ghost es = path@;
        let mut i: usize = 0;
        while i < path.len()
            invariant
                i <= es.len(),
                es == path@,
                forall|x: Seq<char>| #[trigger] texts(labels@).contains(x) <==> (texts(lb).contains(x)
                    || elements_name(es.take(i as int), 0, x)),
                forall|x: Seq<char>| #[trigger] texts(types@).contains(x) <==> (texts(tb).contains(x)
                    || elements_name(es.take(i as int), 1, x)),
                forall|x: Seq<char>| #[trigger] texts(keys@).contains(x) <==> (texts(kb).contains(x)
                    || elements_name(es.take(i as int), 2, x)),
            decreases es.len() - i,
        {
            proof {
                let t = es.take(i + 1);
                assert(t.drop_last() =~= es.take(i as int));
                assert(t.last() == es[i as int]);
            }
            collect_element(&path[i], labels, types, keys);
            i = i + 1;
        }
        proof {
            assert(es.take(es.len() as int) =~= es);
            let t = paths.take(p + 1);
            assert(t[p as int] == paths[p as int]);
            assert forall|k: int, x: Seq<char>| 0 <= k <= 2 implies #[trigger] paths_name(t, k, x) == (paths_name(
                paths.take(p as int),
                k,
                x,
            ) || elements_name(es, k, x)) by {
                if paths_name(t, k, x) {
                    let q = choose|q: int| 0 <= q < t.len() && elements_name((#[trigger] t[q])@, k, x);
                    if q < p {
                        assert(paths.take(p as int)[q] == t[q]);
                    }
                }
                if paths_name(paths.take(p as int), k, x) {
                    let q = choose|q: int| 0 <= q < p && elements_name((#[trigger] paths.take(p as int)[q])@, k, x);
                    assert(t[q] == paths.take(p as int)[q]);
                }
            }
            assert forall|x: Seq<char>| #[trigger] texts(labels@).contains(x) <==> (texts(l0).contains(x)
                || paths_name(t, 0, x)) by {
                assert(paths_name(t, 0, x) == (paths_name(paths.take(p as int), 0, x) || elements_name(es, 0, x)));
            }
            assert forall|x: Seq<char>| #[trigger] texts(types@).contains(x) <==> (texts(t0).contains(x)
                || paths_name(t, 1, x)) by {
                assert(paths_name(t, 1, x) == (paths_name(paths.take(p as int), 1, x) || elements_name(es, 1, x)));
            }
            assert forall|x: Seq<char>| #[trigger] texts(keys@).contains(x) <==> (texts(k0).contains(x)
                || paths_name(t, 2, x)) by {
                assert(paths_name(t, 2, x) == (paths_name(paths.take(p as int), 2, x) || elements_name(es, 2, x)));
            }
        }
        p = p + 1;
    }
    proof {
        assert(paths.take(paths.len() as int) =~= paths);
    }
}

/// Collects what clause `c` names and the operations it stands for.
fn collect_clause(
    c: &Clause,
    labels: &mut Vec<String>,
    types: &mut Vec<String>,
    keys: &mut Vec<String>,
    ops: &mut Vec<String>,
)
    ensures
        forall|x: Seq<char>| #[trigger] texts(final(labels)@).contains(x) <==> (texts(old(labels)@).contains(x)
            || clause_names(*c, 0, x)),
        forall|x: Seq<char>| #[trigger] texts(final(types)@).contains(x) <==> (texts(old(types)@).contains(x)
            || clause_names(*c, 1, x)),
        forall|x: Seq<char>| #[trigger] texts(final(keys)@).contains(x) <==> (texts(old(keys)@).contains(x)
            || clause_names(*c, 2, x)),
        forall|x: Seq<char>| #[trigger] texts(final(ops)@).contains(x) <==> (texts(old(ops)@).contains(x)
            || clause_names(*c, 3, x)),
{
    match c {
        Clause::Match(p) => {
            push_text(ops, "read");
            collect_pattern(p, labels, types, keys);
        },
        Clause::Create(p) => {
            push_text(ops, "write");
            collect_pattern(p, labels, types, keys);
        },
        Clause::Merge(p) => {
            push_text(ops, "write");
            collect_pattern(p, labels, types, keys);
        },
        Clause::Delete => {
            push_text(ops, "delete");
            push_text(ops, "write");
        },
        Clause::SetProperties => {
            push_text(ops, "write");
        },
        Clause::Remove => {
            push_text(ops, "write");
        },
        Clause::Call => {
            push_text(ops, "call");
        },
        _ => {
            push_text(ops, "read");
        },
    }
}

/// Collects what statement `q` touches.
fn collect_query(
    q: &Query,
    labels: &mut Vec<String>,
    types: &mut Vec<String>,
    keys: &mut Vec<String>,
    ops: &mut Vec<String>,
)
    ensures
        forall|x: Seq<char>| #[trigger] texts(final(labels)@).contains(x) <==> (texts(old(labels)@).contains(x)
            || query_names(*q, 0, x)),
        forall|x: Seq<char>| #[trigger] texts(final(types)@).contains(x) <==> (texts(old(types)@).contains(x)
            || query_names(*q, 1, x)),
        forall|x: Seq<char>| #[trigger] texts(final(keys)@).contains(x) <==> (texts(old(keys)@).contains(x)
            || query_names(*q, 2, x)),
        forall|x: Seq<char>| #[trigger] texts(final(ops)@).contains(x) <==> (texts(old(ops)@).contains(x)
            || query_names(*q, 3, x)),
    decreases q,
{
    match q {
        Query::Single(clauses) => {
            let ghost l0 = labels@;
            let ghost t0 = types@;
            let ghost k0 = keys@;
            let ghost o0 = ops@;
            let ghost cs = clauses@;
            let mut i: usize = 0;
            while i < clauses.len()
                invariant
                    i <= cs.len(),
                    cs == clauses@,
                    forall|x: Seq<char>| #[trigger] texts(labels@).contains(x) <==> (texts(l0).contains(x)
                        || exists|j: int| 0 <= j < i && clause_names(#[trigger] cs[j], 0, x)),
                    forall|x: Seq<char>| #[trigger] texts(types@).contains(x) <==> (texts(t0).contains(x)
                        || exists|j: int| 0 <= j < i && clause_names(#[trigger] cs[j], 1, x)),
                    forall|x: Seq<char>| #[trigger] texts(keys@).contains(x) <==> (texts(k0).contains(x)
                        || exists|j: int| 0 <= j < i && clause_names(#[trigger] cs[j], 2, x)),
                    forall|x: Seq<char>| #[trigger] texts(ops@).contains(x) <==> (texts(o0).contains(x)
                        || exists|j: int| 0 <= j < i && clause_names(#[trigger] cs[j], 3, x)),
                decreases cs.len() - i,
            {
                collect_clause(&clauses[i], labels, types, keys, ops);
                proof {
                    assert forall|k: int, x: Seq<char>| 0 <= k <= 3 implies (exists|j: int|
                        0 <= j < i + 1 && clause_names(#[trigger] cs[j], k, x)) == ((exists|j: int|
                        0 <= j < i && clause_names(#[trigger] cs[j], k, x)) || clause_names(cs[i as int], k, x)) by {
                        if exists|j: int| 0 <= j < i + 1 && clause_names(#[trigger] cs[j], k, x) {
                            let j = choose|j: int| 0 <= j < i + 1 && clause_names(#[trigger] cs[j], k, x);
                            if j < i {
                                assert(exists|j: int| 0 <= j < i && clause_names(#[trigger] cs[j], k, x));
                            }
                        }
                    }
                }
                i = i + 1;
            }
        },
        Query::Union { left, right } => {
            collect_query(left, labels, types, keys, ops);
            collect_query(right, labels, types, keys, ops);
        },
        Query::Explain(inner) => {
            collect_query(inner, labels, types, keys, ops);
        },
        Query::TimeTravel(inner) => {
            collect_query(inner, labels, types, keys, ops);
        },
        Query::Schema => {
            push_text(ops, "schema");
        },
    }
}

/// The labels, relationship types, inline property keys and operations a
/// statement touches (see [`query_names`]), each sorted and without repeats.
pub fn extract_authz_fields(query: &Query) -> (r: (Vec<String>, Vec<String>, Vec<String>, Vec<String>))
    ensures
        strictly_sorted(r.0@),
        strictly_sorted(r.1@),
        strictly_sorted(r.2@),
        strictly_sorted(r.3@),
        forall|x: Seq<char>| #[trigger] texts(r.0@).contains(x) <==> query_names(*query, 0, x),
        forall|x: Seq<char>| #[trigger] texts(r.1@).contains(x) <==> query_names(*query, 1, x),
        forall|x: Seq<char>| #[trigger] texts(r.2@).contains(x) <==> query_names(*query, 2, x),
        forall|x: Seq<char>| #[trigger] texts(r.3@).contains(x) <==> query_names(*query, 3, x),
{
    let mut labels: Vec<String> = Vec::new();
    let mut types: Vec<String> = Vec::new();
    let mut keys: Vec<String> = Vec::new();
    let mut ops: Vec<String> = Vec::new();
    proof {
        assert forall|x: Seq<char>| !texts(Seq::<String>::empty()).contains(x) by {}
    }
    collect_query(query, &mut labels, &mut types, &mut keys, &mut ops);
    (sorted_unique(&labels), sorted_unique(&types), sorted_unique(&keys), sorted_unique(&ops))
}

} // verus!
