//! Shallow classification of a Cypher statement into the authorization verb
//! consulted by access policies.
use vstd::prelude::*;
use crate::text::{
    all_ascii, ascii_lower, ascii_lower_char, ascii_upper, ascii_upper_char, chars_of, char_upper, char_whitespace, leading_ws, lemma_leading_ws_bound, push_all, starts_with, text_starts_with, trim_start,
    trim_start_chars, upper_of,
};

verus! {

/// How many leading characters of the trimmed statement are inspected.
pub const VERB_WINDOW: usize = 32;

/// The inspected window: the first (at most) 32 characters of the statement
/// after leading whitespace, each mapped to its uppercase form.
pub open spec fn verb_window(cypher: Seq<char>) -> Seq<char> {
    let t = trim_start(cypher);
    let n = if t.len() < VERB_WINDOW { t.len() as int } else { VERB_WINDOW as int };
    t.take(n).flat_map(|c: char| char_upper(c))
}

/// The window opens a schema command.
pub open spec fn is_schema_window(p: Seq<char>) -> bool {
    ||| starts_with(p, "CREATE INDEX"@)
    ||| starts_with(p, "DROP INDEX"@)
    ||| starts_with(p, "CREATE LABEL"@)
    ||| starts_with(p, "DROP LABEL"@)
    ||| starts_with(p, "CREATE CONSTRAINT"@)
    ||| starts_with(p, "DROP CONSTRAINT"@)
}

/// The window opens a user/role administration command.
pub open spec fn is_dbms_window(p: Seq<char>) -> bool {
    ||| starts_with(p, "CREATE USER"@)
    ||| starts_with(p, "DROP USER"@)
    ||| starts_with(p, "ALTER USER"@)
    ||| starts_with(p, "GRANT "@)
    ||| starts_with(p, "REVOKE "@)
    ||| starts_with(p, "SHOW USERS"@)
    ||| starts_with(p, "SHOW ROLES"@)
}

/// The verb a statement authorizes under: `"schema"`, `"dbms"` or `"write"`.
pub open spec fn verb_for(cypher: Seq<char>) -> Seq<char> {
    let p = verb_window(cypher);
    if is_schema_window(p) {
        "schema"@
    } else if is_dbms_window(p) {
        "dbms"@
    } else {
        "write"@
    }
}

fn window_of(cypher: &str) -> (p: Vec<char>)
    ensures
        p@ == verb_window(cypher@),
{
    let chars = chars_of(cypher);
    let t = trim_start_chars(&chars);
    let n: usize = if t.len() < VERB_WINDOW { t.len() } else { VERB_WINDOW };
    let ghost f = |c: char| char_upper(c);
    let mut p: Vec<char> = Vec::new();
    let mut i: usize = 0;
    while i < n
        invariant
            n <= t.len(),
            i <= n,
            f == (|c: char| char_upper(c)),
            p@ == t@.take(i as int).flat_map(f),
        decreases n - i,
    {
        let u = upper_of(t[i]);
        push_all(&mut p, &u);
        proof {
            assert(t@.take(i + 1) =~= t@.take(i as int).push(t@[i as int]));
            t@.take(i as int).lemma_flat_map_push(f, t@[i as int]);
        }
        i = i + 1;
    }
    p
}

/// Classify a Cypher payload as `"write"`, `"schema"`, or `"dbms"` for the
/// purposes of authorization-policy consultation.
///
/// Only the first 32 characters (not bytes) after leading whitespace are
/// inspected, uppercased; text of any length and encoding is accepted.
pub fn classify_verb(cypher: &str) -> (r: &'static str)
    ensures
        r@ == verb_for(cypher@),
{
    let p = window_of(cypher);
    if text_starts_with(&p, "CREATE INDEX")
        || text_starts_with(&p, "DROP INDEX")
        || text_starts_with(&p, "CREATE LABEL")
        || text_starts_with(&p, "DROP LABEL")
        || text_starts_with(&p, "CREATE CONSTRAINT")
        || text_starts_with(&p, "DROP CONSTRAINT")
    {
        return "schema";
    }
    if text_starts_with(&p, "CREATE USER")
        || text_starts_with(&p, "DROP USER")
        || text_starts_with(&p, "ALTER USER")
        || text_starts_with(&p, "GRANT ")
        || text_starts_with(&p, "REVOKE ")
        || text_starts_with(&p, "SHOW USERS")
        || text_starts_with(&p, "SHOW ROLES")
    {
        return "dbms";
    }
    "write"
}

/// Text after the leading whitespace run is untouched by appending, once
/// the statement holds something other than whitespace.
proof fn lemma_leading_ws_append(s: Seq<char>, tail: Seq<char>)
    requires
        leading_ws(s) < s.len(),
    ensures
        leading_ws(s + tail) == leading_ws(s),
    decreases s.len(),
{
    if s.len() > 0 && char_whitespace(s[0]) {
        assert((s + tail).drop_first() =~= s.drop_first() + tail);
        lemma_leading_ws_append(s.drop_first(), tail);
    }
}

/// Only the first 32 characters after leading whitespace decide the verb:
/// whatever follows them, of any length and encoding, changes nothing.
pub proof fn law_verb_ignores_text_after_window(s: Seq<char>, tail: Seq<char>)
    requires
        trim_start(s).len() >= VERB_WINDOW,
    ensures
        verb_for(s + tail) == verb_for(s),
{
    lemma_leading_ws_bound(s);
    lemma_leading_ws_append(s, tail);
    assert(trim_start(s + tail) =~= trim_start(s) + tail);
    assert(trim_start(s + tail).take(VERB_WINDOW as int) =~= trim_start(s).take(VERB_WINDOW as int));
    assert(verb_window(s + tail) == verb_window(s));
}

/// A character map that, on ASCII, keeps characters ASCII, keeps whether
/// they are whitespace and keeps their uppercase form.
spec fn case_blind(g: spec_fn(char) -> char) -> bool {
    forall|c: char|
        #![trigger g(c)]
        (c as u32) < 128 ==> ((g(c) as u32) < 128 && char_whitespace(g(c)) == char_whitespace(c)
            && char_upper(g(c)) == char_upper(c))
}

proof fn lemma_leading_ws_case_blind(s: Seq<char>, g: spec_fn(char) -> char)
    requires
        all_ascii(s),
        case_blind(g),
    ensures
        leading_ws(s.map_values(g)) == leading_ws(s),
    decreases s.len(),
{
    if s.len() > 0 {
        assert(s.map_values(g).drop_first() =~= s.drop_first().map_values(g));
        assert((s[0] as u32) < 128);
        assert(s.map_values(g)[0] == g(s[0]));
        lemma_leading_ws_case_blind(s.drop_first(), g);
    }
}

proof fn lemma_upper_case_blind(t: Seq<char>, g: spec_fn(char) -> char)
    requires
        all_ascii(t),
        case_blind(g),
    ensures
        t.map_values(g).flat_map(|c: char| char_upper(c)) == t.flat_map(|c: char| char_upper(c)),
    decreases t.len(),
{
    let f = |c: char| char_upper(c);
    if t.len() == 0 {
        assert(t.map_values(g) =~= Seq::<char>::empty());
        assert(t =~= Seq::<char>::empty());
    } else {
        let u = t.drop_last();
        let x = t.last();
        assert(t =~= u.push(x));
        assert(t.map_values(g) =~= u.map_values(g).push(g(x)));
        lemma_upper_case_blind(u, g);
        u.lemma_flat_map_push(f, x);
        u.map_values(g).lemma_flat_map_push(f, g(x));
        assert((x as u32) < 128);
    }
}

proof fn lemma_verb_case_blind(s: Seq<char>, g: spec_fn(char) -> char)
    requires
        all_ascii(s),
        case_blind(g),
    ensures
        verb_window(s.map_values(g)) == verb_window(s),
{
    let m = s.map_values(g);
    lemma_leading_ws_case_blind(s, g);
    lemma_leading_ws_bound(s);
    let t = trim_start(s);
    assert(trim_start(m) =~= t.map_values(g));
    let n = if t.len() < VERB_WINDOW { t.len() as int } else { VERB_WINDOW as int };
    assert(t.map_values(g).take(n) =~= t.take(n).map_values(g));
    lemma_upper_case_blind(t.take(n), g);
}

/// The verb of an ASCII statement does not depend on the case of its
/// letters: lowering or raising them all gives the same verb.
pub proof fn law_verb_ignores_ascii_case(s: Seq<char>)
    requires
        all_ascii(s),
    ensures
        verb_for(ascii_lower(s)) == verb_for(s),
        verb_for(ascii_upper(s)) == verb_for(s),
{
    let lo = |c: char| ascii_lower_char(c);
    let hi = |c: char| ascii_upper_char(c);
    assert(case_blind(lo));
    assert(case_blind(hi));
    lemma_verb_case_blind(s, lo);
    lemma_verb_case_blind(s, hi);
}

/// A statement whose inspected window opens a user or role command
/// (CREATE USER, DROP USER, ALTER USER, GRANT, REVOKE, SHOW USERS, SHOW
/// ROLES) and no schema command is a dbms statement; one opening a schema
/// command (CREATE or DROP of an INDEX, LABEL or CONSTRAINT) is a schema
/// statement; any other is a write.
pub proof fn law_verb_by_command(s: Seq<char>)
    ensures
        ({
            let p = verb_window(s);
            let schema = starts_with(p, "CREATE INDEX"@) || starts_with(p, "DROP INDEX"@) || starts_with(
                p,
                "CREATE LABEL"@,
            ) || starts_with(p, "DROP LABEL"@) || starts_with(p, "CREATE CONSTRAINT"@) || starts_with(
                p,
                "DROP CONSTRAINT"@,
            );
            let dbms = starts_with(p, "CREATE USER"@) || starts_with(p, "DROP USER"@) || starts_with(
                p,
                "ALTER USER"@,
            ) || starts_with(p, "GRANT "@) || starts_with(p, "REVOKE "@) || starts_with(p, "SHOW USERS"@)
                || starts_with(p, "SHOW ROLES"@);
            &&& schema ==> verb_for(s) == "schema"@
            &&& !schema && dbms ==> verb_for(s) == "dbms"@
            &&& !schema && !dbms ==> verb_for(s) == "write"@
        }),
{
}

} // verus!
