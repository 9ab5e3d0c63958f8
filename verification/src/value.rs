//! Property and parameter values, their byte encoding (used for hashing),
//! their size estimate and their key rendering.
use vstd::prelude::*;
use crate::text::{int_text, nat_digits, push_all, push_i64, push_u64, chars_of};

verus! {

/// A property or parameter value.
///
/// Floating-point numbers are carried as their IEEE-754 bit patterns
/// (`Float` holds the bits of an `f64`, `Vector` the bits of `f32`s), so that
/// values can be stored, compared for identity, hashed and sized here.
#[derive(Debug, PartialEq)]
pub enum Value {
    Null,
    Bool(bool),
    Int(i64),
    Float(u64),
    String(String),
    Bytes(Vec<u8>),
    List(Vec<Value>),
    Dict(Vec<(String, Value)>),
    Vector(Vec<u32>),
    Node { vid: u64, labels: Vec<String>, properties: Vec<(String, Value)> },
    Edge { eid: u64, edge_type: String, properties: Vec<(String, Value)> },
}

impl Value {
    /// Whether the value is `Null`.
    pub fn is_null(&self) -> (r: bool)
        ensures
            r == (*self is Null),
    {
        match self {
            Value::Null => true,
            _ => false,
        }
    }
}

/// Little-endian bytes of a 64-bit number.
pub open spec fn u64_bytes(n: u64) -> Seq<u8> {
    Seq::new(8, |i: int| ((n as int / pow256(i)) % 256) as u8)
}

/// 256 to the power `i`.
pub open spec fn pow256(i: int) -> int
    decreases i,
{
    if i <= 0 { 1 } else { 256 * pow256(i - 1) }
}

/// Little-endian bytes of a 32-bit number.
pub open spec fn u32_bytes(n: u32) -> Seq<u8> {
    Seq::new(4, |i: int| ((n as int / pow256(i)) % 256) as u8)
}

/// Appends the little-endian bytes of `n`.
pub fn push_u64_bytes(out: &mut Vec<u8>, n: u64)
    ensures
        final(out)@ == old(out)@ + u64_bytes(n),
{
    let mut m: u64 = n;
    let mut i: usize = 0;
    while i < 8
        invariant
            i <= 8,
            m as int == n as int / pow256(i as int),
            out@.len() == old(out)@.len() + i,
            out@.subrange(0, old(out)@.len() as int) == old(out)@,
            forall|k: int| 0 <= k < i ==> out@[old(out)@.len() + k] == u64_bytes(n)[k],
        decreases 8 - i,
    {
        proof {
            assert(pow256(i + 1) == 256 * pow256(i as int));
            assert(pow256(i as int) > 0) by {
                lemma_pow256_pos(i as int);
            }
            vstd::arithmetic::div_mod::lemma_div_denominator(n as int, pow256(i as int), 256);
        }
        out.push((m % 256) as u8);
        m = m / 256;
        i = i + 1;
    }
    proof {
        assert(out@ =~= old(out)@ + u64_bytes(n));
    }
}

/// Appends the little-endian bytes of `n`.
pub fn push_u32_bytes(out: &mut Vec<u8>, n: u32)
    ensures
        final(out)@ == old(out)@ + u32_bytes(n),
{
    let mut m: u32 = n;
    let mut i: usize = 0;
    while i < 4
        invariant
            i <= 4,
            m as int == n as int / pow256(i as int),
            out@.len() == old(out)@.len() + i,
            out@.subrange(0, old(out)@.len() as int) == old(out)@,
            forall|k: int| 0 <= k < i ==> out@[old(out)@.len() + k] == u32_bytes(n)[k],
        decreases 4 - i,
    {
        proof {
            assert(pow256(i + 1) == 256 * pow256(i as int));
            assert(pow256(i as int) > 0) by {
                lemma_pow256_pos(i as int);
            }
            vstd::arithmetic::div_mod::lemma_div_denominator(n as int, pow256(i as int), 256);
        }
        out.push((m % 256) as u8);
        m = m / 256;
        i = i + 1;
    }
    proof {
        assert(out@ =~= old(out)@ + u32_bytes(n));
    }
}

proof fn lemma_pow256_pos(i: int)
    ensures
        pow256(i) > 0,
    decreases i,
{
    if i > 0 {
        lemma_pow256_pos(i - 1);
    }
}

/// The UTF-8 bytes of a text.
pub open spec fn text_bytes(s: Seq<char>) -> Seq<u8> {
    vstd::utf8::encode_utf8(s)
}

/// Length-prefixed bytes: the count as 8 bytes, then the bytes.
pub open spec fn framed(b: Seq<u8>) -> Seq<u8> {
    u64_bytes(b.len() as u64) + b
}

/// The canonical byte encoding of a value: a tag byte, then the payload with
/// every variable-length part prefixed by its length.
pub open spec fn value_bytes(v: Value) -> Seq<u8>
    decreases v,
{
    match v {
        Value::Null => seq![0u8],
        Value::Bool(b) => seq![1u8, if b { 1u8 } else { 0u8 }],
        Value::Int(i) => seq![2u8] + u64_bytes(i as u64),
        Value::Float(bits) => seq![3u8] + u64_bytes(bits),
        Value::String(s) => seq![4u8] + framed(text_bytes(s@)),
        Value::Bytes(b) => seq![5u8] + framed(b@),
        Value::List(l) => seq![6u8] + u64_bytes(l@.len() as u64) + list_bytes(l@),
        Value::Dict(m) => seq![7u8] + u64_bytes(m@.len() as u64) + pairs_bytes(m@),
        Value::Vector(x) => seq![8u8] + u64_bytes(x@.len() as u64) + words_bytes(x@),
        Value::Node { vid, labels, properties } => seq![9u8] + u64_bytes(vid)
            + u64_bytes(labels@.len() as u64) + texts_bytes(labels@)
            + u64_bytes(properties@.len() as u64) + pairs_bytes(properties@),
        Value::Edge { eid, edge_type, properties } => seq![10u8] + u64_bytes(eid)
            + framed(text_bytes(edge_type@)) + u64_bytes(properties@.len() as u64)
            + pairs_bytes(properties@),
    }
}

/// Concatenated encodings of the values of a list.
pub open spec fn list_bytes(l: Seq<Value>) -> Seq<u8>
    decreases l,
{
    if l.len() == 0 {
        Seq::empty()
    } else {
        list_bytes(l.drop_last()) + value_bytes(l.last())
    }
}

/// Concatenated encodings of key/value pairs.
pub open spec fn pairs_bytes(m: Seq<(String, Value)>) -> Seq<u8>
    decreases m,
{
    if m.len() == 0 {
        Seq::empty()
    } else {
        pairs_bytes(m.drop_last()) + framed(text_bytes(m.last().0@)) + value_bytes(m.last().1)
    }
}

/// Concatenated framed encodings of texts.
pub open spec fn texts_bytes(t: Seq<String>) -> Seq<u8>
    decreases t.len(),
{
    if t.len() == 0 {
        Seq::empty()
    } else {
        texts_bytes(t.drop_last()) + framed(text_bytes(t.last()@))
    }
}

/// Concatenated bytes of 32-bit words.
pub open spec fn words_bytes(w: Seq<u32>) -> Seq<u8>
    decreases w.len(),
{
    if w.len() == 0 {
        Seq::empty()
    } else {
        words_bytes(w.drop_last()) + u32_bytes(w.last())
    }
}

/// Appends the length-prefixed UTF-8 bytes of `s`.
pub fn push_framed_text(out: &mut Vec<u8>, s: &String)
    ensures
        final(out)@ == old(out)@ + framed(text_bytes(s@)),
{
    let b = s.as_str().as_bytes();
    push_u64_bytes(out, b.len() as u64);
    let mut i: usize = 0;
    let ghost start = out@;
    while i < b.len()
        invariant
            i <= b@.len(),
            b@ == text_bytes(s@),
            out@ == start + b@.take(i as int),
        decreases b.len() - i,
    {
        out.push(b[i]);
        i = i + 1;
        proof {
            assert(b@.take(i as int) =~= b@.take(i - 1).push(b@[i - 1]));
        }
    }
    proof {
        assert(b@.take(b.len() as int) =~= b@);
        assert(old(out)@ + u64_bytes(b@.len() as u64) + b@ =~= old(out)@ + framed(b@));
    }
}

/// Appends the canonical encoding of `v` (see [`value_bytes`]).
pub fn push_value_bytes(out: &mut Vec<u8>, v: &Value)
    ensures
        final(out)@ == old(out)@ + value_bytes(*v),
    decreases v, 1nat,
{
    match v {
        Value::Null => {
            out.push(0u8);
        },
        Value::Bool(b) => {
            out.push(1u8);
            out.push(if *b { 1u8 } else { 0u8 });
        },
        Value::Int(i) => {
            out.push(2u8);
            push_u64_bytes(out, #[verifier::truncate] (*i as u64));
        },
        Value::Float(bits) => {
            out.push(3u8);
            push_u64_bytes(out, *bits);
        },
        Value::String(s) => {
            out.push(4u8);
            push_framed_text(out, s);
        },
        Value::Bytes(b) => {
            out.push(5u8);
            push_u64_bytes(out, b.len() as u64);
            let mut i: usize = 0;
            let ghost start = out@;
            while i < b.len()
                invariant
                    i <= b@.len(),
                    out@ == start + b@.take(i as int),
                decreases b.len() - i,
            {
                out.push(b[i]);
                i = i + 1;
                proof {
                    assert(b@.take(i as int) =~= b@.take(i - 1).push(b@[i - 1]));
                }
            }
            proof {
                assert(b@.take(b.len() as int) =~= b@);
            }
        },
        Value::List(l) => {
            out.push(6u8);
            push_u64_bytes(out, l.len() as u64);
            let ghost start = out@;
            let mut i: usize = 0;
            proof {
                assert(decreases_to!(*v => l@));
            }
            while i < l.len()
                invariant
                    i <= l@.len(),
                    out@ == start + list_bytes(l@.take(i as int)),
                    decreases_to!(*v => l@),
                decreases l.len() - i,
            {
                proof {
                    assert(decreases_to!(l@ => l@[i as int]));
                }
                push_value_bytes(out, &l[i]);
                i = i + 1;
                proof {
                    assert(l@.take(i as int).drop_last() =~= l@.take(i - 1));
                }
            }
            proof {
                assert(l@.take(l.len() as int) =~= l@);
            }
        },
        Value::Dict(m) => {
            out.push(7u8);
            push_u64_bytes(out, m.len() as u64);
            push_pairs_bytes(out, m, Ghost(*v));
        },
        Value::Vector(x) => {
            out.push(8u8);
            push_u64_bytes(out, x.len() as u64);
            let ghost start = out@;
            let mut i: usize = 0;
            while i < x.len()
                invariant
                    i <= x@.len(),
                    out@ == start + words_bytes(x@.take(i as int)),
                decreases x.len() - i,
            {
                push_u32_bytes(out, x[i]);
                i = i + 1;
                proof {
                    assert(x@.take(i as int).drop_last() =~= x@.take(i - 1));
                }
            }
            proof {
                assert(x@.take(x.len() as int) =~= x@);
            }
        },
        Value::Node { vid, labels, properties } => {
            out.push(9u8);
            push_u64_bytes(out, *vid);
            push_u64_bytes(out, labels.len() as u64);
            let ghost start = out@;
            let mut i: usize = 0;
            while i < labels.len()
                invariant
                    i <= labels@.len(),
                    out@ == start + texts_bytes(labels@.take(i as int)),
                decreases labels.len() - i,
            {
                push_framed_text(out, &labels[i]);
                i = i + 1;
                proof {
                    assert(labels@.take(i as int).drop_last() =~= labels@.take(i - 1));
                }
            }
            proof {
                assert(labels@.take(labels.len() as int) =~= labels@);
            }
            push_u64_bytes(out, properties.len() as u64);
            push_pairs_bytes(out, properties, Ghost(*v));
        },
        Value::Edge { eid, edge_type, properties } => {
            out.push(10u8);
            push_u64_bytes(out, *eid);
            push_framed_text(out, edge_type);
            push_u64_bytes(out, properties.len() as u64);
            push_pairs_bytes(out, properties, Ghost(*v));
        },
    }
    proof {
        assert(final(out)@ =~= old(out)@ + value_bytes(*v));
    }
}

/// Appends the encodings of the pairs of `m`, a field of `parent`.
fn push_pairs_bytes(out: &mut Vec<u8>, m: &Vec<(String, Value)>, Ghost(parent): Ghost<Value>)
    requires
        decreases_to!(parent => m@),
    ensures
        final(out)@ == old(out)@ + pairs_bytes(m@),
    decreases parent, 0nat,
{
    let ghost start = out@;
    let mut i: usize = 0;
    while i < m.len()
        invariant
            i <= m@.len(),
            out@ == start + pairs_bytes(m@.take(i as int)),
            decreases_to!(parent => m@),
        decreases m.len() - i,
    {
        push_framed_text(out, &m[i].0);
        proof {
            assert(decreases_to!(m@ => m@[i as int]));
            assert(decreases_to!(m@[i as int] => m@[i as int].1));
        }
        push_value_bytes(out, &m[i].1);
        i = i + 1;
        proof {
            assert(m@.take(i as int).drop_last() =~= m@.take(i - 1));
        }
    }
    proof {
        assert(m@.take(m.len() as int) =~= m@);
    }
}


/// Estimated in-memory size of a value, in bytes.
pub open spec fn value_size(v: Value) -> int
    decreases v,
{
    match v {
        Value::Null => 1,
        Value::Bool(_) => 1,
        Value::Int(_) => 8,
        Value::Float(_) => 8,
        Value::String(s) => text_bytes(s@).len() as int,
        Value::Bytes(b) => b@.len() as int,
        Value::List(l) => list_size(l@) + 8,
        Value::Dict(m) => pairs_size(m@) + 8,
        Value::Vector(x) => (x@.len() * 4) as int,
        Value::Node { .. } => 16,
        Value::Edge { .. } => 16,
    }
}

/// Sum of the estimated sizes of the values of a list.
pub open spec fn list_size(l: Seq<Value>) -> int
    decreases l,
{
    if l.len() == 0 {
        0
    } else {
        list_size(l.drop_last()) + value_size(l.last())
    }
}

/// Sum over pairs of the key's byte length plus the value's estimated size.
pub open spec fn pairs_size(m: Seq<(String, Value)>) -> int
    decreases m,
{
    if m.len() == 0 {
        0
    } else {
        pairs_size(m.drop_last()) + text_bytes(m.last().0@).len() + value_size(m.last().1)
    }
}

proof fn lemma_sizes_nonneg(v: Value)
    ensures
        value_size(v) >= 0,
    decreases v, 1nat,
{
    match v {
        Value::List(l) => {
            assert(decreases_to!(v => l@));
            lemma_list_size_nonneg(l@, v);
        },
        Value::Dict(m) => {
            assert(decreases_to!(v => m@));
            lemma_pairs_size_nonneg(m@, v);
        },
        _ => {},
    }
}

proof fn lemma_list_size_nonneg(l: Seq<Value>, parent: Value)
    requires
        decreases_to!(parent => l),
    ensures
        list_size(l) >= 0,
    decreases parent, 0nat, l.len(),
{
    if l.len() > 0 {
        assert(decreases_to!(l => l.drop_last()));
        lemma_list_size_nonneg(l.drop_last(), parent);
        assert(decreases_to!(l => l.last()));
        lemma_sizes_nonneg(l.last());
    }
}

proof fn lemma_pairs_size_nonneg(m: Seq<(String, Value)>, parent: Value)
    requires
        decreases_to!(parent => m),
    ensures
        pairs_size(m) >= 0,
    decreases parent, 0nat, m.len(),
{
    if m.len() > 0 {
        lemma_pairs_size_nonneg(m.drop_last(), parent);
        assert(decreases_to!(m => m.last()));
        assert(decreases_to!(m.last() => m.last().1));
        lemma_sizes_nonneg(m.last().1);
    }
}


proof fn lemma_list_size_prefix(l: Seq<Value>, i: int)
    requires
        0 <= i <= l.len(),
    ensures
        list_size(l.take(i)) <= list_size(l),
    decreases l.len(),
{
    if i < l.len() {
        lemma_sizes_nonneg(l.last());
        assert(l.drop_last().take(i) =~= l.take(i));
        lemma_list_size_prefix(l.drop_last(), i);
    } else {
        assert(l.take(i) =~= l);
    }
}

proof fn lemma_pairs_size_prefix(m: Seq<(String, Value)>, i: int)
    requires
        0 <= i <= m.len(),
    ensures
        pairs_size(m.take(i)) <= pairs_size(m),
    decreases m.len(),
{
    if i < m.len() {
        lemma_sizes_nonneg(m.last().1);
        assert(m.drop_last().take(i) =~= m.take(i));
        lemma_pairs_size_prefix(m.drop_last(), i);
    } else {
        assert(m.take(i) =~= m);
    }
}

/// Estimated in-memory size of a value in bytes (see [`value_size`]):
/// 1 for null and booleans, 8 for numbers, the byte length of texts and
/// byte strings, the sum of the parts plus 8 for lists and maps, 4 bytes per
/// vector element and 16 for nodes and edges.
pub fn estimate_value_size(v: &Value) -> (r: usize)
    requires
        value_size(*v) <= usize::MAX,
    ensures
        r == value_size(*v),
    decreases v, 1nat,
{
    match v {
        Value::Null => 1,
        Value::Bool(_) => 1,
        Value::Int(_) => 8,
        Value::Float(_) => 8,
        Value::String(s) => s.as_str().as_bytes().len(),
        Value::Bytes(b) => b.len(),
        Value::List(l) => {
            let mut sum: usize = 0;
            let mut i: usize = 0;
            proof {
                assert(decreases_to!(*v => l@));
            }
            while i < l.len()
                invariant
                    i <= l@.len(),
                    sum == list_size(l@.take(i as int)),
                    list_size(l@) + 8 <= usize::MAX,
                    decreases_to!(*v => l@),
                decreases l.len() - i,
            {
                proof {
                    assert(decreases_to!(l@ => l@[i as int]));
                    assert(l@.take(i + 1).drop_last() =~= l@.take(i as int));
                    lemma_list_size_prefix(l@, i + 1);
                    lemma_list_size_prefix(l@.take(i as int), i as int);
                    lemma_sizes_nonneg(l@[i as int]);
                    lemma_list_size_nonneg(l@.take(i as int), *v);
                }
                let e = estimate_value_size(&l[i]);
                sum = sum + e;
                i = i + 1;
            }
            proof {
                assert(l@.take(l.len() as int) =~= l@);
            }
            sum + 8
        },
        Value::Dict(m) => pairs_estimate(m, Ghost(*v)) + 8,
        Value::Vector(x) => x.len() * 4,
        Value::Node { .. } => 16,
        Value::Edge { .. } => 16,
    }
}

fn pairs_estimate(m: &Vec<(String, Value)>, Ghost(parent): Ghost<Value>) -> (r: usize)
    requires
        decreases_to!(parent => m@),
        pairs_size(m@) <= usize::MAX,
    ensures
        r == pairs_size(m@),
    decreases parent, 0nat,
{
    let mut sum: usize = 0;
    let mut i: usize = 0;
    while i < m.len()
        invariant
            i <= m@.len(),
            sum == pairs_size(m@.take(i as int)),
            pairs_size(m@) <= usize::MAX,
            decreases_to!(parent => m@),
        decreases m.len() - i,
    {
        proof {
            assert(decreases_to!(m@ => m@[i as int]));
            assert(decreases_to!(m@[i as int] => m@[i as int].1));
            assert(m@.take(i + 1).drop_last() =~= m@.take(i as int));
            lemma_pairs_size_prefix(m@, i + 1);
            lemma_sizes_nonneg(m@[i as int].1);
            lemma_pairs_size_nonneg(m@.take(i as int), parent);
        }
        let k = m[i].0.as_str().as_bytes().len();
        let e = estimate_value_size(&m[i].1);
        sum = sum + k + e;
        i = i + 1;
    }
    proof {
        assert(m@.take(m.len() as int) =~= m@);
    }
    sum
}

/// Estimated size of a property map: for each entry, the key's byte length
/// plus the estimated size of its value (see [`pairs_size`]).
pub fn estimate_properties_size(props: &Vec<(String, Value)>) -> (r: usize)
    requires
        pairs_size(props@) <= usize::MAX,
    ensures
        r == pairs_size(props@),
{
    let mut sum: usize = 0;
    let mut i: usize = 0;
    while i < props.len()
        invariant
            i <= props@.len(),
            sum == pairs_size(props@.take(i as int)),
            pairs_size(props@) <= usize::MAX,
        decreases props.len() - i,
    {
        proof {
            assert(props@.take(i + 1).drop_last() =~= props@.take(i as int));
            lemma_pairs_size_prefix(props@, i + 1);
            lemma_sizes_nonneg(props@[i as int].1);
        }
        let k = props[i].0.as_str().as_bytes().len();
        let e = estimate_value_size(&props[i].1);
        sum = sum + k + e;
        i = i + 1;
    }
    proof {
        assert(props@.take(props.len() as int) =~= props@);
    }
    sum
}

/// Property sizes are never negative.
pub proof fn lemma_pairs_size_nonneg_top(m: Seq<(String, Value)>)
    ensures
        pairs_size(m) >= 0,
    decreases m.len(),
{
    if m.len() > 0 {
        lemma_pairs_size_nonneg_top(m.drop_last());
        lemma_sizes_nonneg(m.last().1);
    }
}


/// A hexadecimal digit.
pub open spec fn hex_char(d: nat) -> char {
    if d < 10 {
        crate::text::digit_char(d)
    } else if d == 10 { 'a' }
    else if d == 11 { 'b' }
    else if d == 12 { 'c' }
    else if d == 13 { 'd' }
    else if d == 14 { 'e' }
    else { 'f' }
}

/// Two hexadecimal digits per byte.
pub open spec fn hex_bytes(b: Seq<u8>) -> Seq<char>
    decreases b.len(),
{
    if b.len() == 0 {
        Seq::empty()
    } else {
        hex_bytes(b.drop_last()) + seq![hex_char((b.last() / 16) as nat), hex_char((b.last() % 16) as nat)]
    }
}

fn hex_digit(d: u8) -> (c: char)
    requires
        d < 16,
    ensures
        c == hex_char(d as nat),
{
    if d == 0 { '0' } else if d == 1 { '1' } else if d == 2 { '2' } else if d == 3 { '3' }
    else if d == 4 { '4' } else if d == 5 { '5' } else if d == 6 { '6' } else if d == 7 { '7' }
    else if d == 8 { '8' } else if d == 9 { '9' } else if d == 10 { 'a' } else if d == 11 { 'b' }
    else if d == 12 { 'c' } else if d == 13 { 'd' } else if d == 14 { 'e' } else { 'f' }
}

fn push_hex(out: &mut Vec<char>, b: &Vec<u8>)
    ensures
        final(out)@ == old(out)@ + hex_bytes(b@),
{
    let mut i: usize = 0;
    while i < b.len()
        invariant
            i <= b@.len(),
            out@ == old(out)@ + hex_bytes(b@.take(i as int)),
        decreases b.len() - i,
    {
        let x = b[i];
        out.push(hex_digit(x / 16));
        out.push(hex_digit(x % 16));
        proof {
            assert(b@.take(i + 1).drop_last() =~= b@.take(i as int));
        }
        i = i + 1;
        proof {
            assert(out@ =~= old(out)@ + hex_bytes(b@.take(i as int)));
        }
    }
    proof {
        assert(b@.take(b@.len() as int) =~= b@);
    }
}

/// The text a value contributes to a uniqueness key: `null`, `true`/`false`,
/// the decimal integer, the text itself; a float as `0x` and the hex of its
/// bits; anything else as `#` and the hex of its encoding (see [`value_bytes`]).
pub open spec fn value_text(v: Value) -> Seq<char> {
    match v {
        Value::Null => "null"@,
        Value::Bool(b) => if b { "true"@ } else { "false"@ },
        Value::Int(i) => crate::text::int_text(i as int),
        Value::String(s) => s@,
        Value::Float(bits) => "0x"@ + hex_bytes(u64_bytes(bits)),
        _ => "#"@ + hex_bytes(value_bytes(v)),
    }
}

/// The text of a value for uniqueness keys (see [`value_text`]).
pub fn value_text_of(v: &Value) -> (r: String)
    ensures
        r@ == value_text(*v),
{
    match v {
        Value::Null => crate::text::owned("null"),
        Value::Bool(b) => if *b { crate::text::owned("true") } else { crate::text::owned("false") },
        Value::Int(i) => {
            let mut out: Vec<char> = Vec::new();
            push_i64(&mut out, *i);
            proof {
                assert(out@ =~= crate::text::int_text(*i as int));
            }
            crate::text::string_from(&out)
        },
        Value::String(s) => s.clone(),
        Value::Float(bits) => {
            let mut b: Vec<u8> = Vec::new();
            push_u64_bytes(&mut b, *bits);
            let mut out = crate::text::chars_of("0x");
            push_hex(&mut out, &b);
            crate::text::string_from(&out)
        },
        _ => {
            let mut b: Vec<u8> = Vec::new();
            push_value_bytes(&mut b, v);
            let mut out = crate::text::chars_of("#");
            proof {
                assert(b@ =~= value_bytes(*v));
            }
            push_hex(&mut out, &b);
            crate::text::string_from(&out)
        },
    }
}


/// A copy of `v` with the same canonical encoding (see [`value_bytes`]),
/// that is, the same content.
pub fn copy_value(v: &Value) -> (r: Value)
    ensures
        value_bytes(r) == value_bytes(*v),
    decreases v, 1nat,
{
    match v {
        Value::Null => Value::Null,
        Value::Bool(b) => Value::Bool(*b),
        Value::Int(i) => Value::Int(*i),
        Value::Float(bits) => Value::Float(*bits),
        Value::String(s) => Value::String(s.clone()),
        Value::Bytes(b) => {
            let mut out: Vec<u8> = Vec::new();
            let mut i: usize = 0;
            while i < b.len()
                invariant
                    i <= b@.len(),
                    out@ == b@.take(i as int),
                decreases b.len() - i,
            {
                out.push(b[i]);
                i = i + 1;
                proof {
                    assert(b@.take(i as int) =~= b@.take(i - 1).push(b@[i - 1]));
                }
            }
            proof {
                assert(b@.take(b@.len() as int) =~= b@);
            }
            Value::Bytes(out)
        },
        Value::List(l) => {
            let mut out: Vec<Value> = Vec::new();
            let mut i: usize = 0;
            proof {
                assert(decreases_to!(*v => l@));
            }
            while i < l.len()
                invariant
                    i <= l@.len(),
                    out@.len() == i,
                    list_bytes(out@) == list_bytes(l@.take(i as int)),
                    decreases_to!(*v => l@),
                decreases l.len() - i,
            {
                proof {
                    assert(decreases_to!(l@ => l@[i as int]));
                }
                let c = copy_value(&l[i]);
                let ghost before = out@;
                out.push(c);
                proof {
                    assert(out@.drop_last() =~= before);
                    assert(l@.take(i + 1).drop_last() =~= l@.take(i as int));
                }
                i = i + 1;
            }
            proof {
                assert(l@.take(l@.len() as int) =~= l@);
            }
            Value::List(out)
        },
        Value::Dict(m) => Value::Dict(copy_pairs(m, Ghost(*v))),
        Value::Vector(x) => {
            let mut out: Vec<u32> = Vec::new();
            let mut i: usize = 0;
            while i < x.len()
                invariant
                    i <= x@.len(),
                    out@ == x@.take(i as int),
                decreases x.len() - i,
            {
                out.push(x[i]);
                i = i + 1;
                proof {
                    assert(x@.take(i as int) =~= x@.take(i - 1).push(x@[i - 1]));
                }
            }
            proof {
                assert(x@.take(x@.len() as int) =~= x@);
            }
            Value::Vector(out)
        },
        Value::Node { vid, labels, properties } => {
            let ls = crate::text::copy_strings(labels);
            let ps = copy_pairs(properties, Ghost(*v));
            Value::Node { vid: *vid, labels: ls, properties: ps }
        },
        Value::Edge { eid, edge_type, properties } => {
            let ps = copy_pairs(properties, Ghost(*v));
            Value::Edge { eid: *eid, edge_type: edge_type.clone(), properties: ps }
        },
    }
}

fn copy_pairs(m: &Vec<(String, Value)>, Ghost(parent): Ghost<Value>) -> (r: Vec<(String, Value)>)
    requires
        decreases_to!(parent => m@),
    ensures
        r@.len() == m@.len(),
        pairs_bytes(r@) == pairs_bytes(m@),
        forall|i: int| 0 <= i < m@.len() ==> (#[trigger] r@[i]).0 == m@[i].0,
    decreases parent, 0nat,
{
    let mut out: Vec<(String, Value)> = Vec::new();
    let mut i: usize = 0;
    while i < m.len()
        invariant
            i <= m@.len(),
            out@.len() == i,
            pairs_bytes(out@) == pairs_bytes(m@.take(i as int)),
            forall|k: int| 0 <= k < i ==> (#[trigger] out@[k]).0 == m@[k].0,
            decreases_to!(parent => m@),
        decreases m.len() - i,
    {
        proof {
            assert(decreases_to!(m@ => m@[i as int]));
            assert(decreases_to!(m@[i as int] => m@[i as int].1));
        }
        let k = m[i].0.clone();
        let c = copy_value(&m[i].1);
        let ghost before = out@;
        out.push((k, c));
        proof {
            assert(out@.drop_last() =~= before);
            assert(m@.take(i + 1).drop_last() =~= m@.take(i as int));
        }
        i = i + 1;
    }
    proof {
        assert(m@.take(m@.len() as int) =~= m@);
    }
    out
}

} // verus!
