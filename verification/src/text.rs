//! Character-sequence helpers shared by the query-text classifiers.
//!
//! Text is handled as `Vec<char>` in executable code and as `Seq<char>`
//! in contracts, which is exactly the view vstd gives to `str` and `String`.
use vstd::prelude::*;

verus! {

/// Whether `c` has the Unicode `White_Space` property (what
/// `char::is_whitespace` answers).
pub open spec fn char_whitespace(c: char) -> bool {
    let n = c as u32;
    ||| 0x9 <= n <= 0xD
    ||| n == 0x20
    ||| n == 0x85
    ||| n == 0xA0
    ||| n == 0x1680
    ||| 0x2000 <= n <= 0x200A
    ||| n == 0x2028
    ||| n == 0x2029
    ||| n == 0x202F
    ||| n == 0x205F
    ||| n == 0x3000
}

/// The characters `char::to_uppercase` yields for a character outside ASCII.
pub uninterp spec fn char_upper_other(c: char) -> Seq<char>;

/// The characters `char::to_uppercase` yields for `c`: an ASCII lowercase
/// letter becomes its capital, any other ASCII character stays as it is.
pub open spec fn char_upper(c: char) -> Seq<char> {
    if 'a' <= c && c <= 'z' {
        seq![((c as u32) - 32) as char]
    } else if (c as u32) < 128 {
        seq![c]
    } else {
        char_upper_other(c)
    }
}

/// The text `str::to_uppercase` returns for `s`: each character's
/// uppercase mapping, in order.
pub open spec fn str_upper(s: Seq<char>) -> Seq<char> {
    s.flat_map(|c: char| char_upper(c))
}

/// The text `str::to_lowercase` returns for text that is not all ASCII.
pub uninterp spec fn str_lower_other(s: Seq<char>) -> Seq<char>;

/// The text `str::to_lowercase` returns for `s`: ASCII text has its letters
/// lowered and nothing else changed.
pub open spec fn str_lower(s: Seq<char>) -> Seq<char> {
    if all_ascii(s) {
        ascii_lower(s)
    } else {
        str_lower_other(s)
    }
}

/// The text `str`'s `Debug` formatting gives for `s`: the text in double
/// quotes, with quotes, backslashes and non-printable characters escaped.
pub uninterp spec fn str_debug(s: Seq<char>) -> Seq<char>;

/// `str`'s `Debug` formatting (`format!("{:?}", s)`): believed to be a
/// function of the text alone (named `str_debug`); the escaping rules are not
/// stated.
#[verifier::external_body]
pub(crate) fn debug_str(s: &str) -> (r: String)
    ensures
        r@ == str_debug(s@),
{
    format!("{:?}", s)
}

/// Whether `c` has the Unicode `White_Space` property.
pub(crate) fn is_whitespace(c: char) -> (r: bool)
    ensures
        r == char_whitespace(c),
{
    let n = c as u32;
    (0x9 <= n && n <= 0xD) || n == 0x20 || n == 0x85 || n == 0xA0 || n == 0x1680 || (0x2000 <= n
        && n <= 0x200A) || n == 0x2028 || n == 0x2029 || n == 0x202F || n == 0x205F || n == 0x3000
}

/// `char::to_uppercase`, collected: believed to map ASCII as its
/// documentation says (lowercase letters to capitals, the rest unchanged)
/// and to yield, for any other character, a fixed mapping of one or more
/// characters (named `char_upper_other`).
#[verifier::external_body]
pub(crate) fn upper_of(c: char) -> (r: Vec<char>)
    ensures
        r@ == char_upper(c),
        (c as u32) >= 128 ==> r@ == char_upper_other(c),
        r@.len() >= 1,
{
    c.to_uppercase().collect()
}

/// `str::to_uppercase`: believed to return each character's uppercase
/// mapping (as `char::to_uppercase` gives it), in order.
#[verifier::external_body]
pub(crate) fn to_upper(s: &str) -> (r: String)
    ensures
        r@ == str_upper(s@),
{
    s.to_uppercase()
}

/// `str::to_lowercase`: believed to lower the ASCII letters of ASCII text
/// and change nothing else there, and to return, for any other text, a
/// fixed lowercase mapping of the whole text (named `str_lower_other`).
#[verifier::external_body]
pub(crate) fn to_lower(s: &str) -> (r: String)
    ensures
        r@ == str_lower(s@),
        !all_ascii(s@) ==> r@ == str_lower_other(s@),
{
    s.to_lowercase()
}

/// `String::push` appends one character.
pub assume_specification[ std::string::String::push ](s: &mut std::string::String, ch: char)
    ensures
        final(s)@ == old(s)@.push(ch),
;

/// The characters of `s`, in order.
pub fn chars_of(s: &str) -> (r: Vec<char>)
    ensures
        r@ == s@,
{
    let mut r: Vec<char> = Vec::new();
    for c in it: s.chars()
        invariant
            it.seq() == s@,
            r@ == it.seq().take(it.index() as int),
    {
        r.push(c);
    }
    r
}

/// A `String` holding exactly the characters of `v`.
pub fn string_from(v: &Vec<char>) -> (r: String)
    ensures
        r@ == v@,
{
    let mut r = String::new();
    let mut i: usize = 0;
    while i < v.len()
        invariant
            i <= v.len(),
            r@ == v@.take(i as int),
        decreases v.len() - i,
    {
        r.push(v[i]);
        i = i + 1;
        proof {
            assert(v@.take(i as int) =~= v@.take((i - 1) as int).push(v@[i - 1]));
        }
    }
    proof {
        assert(v@.take(v.len() as int) =~= v@);
    }
    r
}

/// Appends every character of `w` to `v`.
pub fn push_all(v: &mut Vec<char>, w: &Vec<char>)
    ensures
        final(v)@ == old(v)@ + w@,
{
    let mut i: usize = 0;
    while i < w.len()
        invariant
            i <= w.len(),
            v@ == old(v)@ + w@.take(i as int),
        decreases w.len() - i,
    {
        v.push(w[i]);
        i = i + 1;
        proof {
            assert(w@.take(i as int) =~= w@.take((i - 1) as int).push(w@[i - 1]));
        }
    }
    proof {
        assert(w@.take(w.len() as int) =~= w@);
    }
}

/// Appends every character of `s` to `v`.
pub fn push_str(v: &mut Vec<char>, s: &str)
    ensures
        final(v)@ == old(v)@ + s@,
{
    let w = chars_of(s);
    push_all(v, &w);
}

/// `q` is a prefix of `p`.
pub open spec fn starts_with(p: Seq<char>, q: Seq<char>) -> bool {
    q.len() <= p.len() && p.subrange(0, q.len() as int) == q
}

/// `q` is a suffix of `p`.
pub open spec fn ends_with(p: Seq<char>, q: Seq<char>) -> bool {
    q.len() <= p.len() && p.subrange(p.len() - q.len(), p.len() as int) == q
}

/// `q` occurs in `p` starting at index `i`.
pub open spec fn occurs_at(p: Seq<char>, q: Seq<char>, i: int) -> bool {
    0 <= i && i + q.len() <= p.len() && p.subrange(i, i + q.len()) == q
}

/// `q` occurs somewhere in `p` (the empty text occurs everywhere).
pub open spec fn contains(p: Seq<char>, q: Seq<char>) -> bool {
    exists|i: int| occurs_at(p, q, i)
}

/// Executable prefix test.
pub fn has_prefix(p: &Vec<char>, q: &Vec<char>) -> (r: bool)
    ensures
        r == starts_with(p@, q@),
{
    if q.len() > p.len() {
        return false;
    }
    let mut i: usize = 0;
    while i < q.len()
        invariant
            q.len() <= p.len(),
            i <= q.len(),
            forall|j: int| 0 <= j < i ==> p@[j] == q@[j],
        decreases q.len() - i,
    {
        if p[i] != q[i] {
            proof {
                assert(p@.subrange(0, q.len() as int)[i as int] != q@[i as int]);
            }
            return false;
        }
        i = i + 1;
    }
    proof {
        assert(p@.subrange(0, q.len() as int) =~= q@);
    }
    true
}

/// Executable suffix test.
pub fn has_suffix(p: &Vec<char>, q: &Vec<char>) -> (r: bool)
    ensures
        r == ends_with(p@, q@),
{
    if q.len() > p.len() {
        return false;
    }
    let off = p.len() - q.len();
    let mut i: usize = 0;
    while i < q.len()
        invariant
            q.len() <= p.len(),
            off == p.len() - q.len(),
            i <= q.len(),
            forall|j: int| 0 <= j < i ==> p@[off + j] == q@[j],
        decreases q.len() - i,
    {
        if p[off + i] != q[i] {
            proof {
                assert(p@.subrange(off as int, p.len() as int)[i as int] != q@[i as int]);
            }
            return false;
        }
        i = i + 1;
    }
    proof {
        assert(p@.subrange(off as int, p.len() as int) =~= q@);
    }
    true
}

/// Whether `q` occurs in `p` at index `i`.
fn matches_at(p: &Vec<char>, q: &Vec<char>, i: usize) -> (r: bool)
    requires
        i + q.len() <= p.len(),
    ensures
        r == occurs_at(p@, q@, i as int),
{
    let mut j: usize = 0;
    while j < q.len()
        invariant
            i + q.len() <= p.len(),
            j <= q.len(),
            forall|k: int| 0 <= k < j ==> p@[i + k] == q@[k],
        decreases q.len() - j,
    {
        if p[i + j] != q[j] {
            proof {
                assert(p@.subrange(i as int, i + q.len())[j as int] != q@[j as int]);
            }
            return false;
        }
        j = j + 1;
    }
    proof {
        assert(p@.subrange(i as int, i + q.len()) =~= q@);
    }
    true
}

/// Executable substring test.
pub fn has_infix(p: &Vec<char>, q: &Vec<char>) -> (r: bool)
    ensures
        r == contains(p@, q@),
{
    if q.len() > p.len() {
        return false;
    }
    if q.len() == 0 {
        proof {
            assert(p@.subrange(0, 0) =~= q@);
            assert(occurs_at(p@, q@, 0));
        }
        return true;
    }
    let last = p.len() - q.len();
    let mut i: usize = 0;
    while i <= last
        invariant
            0 < q.len() <= p.len(),
            last == p.len() - q.len(),
            i <= last + 1,
            forall|k: int| 0 <= k < i ==> !occurs_at(p@, q@, k),
        decreases last + 1 - i,
    {
        if matches_at(p, q, i) {
            return true;
        }
        i = i + 1;
    }
    proof {
        assert forall|k: int| !occurs_at(p@, q@, k) by {
            if 0 <= k && k + q.len() <= p.len() {
                assert(k < i);
            }
        }
    }
    false
}

/// Whether the text `p` contains the literal `q`.
pub fn text_contains(p: &Vec<char>, q: &str) -> (r: bool)
    ensures
        r == contains(p@, q@),
{
    let w = chars_of(q);
    has_infix(p, &w)
}

/// Whether the text `p` starts with the literal `q`.
pub fn text_starts_with(p: &Vec<char>, q: &str) -> (r: bool)
    ensures
        r == starts_with(p@, q@),
{
    let w = chars_of(q);
    has_prefix(p, &w)
}

/// Whether `c` occurs in `p`.
pub fn has_char(p: &Vec<char>, c: char) -> (r: bool)
    ensures
        r == p@.contains(c),
{
    let mut i: usize = 0;
    while i < p.len()
        invariant
            i <= p.len(),
            forall|k: int| 0 <= k < i ==> p@[k] != c,
        decreases p.len() - i,
    {
        if p[i] == c {
            return true;
        }
        i = i + 1;
    }
    false
}

/// Number of leading characters of `s` that are whitespace.
pub open spec fn leading_ws(s: Seq<char>) -> nat
    decreases s.len(),
{
    if s.len() > 0 && char_whitespace(s[0]) {
        1 + leading_ws(s.drop_first())
    } else {
        0
    }
}

/// `s` with its leading whitespace removed (what `str::trim_start` returns).
pub open spec fn trim_start(s: Seq<char>) -> Seq<char> {
    s.subrange(leading_ws(s) as int, s.len() as int)
}

pub proof fn lemma_leading_ws_bound(s: Seq<char>)
    ensures
        leading_ws(s) <= s.len(),
    decreases s.len(),
{
    if s.len() > 0 && char_whitespace(s[0]) {
        lemma_leading_ws_bound(s.drop_first());
    }
}

/// If the first `i` characters are whitespace, the leading run is `i` plus
/// the leading run of what follows.
proof fn lemma_leading_ws_skip(s: Seq<char>, i: int)
    requires
        0 <= i <= s.len(),
        forall|k: int| 0 <= k < i ==> char_whitespace(s[k]),
    ensures
        leading_ws(s) == i + leading_ws(s.subrange(i, s.len() as int)),
    decreases i,
{
    if i > 0 {
        let t = s.drop_first();
        assert forall|k: int| 0 <= k < i - 1 implies char_whitespace(t[k]) by {
            assert(t[k] == s[k + 1]);
        }
        lemma_leading_ws_skip(t, i - 1);
        assert(t.subrange(i - 1, t.len() as int) =~= s.subrange(i, s.len() as int));
    } else {
        assert(s.subrange(0, s.len() as int) =~= s);
    }
}

/// Executable `trim_start` over characters.
pub fn trim_start_chars(s: &Vec<char>) -> (r: Vec<char>)
    ensures
        r@ == trim_start(s@),
{
    let mut i: usize = 0;
    while i < s.len() && is_whitespace(s[i])
        invariant
            i <= s.len(),
            forall|k: int| 0 <= k < i ==> char_whitespace(s@[k]),
        decreases s.len() - i,
    {
        i = i + 1;
    }
    proof {
        lemma_leading_ws_skip(s@, i as int);
        let rest = s@.subrange(i as int, s@.len() as int);
        if i < s.len() {
            assert(rest[0] == s@[i as int]);
        }
        assert(leading_ws(rest) == 0);
    }
    let mut r: Vec<char> = Vec::new();
    let mut j: usize = i;
    while j < s.len()
        invariant
            i <= j <= s.len(),
            r@ == s@.subrange(i as int, j as int),
        decreases s.len() - j,
    {
        r.push(s[j]);
        j = j + 1;
        proof {
            assert(s@.subrange(i as int, j as int) =~= s@.subrange(i as int, j - 1).push(s@[j - 1]));
        }
    }
    r
}

/// The decimal digits of `n`.
pub open spec fn nat_digits(n: nat) -> Seq<char>
    decreases n,
{
    if n < 10 {
        seq![digit_char(n)]
    } else {
        nat_digits(n / 10).push(digit_char(n % 10))
    }
}

/// The character of a single decimal digit.
pub open spec fn digit_char(d: nat) -> char {
    if d == 0 { '0' }
    else if d == 1 { '1' }
    else if d == 2 { '2' }
    else if d == 3 { '3' }
    else if d == 4 { '4' }
    else if d == 5 { '5' }
    else if d == 6 { '6' }
    else if d == 7 { '7' }
    else if d == 8 { '8' }
    else { '9' }
}

/// The decimal rendering of an integer, with a leading `-` when negative
/// (what `i64::to_string` produces).
pub open spec fn int_text(n: int) -> Seq<char> {
    if n < 0 {
        seq!['-'] + nat_digits((-n) as nat)
    } else {
        nat_digits(n as nat)
    }
}

fn digit_of(d: u64) -> (c: char)
    requires
        d < 10,
    ensures
        c == digit_char(d as nat),
{
    if d == 0 { '0' }
    else if d == 1 { '1' }
    else if d == 2 { '2' }
    else if d == 3 { '3' }
    else if d == 4 { '4' }
    else if d == 5 { '5' }
    else if d == 6 { '6' }
    else if d == 7 { '7' }
    else if d == 8 { '8' }
    else { '9' }
}

/// Appends the decimal digits of `n` to `v`.
pub fn push_u64(v: &mut Vec<char>, n: u64)
    ensures
        final(v)@ == old(v)@ + nat_digits(n as nat),
    decreases n,
{
    if n < 10 {
        v.push(digit_of(n));
        proof {
            assert(old(v)@.push(digit_char(n as nat)) =~= old(v)@ + seq![digit_char(n as nat)]);
        }
    } else {
        push_u64(v, n / 10);
        v.push(digit_of(n % 10));
        proof {
            let ghost d = nat_digits((n / 10) as nat);
            assert(old(v)@ + d + seq![digit_char((n % 10) as nat)] =~= old(v)@ + d.push(digit_char((n % 10) as nat)));
        }
    }
}

/// Appends the decimal rendering of `n` to `v`.
pub fn push_i64(v: &mut Vec<char>, n: i64)
    ensures
        final(v)@ == old(v)@ + int_text(n as int),
{
    if n < 0 {
        v.push('-');
        let m: u64 = if n == i64::MIN {
            9223372036854775808u64
        } else {
            (-n) as u64
        };
        push_u64(v, m);
        proof {
            assert(old(v)@.push('-') + nat_digits(m as nat) =~= old(v)@ + (seq!['-'] + nat_digits(m as nat)));
        }
    } else {
        push_u64(v, n as u64);
    }
}


/// An owned copy of `s`.
pub fn owned(s: &str) -> (r: String)
    ensures
        r@ == s@,
{
    s.to_owned()
}

/// The texts of a sequence of strings.
pub open spec fn texts(v: Seq<String>) -> Seq<Seq<char>> {
    v.map_values(|s: String| s@)
}

/// The texts of a sequence of string slices.
pub open spec fn str_texts(v: Seq<&str>) -> Seq<Seq<char>> {
    v.map_values(|s: &str| s@)
}

/// A copy of a vector of strings.
pub fn copy_strings(t: &Vec<String>) -> (r: Vec<String>)
    ensures
        r@ == t@,
{
    let mut out: Vec<String> = Vec::new();
    let mut i: usize = 0;
    while i < t.len()
        invariant
            i <= t@.len(),
            out@ == t@.take(i as int),
        decreases t.len() - i,
    {
        out.push(t[i].clone());
        i = i + 1;
        proof {
            assert(t@.take(i as int) =~= t@.take(i - 1).push(t@[i - 1]));
        }
    }
    proof {
        assert(t@.take(t.len() as int) =~= t@);
    }
    out
}

/// Owned copies of string slices, in order.
pub fn owned_all(v: &[&str]) -> (r: Vec<String>)
    ensures
        texts(r@) == str_texts(v@),
{
    let mut out: Vec<String> = Vec::new();
    let mut i: usize = 0;
    while i < v.len()
        invariant
            i <= v@.len(),
            out@.len() == i,
            forall|j: int| 0 <= j < i ==> #[trigger] out@[j]@ == v@[j]@,
        decreases v.len() - i,
    {
        out.push(owned(v[i]));
        i = i + 1;
    }
    proof {
        assert(texts(out@) =~= str_texts(v@));
    }
    out
}

/// Whether some string of `v` has the text `s`.
pub fn text_in(v: &Vec<String>, s: &String) -> (r: bool)
    ensures
        r == texts(v@).contains(s@),
{
    let mut i: usize = 0;
    while i < v.len()
        invariant
            i <= v@.len(),
            forall|j: int| 0 <= j < i ==> #[trigger] v@[j]@ != s@,
        decreases v.len() - i,
    {
        if v[i] == *s {
            proof {
                assert(texts(v@)[i as int] == s@);
            }
            return true;
        }
        i = i + 1;
    }
    proof {
        if texts(v@).contains(s@) {
            let j = choose|j: int| 0 <= j < texts(v@).len() && texts(v@)[j] == s@;
            assert(v@[j]@ == s@);
        }
    }
    false
}

/// Lexicographic order of texts by character (which is the order of their
/// UTF-8 bytes, the order `String` sorts by).
pub open spec fn text_lt(a: Seq<char>, b: Seq<char>) -> bool
    decreases a.len(),
{
    if a.len() == 0 {
        b.len() > 0
    } else if b.len() == 0 {
        false
    } else if a[0] != b[0] {
        a[0] < b[0]
    } else {
        text_lt(a.drop_first(), b.drop_first())
    }
}

pub proof fn lemma_text_lt_irreflexive(a: Seq<char>)
    ensures
        !text_lt(a, a),
    decreases a.len(),
{
    if a.len() > 0 {
        lemma_text_lt_irreflexive(a.drop_first());
    }
}

pub proof fn lemma_text_lt_total(a: Seq<char>, b: Seq<char>)
    ensures
        text_lt(a, b) || text_lt(b, a) || a == b,
    decreases a.len(),
{
    if a.len() > 0 && b.len() > 0 && a[0] == b[0] {
        lemma_text_lt_total(a.drop_first(), b.drop_first());
        if a.drop_first() == b.drop_first() {
            assert(a =~= seq![a[0]] + a.drop_first());
            assert(b =~= seq![b[0]] + b.drop_first());
        }
    } else if a.len() == 0 && b.len() == 0 {
        assert(a =~= b);
    }
}

pub proof fn lemma_text_lt_asymmetric(a: Seq<char>, b: Seq<char>)
    ensures
        !(text_lt(a, b) && text_lt(b, a)),
    decreases a.len(),
{
    if a.len() > 0 && b.len() > 0 && a[0] == b[0] {
        lemma_text_lt_asymmetric(a.drop_first(), b.drop_first());
    }
}

pub proof fn lemma_text_lt_transitive(a: Seq<char>, b: Seq<char>, c: Seq<char>)
    requires
        text_lt(a, b),
        text_lt(b, c),
    ensures
        text_lt(a, c),
    decreases a.len(),
{
    if a.len() > 0 && b.len() > 0 && c.len() > 0 && a[0] == b[0] && b[0] == c[0] {
        lemma_text_lt_transitive(a.drop_first(), b.drop_first(), c.drop_first());
    }
}

proof fn lemma_text_lt_skip(a: Seq<char>, b: Seq<char>, i: int)
    requires
        0 <= i <= a.len(),
        i <= b.len(),
        a.take(i) == b.take(i),
    ensures
        text_lt(a, b) == text_lt(a.skip(i), b.skip(i)),
    decreases i,
{
    if i > 0 {
        assert(a[0] == a.take(i)[0]);
        assert(b[0] == b.take(i)[0]);
        assert(a.drop_first().take(i - 1) =~= a.take(i).drop_first());
        assert(b.drop_first().take(i - 1) =~= b.take(i).drop_first());
        lemma_text_lt_skip(a.drop_first(), b.drop_first(), i - 1);
        assert(a.drop_first().skip(i - 1) =~= a.skip(i));
        assert(b.drop_first().skip(i - 1) =~= b.skip(i));
    } else {
        assert(a.skip(0) =~= a);
        assert(b.skip(0) =~= b);
    }
}

/// Whether `a` sorts strictly before `b` (see [`text_lt`]).
pub fn text_less(a: &String, b: &String) -> (r: bool)
    ensures
        r == text_lt(a@, b@),
{
    let x = chars_of(a.as_str());
    let y = chars_of(b.as_str());
    let mut i: usize = 0;
    while i < x.len() && i < y.len()
        invariant
            i <= x@.len(),
            i <= y@.len(),
            x@ == a@,
            y@ == b@,
            x@.take(i as int) == y@.take(i as int),
        decreases x.len() - i,
    {
        if x[i] != y[i] {
            proof {
                lemma_text_lt_skip(x@, y@, i as int);
                assert(x@.skip(i as int)[0] == x@[i as int]);
                assert(y@.skip(i as int)[0] == y@[i as int]);
            }
            return x[i] < y[i];
        }
        proof {
            assert(x@.take(i + 1) =~= x@.take(i as int).push(x@[i as int]));
            assert(y@.take(i + 1) =~= y@.take(i as int).push(y@[i as int]));
        }
        i = i + 1;
    }
    proof {
        lemma_text_lt_skip(x@, y@, i as int);
    }
    i == x.len() && i < y.len()
}

/// `v` is strictly increasing by [`text_lt`].
pub open spec fn strictly_sorted(v: Seq<String>) -> bool {
    forall|i: int, j: int| 0 <= i < j < v.len() ==> text_lt(#[trigger] v[i]@, #[trigger] v[j]@)
}

/// The texts of `labels`, each once, in sorted order.
pub fn sorted_unique(labels: &Vec<String>) -> (r: Vec<String>)
    ensures
        strictly_sorted(r@),
        forall|x: Seq<char>| texts(r@).contains(x) <==> texts(labels@).contains(x),
{
    let mut out: Vec<String> = Vec::new();
    let mut i: usize = 0;
    while i < labels.len()
        invariant
            i <= labels@.len(),
            strictly_sorted(out@),
            forall|x: Seq<char>|
                texts(out@).contains(x) <==> texts(labels@.take(i as int)).contains(x),
        decreases labels.len() - i,
    {
        let s = &labels[i];
        let mut p: usize = 0;
        while p < out.len() && text_less(&out[p], s)
            invariant
                p <= out@.len(),
                forall|k: int| 0 <= k < p ==> text_lt(#[trigger] out@[k]@, s@),
            decreases out.len() - p,
        {
            p = p + 1;
        }
        let ghost before = out@;
        if p < out.len() && out[p] == *s {
            proof {
                assert(texts(labels@.take(i + 1)) =~= texts(labels@.take(i as int)).push(s@));
                assert forall|x: Seq<char>| texts(out@).contains(x) <==> texts(labels@.take(i + 1)).contains(x) by {
                    if x == s@ {
                        assert(texts(out@)[p as int] == x);
                    }
                    if texts(labels@.take(i as int)).contains(x) {
                        let k = choose|k: int| 0 <= k < texts(labels@.take(i as int)).len() && texts(labels@.take(i as int))[k] == x;
                        assert(texts(labels@.take(i + 1))[k] == x);
                    }
                }
            }
        } else {
            proof {
                if p < out@.len() {
                    lemma_text_lt_total(out@[p as int]@, s@);
                }
            }
            out.insert(p, s.clone());
            proof {
                assert(out@ == before.insert(p as int, *s));
                assert(forall|k: int| 0 <= k < p ==> out@[k] == before[k]);
                assert(forall|k: int| p < k < out@.len() ==> out@[k] == before[k - 1]);
                assert(out@[p as int] == *s);
                assert forall|a: int, b: int| 0 <= a < b < out@.len() implies text_lt(
                    #[trigger] out@[a]@,
                    #[trigger] out@[b]@,
                ) by {
                    if b < p {
                    } else if a < p && b == p {
                    } else if a < p && b > p {
                        assert(out@[b] == before[b - 1]);
                    } else if a == p {
                        assert(out@[b] == before[b - 1]);
                        if b - 1 > p {
                            assert(text_lt(before[p as int]@, before[b - 1]@));
                            lemma_text_lt_transitive(s@, before[p as int]@, before[b - 1]@);
                        }
                    } else {
                        assert(out@[a] == before[a - 1]);
                        assert(out@[b] == before[b - 1]);
                    }
                }
                assert(texts(labels@.take(i + 1)) =~= texts(labels@.take(i as int)).push(s@));
                assert(texts(out@) =~= texts(before).insert(p as int, s@));
                assert forall|x: Seq<char>| texts(out@).contains(x) <==> texts(labels@.take(i + 1)).contains(x) by {
                    if texts(labels@.take(i + 1)).contains(x) {
                        let k = choose|k: int| 0 <= k < texts(labels@.take(i + 1)).len() && #[trigger] texts(labels@.take(i + 1))[k] == x;
                        if k < i {
                            assert(texts(labels@.take(i as int))[k] == x);
                        } else {
                            assert(x == s@);
                        }
                    }
                    if texts(before).contains(x) {
                        let k = choose|k: int| 0 <= k < texts(before).len() && texts(before)[k] == x;
                        if k < p {
                            assert(texts(out@)[k] == x);
                        } else {
                            assert(texts(out@)[k + 1] == x);
                        }
                    }
                    if x == s@ {
                        assert(texts(out@)[p as int] == x);
                        assert(texts(labels@.take(i + 1))[i as int] == x);
                    }
                    if texts(out@).contains(x) {
                        let k = choose|k: int| 0 <= k < texts(out@).len() && texts(out@)[k] == x;
                        if k < p {
                            assert(texts(before)[k] == x);
                        } else if k > p {
                            assert(texts(before)[k - 1] == x);
                        }
                    }
                    if texts(labels@.take(i as int)).contains(x) {
                        let k = choose|k: int| 0 <= k < texts(labels@.take(i as int)).len() && texts(labels@.take(i as int))[k] == x;
                        assert(texts(labels@.take(i + 1))[k] == x);
                    }
                }
            }
        }
        i = i + 1;
    }
    proof {
        assert(labels@.take(labels@.len() as int) =~= labels@);
    }
    out
}

/// `s` with its trailing whitespace removed (what `str::trim_end` returns).
pub open spec fn trim_end_ws(s: Seq<char>) -> Seq<char>
    decreases s.len(),
{
    if s.len() > 0 && char_whitespace(s.last()) { trim_end_ws(s.drop_last()) } else { s }
}

/// `s` with leading and trailing whitespace removed (what `str::trim`
/// returns).
pub open spec fn trim_ws(s: Seq<char>) -> Seq<char> {
    trim_end_ws(trim_start(s))
}

/// The characters of `s` without trailing whitespace.
pub fn trim_end_chars(v: &Vec<char>) -> (r: Vec<char>)
    ensures
        r@ == trim_end_ws(v@),
{
    let mut n: usize = v.len();
    proof {
        assert(v@.take(n as int) =~= v@);
    }
    while n > 0 && is_whitespace(v[n - 1])
        invariant
            n <= v@.len(),
            trim_end_ws(v@) == trim_end_ws(v@.take(n as int)),
        decreases n,
    {
        proof {
            assert(v@.take(n as int).drop_last() =~= v@.take(n - 1));
        }
        n = n - 1;
    }
    let mut r: Vec<char> = Vec::new();
    let mut j: usize = 0;
    while j < n
        invariant
            j <= n <= v@.len(),
            r@ == v@.take(j as int),
        decreases n - j,
    {
        r.push(v[j]);
        j = j + 1;
        proof {
            assert(v@.take(j as int) =~= v@.take(j - 1).push(v@[j - 1]));
        }
    }
    r
}

/// The characters of `s` without leading or trailing whitespace.
pub fn trim_chars(s: &str) -> (r: Vec<char>)
    ensures
        r@ == trim_ws(s@),
{
    let v = chars_of(s);
    let t = trim_start_chars(&v);
    trim_end_chars(&t)
}

/// ASCII letters lowered, every other character kept (what
/// `to_ascii_lowercase` does).
pub open spec fn ascii_lower_char(c: char) -> char {
    if 'A' <= c && c <= 'Z' { ((c as u32) + 32) as char } else { c }
}

pub open spec fn ascii_lower(s: Seq<char>) -> Seq<char> {
    s.map_values(|c: char| ascii_lower_char(c))
}

/// ASCII letters raised, every other character kept (what
/// `to_ascii_uppercase` does).
pub open spec fn ascii_upper_char(c: char) -> char {
    if 'a' <= c && c <= 'z' { ((c as u32) - 32) as char } else { c }
}

pub open spec fn ascii_upper(s: Seq<char>) -> Seq<char> {
    s.map_values(|c: char| ascii_upper_char(c))
}

/// Every character of `s` is ASCII.
pub open spec fn all_ascii(s: Seq<char>) -> bool {
    forall|i: int| 0 <= i < s.len() ==> (#[trigger] s[i] as u32) < 128
}

fn lower_char(c: char) -> (r: char)
    ensures
        r == ascii_lower_char(c),
{
    if 'A' <= c && c <= 'Z' {
        let b: u8 = ((c as u32) + 32) as u8;
        b as char
    } else {
        c
    }
}

/// The text with ASCII letters lowered.
pub fn ascii_lowercase(v: &Vec<char>) -> (r: Vec<char>)
    ensures
        r@ == ascii_lower(v@),
{
    let mut r: Vec<char> = Vec::new();
    let mut i: usize = 0;
    while i < v.len()
        invariant
            i <= v@.len(),
            r@ == ascii_lower(v@.take(i as int)),
        decreases v.len() - i,
    {
        r.push(lower_char(v[i]));
        i = i + 1;
        proof {
            assert(ascii_lower(v@.take(i as int)) =~= ascii_lower(v@.take(i - 1)).push(ascii_lower_char(v@[i - 1])));
        }
    }
    proof {
        assert(v@.take(v@.len() as int) =~= v@);
    }
    r
}
// ---------------------------------------------------------------------------
// Decimal integers
// ---------------------------------------------------------------------------

/// An ASCII decimal digit.
pub open spec fn is_digit(c: char) -> bool {
    '0' <= c && c <= '9'
}

/// Every character is an ASCII decimal digit.
pub open spec fn all_digits(s: Seq<char>) -> bool {
    forall|i: int| 0 <= i < s.len() ==> is_digit(#[trigger] s[i])
}

/// The value of a string of decimal digits.
pub open spec fn digits_value(s: Seq<char>) -> int
    decreases s.len(),
{
    if s.len() == 0 {
        0
    } else {
        digits_value(s.drop_last()) * 10 + (s.last() as int - '0' as int)
    }
}

/// The sign and the digits of a numeral: a leading `+` or `-` is the sign.
pub open spec fn signed_parts(s: Seq<char>) -> (bool, Seq<char>) {
    if s.len() > 0 && (s[0] == '+' || s[0] == '-') {
        (s[0] == '-', s.skip(1))
    } else {
        (false, s)
    }
}

/// What `str::parse::<i64>` gives: an optional sign followed by at least one
/// ASCII digit, whose value fits in an `i64`; anything else fails.
pub open spec fn i64_parse(s: Seq<char>) -> Option<i64> {
    let (neg, body) = signed_parts(s);
    if body.len() == 0 || !all_digits(body) {
        None
    } else {
        let v = if neg { -digits_value(body) } else { digits_value(body) };
        if i64::MIN <= v && v <= i64::MAX {
            Some(v as i64)
        } else {
            None
        }
    }
}

proof fn lemma_digits_value_grows(s: Seq<char>)
    requires
        all_digits(s),
    ensures
        digits_value(s) >= 0,
        s.len() > 0 ==> digits_value(s) >= digits_value(s.drop_last()),
    decreases s.len(),
{
    if s.len() > 0 {
        assert(all_digits(s.drop_last()));
        lemma_digits_value_grows(s.drop_last());
        assert(is_digit(s[s.len() - 1]));
    }
}

proof fn lemma_digits_value_prefix(s: Seq<char>, i: int, j: int)
    requires
        all_digits(s),
        0 <= i <= j <= s.len(),
    ensures
        digits_value(s.take(i)) <= digits_value(s.take(j)),
    decreases j - i,
{
    if i < j {
        lemma_digits_value_prefix(s, i, j - 1);
        assert(s.take(j).drop_last() =~= s.take(j - 1));
        assert(all_digits(s.take(j)));
        lemma_digits_value_grows(s.take(j));
    }
}

/// Parses a decimal `i64` (see [`i64_parse`]).
pub fn parse_i64(s: &str) -> (r: Option<i64>)
    ensures
        r == i64_parse(s@),
{
    let v = chars_of(s);
    let n = v.len();
    let mut start: usize = 0;
    let mut neg: bool = false;
    if n > 0 && (v[0] == '+' || v[0] == '-') {
        neg = v[0] == '-';
        start = 1;
    }
    let ghost body = signed_parts(s@).1;
    proof {
        assert(body =~= v@.skip(start as int));
        assert(neg == signed_parts(s@).0);
    }
    if start >= n {
        return None;
    }
    let limit: u64 = 9223372036854775808;
    let mut acc: u64 = 0;
    let mut over: bool = false;
    let mut i: usize = start;
    while i < n
        invariant
            start <= i <= n,
            n == v@.len(),
            body == v@.skip(start as int),
            body == signed_parts(s@).1,
            neg == signed_parts(s@).0,
            v@ == s@,
            all_digits(body.take(i - start)),
            !over ==> acc == digits_value(body.take(i - start)) && acc <= limit,
            over ==> digits_value(body.take(i - start)) > limit,
            limit == 9223372036854775808u64,
        decreases n - i,
    {
        let c = v[i];
        if !('0' <= c && c <= '9') {
            proof {
                assert(body[i - start] == c);
                assert(!is_digit(body[i - start]));
                assert(!all_digits(body));
            }
            return None;
        }
        let ghost prev = body.take(i - start);
        let ghost next = body.take(i - start + 1);
        proof {
            assert(next.drop_last() =~= prev);
            assert(next.last() == c);
            assert(all_digits(next));
        }
        let d: u64 = (c as u32 - '0' as u32) as u64;
        if !over {
            if acc > (limit - d) / 10 {
                over = true;
                proof {
                    assert(digits_value(next) == acc * 10 + d);
                    assert(acc * 10 + d > limit) by (nonlinear_arith)
                        requires
                            acc > (limit - d) / 10,
                            d <= 9,
                            limit == 9223372036854775808u64,
                    ;
                }
            } else {
                proof {
                    assert(acc * 10 + d <= limit) by (nonlinear_arith)
                        requires
                            acc <= (limit - d) / 10,
                            d <= 9,
                            limit == 9223372036854775808u64,
                    ;
                }
                acc = acc * 10 + d;
            }
        } else {
            proof {
                lemma_digits_value_grows(next);
            }
        }
        i = i + 1;
    }
    proof {
        assert(body.take(n - start) =~= body);
    }
    if over {
        return None;
    }
    if neg {
        if acc == limit {
            Some(i64::MIN)
        } else {
            Some(-(acc as i64))
        }
    } else {
        if acc < limit {
            Some(acc as i64)
        } else {
            None
        }
    }
}

} // verus!
