//! Character-level helpers shared by the string-processing modules: Unicode
//! whitespace, trimming, ASCII case folding and splitting, each stated over
//! the character sequence a `str` or `String` views as.

use vstd::prelude::*;

verus! {

/// `String::push` appends one character.
pub assume_specification[ String::push ](s: &mut String, ch: char)
    ensures
        final(s)@ == old(s)@.push(ch),
;

/// The characters of `s`, in order.
pub fn chars_of(s: &str) -> (v: Vec<char>)
    ensures
        v@ == s@,
{
    let mut v: Vec<char> = Vec::new();
    for c in it: s.chars()
        invariant
            v@ == it.seq().take(it.index() as int),
    {
        v.push(c);
    }
    v
}

/// A `String` holding exactly the characters of `v`.
pub fn string_of(v: &[char]) -> (s: String)
    ensures
        s@ == v@,
{
    let mut s = String::new();
    let mut i: usize = 0;
    while i < v.len()
        invariant
            i <= v.len(),
            s@ == v@.take(i as int),
        decreases v.len() - i,
    {
        s.push(v[i]);
        i = i + 1;
        assert(v@.take(i as int) == v@.take((i - 1) as int).push(v@[i - 1]));
    }
    assert(v@.take(v.len() as int) == v@);
    s
}

/// Whether `a` and `b` hold the same characters.
pub fn texts_equal(a: &str, b: &str) -> (r: bool)
    ensures
        r == (a@ == b@),
{
    let x = chars_of(a);
    let y = chars_of(b);
    chars_equal(x.as_slice(), y.as_slice())
}

/// An owned copy of `t`.
pub fn owned(t: &str) -> (r: String)
    ensures
        r@ == t@,
{
    let mut r = String::new();
    push_all(&mut r, t);
    r
}

/// `s` followed by the characters of `t`.
pub fn push_all(s: &mut String, t: &str)
    ensures
        final(s)@ == old(s)@ + t@,
{
    let chars = chars_of(t);
    let mut i: usize = 0;
    while i < chars.len()
        invariant
            i <= chars.len(),
            chars@ == t@,
            s@ == old(s)@ + t@.take(i as int),
        decreases chars.len() - i,
    {
        s.push(chars[i]);
        i = i + 1;
        assert(t@.take(i as int) == t@.take((i - 1) as int).push(t@[i - 1]));
    }
    assert(t@.take(chars.len() as int) == t@);
}

/// The White_Space property of the Unicode Character Database, which is what
/// `char::is_whitespace` tests.
pub open spec fn is_white_space(c: char) -> bool {
    let u = c as u32;
    ||| 0x9 <= u <= 0xD
    ||| u == 0x20
    ||| u == 0x85
    ||| u == 0xA0
    ||| u == 0x1680
    ||| 0x2000 <= u <= 0x200A
    ||| u == 0x2028
    ||| u == 0x2029
    ||| u == 0x202F
    ||| u == 0x205F
    ||| u == 0x3000
}

pub fn is_whitespace(c: char) -> (r: bool)
    ensures
        r == is_white_space(c),
{
    let u = c as u32;
    (0x9 <= u && u <= 0xD) || u == 0x20 || u == 0x85 || u == 0xA0 || u == 0x1680 || (0x2000 <= u
        && u <= 0x200A) || u == 0x2028 || u == 0x2029 || u == 0x202F || u == 0x205F || u == 0x3000
}

/// Which characters a trim removes.
#[derive(Clone, Copy, PartialEq, Eq)]
pub enum TrimSet {
    /// Unicode whitespace, as `str::trim` removes.
    Whitespace,
    /// The character `/`, as `str::trim_matches('/')` removes.
    Slash,
}

pub open spec fn trimmed_by(set: TrimSet, c: char) -> bool {
    match set {
        TrimSet::Whitespace => is_white_space(c),
        TrimSet::Slash => c == '/',
    }
}

/// `s` without its leading characters of `set`.
pub open spec fn trim_start(set: TrimSet, s: Seq<char>) -> Seq<char>
    decreases s.len(),
{
    if s.len() > 0 && trimmed_by(set, s[0]) {
        trim_start(set, s.drop_first())
    } else {
        s
    }
}

/// `s` without its trailing characters of `set`.
pub open spec fn trim_end(set: TrimSet, s: Seq<char>) -> Seq<char>
    decreases s.len(),
{
    if s.len() > 0 && trimmed_by(set, s.last()) {
        trim_end(set, s.drop_last())
    } else {
        s
    }
}

/// `s` without its leading and trailing characters of `set`.
pub open spec fn trim(set: TrimSet, s: Seq<char>) -> Seq<char> {
    trim_end(set, trim_start(set, s))
}

fn trims(set: TrimSet, c: char) -> (r: bool)
    ensures
        r == trimmed_by(set, c),
{
    match set {
        TrimSet::Whitespace => is_whitespace(c),
        TrimSet::Slash => c == '/',
    }
}

proof fn lemma_trim_start_skip(set: TrimSet, s: Seq<char>, i: int)
    requires
        0 <= i <= s.len(),
        forall|k: int| 0 <= k < i ==> trimmed_by(set, #[trigger] s[k]),
    ensures
        trim_start(set, s) == trim_start(set, s.skip(i)),
    decreases i,
{
    if i > 0 {
        assert(s.skip(1) == s.drop_first());
        lemma_trim_start_skip(set, s.drop_first(), i - 1);
        assert(s.drop_first().skip(i - 1) == s.skip(i));
    } else {
        assert(s.skip(0) == s);
    }
}

proof fn lemma_trim_end_take(set: TrimSet, s: Seq<char>, j: int)
    requires
        0 <= j <= s.len(),
        forall|k: int| j <= k < s.len() ==> trimmed_by(set, #[trigger] s[k]),
    ensures
        trim_end(set, s) == trim_end(set, s.take(j)),
    decreases s.len() - j,
{
    if j < s.len() {
        assert(s.take(s.len() - 1) == s.drop_last());
        lemma_trim_end_take(set, s.drop_last(), j);
        assert(s.drop_last().take(j) == s.take(j));
    } else {
        assert(s.take(j) == s);
    }
}

proof fn lemma_trim_start_shape(set: TrimSet, s: Seq<char>)
    ensures
        trim_start(set, s).len() == 0 || !trimmed_by(set, trim_start(set, s)[0]),
    decreases s.len(),
{
    if s.len() > 0 && trimmed_by(set, s[0]) {
        lemma_trim_start_shape(set, s.drop_first());
    }
}

proof fn lemma_trim_end_shape(set: TrimSet, s: Seq<char>)
    ensures
        trim_end(set, s).len() <= s.len(),
        trim_end(set, s) == s.take(trim_end(set, s).len() as int),
        trim_end(set, s).len() == 0 || !trimmed_by(set, trim_end(set, s).last()),
    decreases s.len(),
{
    if s.len() > 0 && trimmed_by(set, s.last()) {
        lemma_trim_end_shape(set, s.drop_last());
        let t = trim_end(set, s.drop_last());
        assert(s.drop_last().take(t.len() as int) =~= s.take(t.len() as int));
    } else {
        assert(s.take(s.len() as int) =~= s);
    }
}

/// Trimming what is already trimmed changes nothing.
pub proof fn lemma_trim_idempotent(set: TrimSet, s: Seq<char>)
    ensures
        trim(set, trim(set, s)) == trim(set, s),
{
    let t0 = trim_start(set, s);
    let t = trim_end(set, t0);
    lemma_trim_start_shape(set, s);
    lemma_trim_end_shape(set, t0);
    if t.len() > 0 {
        assert(t[0] == t0[0]);
        assert(trim_start(set, t) == t);
        assert(trim_end(set, t) == t);
    }
}

/// The characters of `v` without the trailing ones of `set`.
pub fn trim_end_chars(set: TrimSet, v: &[char]) -> (r: Vec<char>)
    ensures
        r@ == trim_end(set, v@),
{
    let mut j = v.len();
    while j > 0 && trims(set, v[j - 1])
        invariant
            j <= v.len(),
            forall|k: int| j <= k < v.len() ==> trimmed_by(set, #[trigger] v@[k]),
        decreases j,
    {
        j = j - 1;
    }
    proof {
        lemma_trim_end_take(set, v@, j as int);
    }
    let mut r: Vec<char> = Vec::new();
    let mut i: usize = 0;
    while i < j
        invariant
            i <= j <= v.len(),
            r@ == v@.take(i as int),
        decreases j - i,
    {
        r.push(v[i]);
        i = i + 1;
        assert(v@.take(i as int) =~= v@.take(i - 1).push(v@[i - 1]));
    }
    proof {
        if j > 0 {
            assert(v@.take(j as int).last() == v@[j - 1]);
        }
    }
    r
}

/// The characters of `v` without the leading and trailing ones of `set`.
pub fn trim_chars(set: TrimSet, v: &[char]) -> (r: Vec<char>)
    ensures
        r@ == trim(set, v@),
{
    let mut lo: usize = 0;
    while lo < v.len() && trims(set, v[lo])
        invariant
            lo <= v.len(),
            forall|k: int| 0 <= k < lo ==> trimmed_by(set, #[trigger] v@[k]),
        decreases v.len() - lo,
    {
        lo = lo + 1;
    }
    proof {
        lemma_trim_start_skip(set, v@, lo as int);
    }
    let ghost rest = v@.skip(lo as int);
    let mut hi: usize = v.len();
    while hi > lo && trims(set, v[hi - 1])
        invariant
            lo <= hi <= v.len(),
            rest == v@.skip(lo as int),
            forall|k: int| hi <= k < v.len() ==> trimmed_by(set, #[trigger] v@[k]),
        decreases hi,
    {
        hi = hi - 1;
    }
    proof {
        assert forall|k: int| (hi - lo) <= k < rest.len() implies trimmed_by(set, #[trigger] rest[k]) by {
            assert(rest[k] == v@[k + lo]);
        }
        lemma_trim_end_take(set, rest, (hi - lo) as int);
        if lo < v.len() {
            assert(!trimmed_by(set, rest[0]));
        }
        assert(trim_start(set, rest) == rest);
        if hi > lo {
            assert(!trimmed_by(set, rest.take((hi - lo) as int).last()));
        }
        assert(trim_end(set, rest.take((hi - lo) as int)) == rest.take((hi - lo) as int));
    }
    let mut r: Vec<char> = Vec::new();
    let mut i: usize = lo;
    while i < hi
        invariant
            lo <= i <= hi <= v.len(),
            r@ == v@.subrange(lo as int, i as int),
        decreases hi - i,
    {
        r.push(v[i]);
        i = i + 1;
        assert(v@.subrange(lo as int, i as int) == v@.subrange(lo as int, (i - 1) as int).push(
            v@[i - 1],
        ));
    }
    assert(rest.take((hi - lo) as int) == v@.subrange(lo as int, hi as int));
    r
}

/// Whether `c` occurs in `v`.
pub fn contains_char(v: &[char], c: char) -> (r: bool)
    ensures
        r == v@.contains(c),
{
    let mut i: usize = 0;
    while i < v.len()
        invariant
            i <= v.len(),
            forall|k: int| 0 <= k < i ==> v@[k] != c,
        decreases v.len() - i,
    {
        if v[i] == c {
            assert(v@[i as int] == c);
            return true;
        }
        i = i + 1;
    }
    false
}

/// Whether the characters of `a` and `b` are equal.
pub fn chars_equal(a: &[char], b: &[char]) -> (r: bool)
    ensures
        r == (a@ == b@),
{
    if a.len() != b.len() {
        return false;
    }
    let mut i: usize = 0;
    while i < a.len()
        invariant
            i <= a.len() == b.len(),
            forall|k: int| 0 <= k < i ==> a@[k] == b@[k],
        decreases a.len() - i,
    {
        if a[i] != b[i] {
            return false;
        }
        i = i + 1;
    }
    assert(a@ =~= b@);
    true
}

/// ASCII lowercase of one character; every other character is unchanged.
pub open spec fn ascii_lower(c: char) -> char {
    if 'A' <= c <= 'Z' {
        ((c as u32) + 32) as char
    } else {
        c
    }
}

/// Equality up to ASCII case, which is what `str::eq_ignore_ascii_case`
/// tests (it compares bytes, and UTF-8 only uses ASCII bytes for ASCII
/// characters, so comparing characters gives the same answer).
pub open spec fn eq_ignore_ascii_case(a: Seq<char>, b: Seq<char>) -> bool {
    &&& a.len() == b.len()
    &&& forall|i: int| 0 <= i < a.len() ==> ascii_lower(#[trigger] a[i]) == ascii_lower(b[i])
}

fn lower(c: char) -> (r: char)
    ensures
        r == ascii_lower(c),
{
    if 'A' <= c && c <= 'Z' {
        let u = ((c as u32) + 32) as u8;
        u as char
    } else {
        c
    }
}

pub fn chars_eq_ignore_ascii_case(a: &[char], b: &[char]) -> (r: bool)
    ensures
        r == eq_ignore_ascii_case(a@, b@),
{
    if a.len() != b.len() {
        return false;
    }
    let mut i: usize = 0;
    while i < a.len()
        invariant
            i <= a.len() == b.len(),
            forall|k: int| 0 <= k < i ==> ascii_lower(#[trigger] a@[k]) == ascii_lower(b@[k]),
        decreases a.len() - i,
    {
        if lower(a[i]) != lower(b[i]) {
            return false;
        }
        i = i + 1;
    }
    true
}

} // verus!

verus! {

/// The decimal digit character for `d < 10`.
pub open spec fn digit_char(d: nat) -> char {
    ((d + 48) as u8) as char
}

/// The decimal representation of `n`, without leading zeros ("0" for zero).
pub open spec fn decimal(n: nat) -> Seq<char>
    decreases n,
{
    if n < 10 {
        seq![digit_char(n)]
    } else {
        decimal(n / 10).push(digit_char(n % 10))
    }
}

/// The decimal representation of `n`, as `n.to_string()` gives it.
pub fn decimal_string(n: u64) -> (s: String)
    ensures
        s@ == decimal(n as nat),
{
    let mut digits: Vec<char> = Vec::new();
    let mut m: u64 = n;
    // digits holds the lowest digits of n, least significant first.
    while m >= 10
        invariant
            decimal(n as nat) == decimal(m as nat) + digits@.reverse(),
        decreases m,
    {
        let d = (m % 10) as u8;
        let c = (d + 48) as char;
        proof {
            assert(decimal(m as nat) == decimal((m / 10) as nat).push(digit_char((m % 10) as nat)));
            assert(digits@.push(c).reverse() =~= seq![c] + digits@.reverse());
        }
        digits.push(c);
        m = m / 10;
    }
    let d = m as u8;
    digits.push((d + 48) as char);
    assert(digits@.reverse() =~= seq![digit_char(m as nat)] + digits@.drop_last().reverse());
    let mut out: Vec<char> = Vec::new();
    let mut i: usize = digits.len();
    while i > 0
        invariant
            i <= digits.len(),
            out@ =~= digits@.subrange(i as int, digits.len() as int).reverse(),
        decreases i,
    {
        i = i - 1;
        out.push(digits[i]);
        assert(digits@.subrange(i as int, digits.len() as int).reverse() =~= digits@.subrange(
            (i + 1) as int,
            digits.len() as int,
        ).reverse().push(digits@[i as int]));
    }
    assert(digits@.subrange(0, digits.len() as int) == digits@);
    string_of(&out)
}

} // verus!

verus! {

/// `a` sorts strictly before `b`: code point by code point, a proper prefix
/// first. This is the order of `String`'s `Ord`, since UTF-8 keeps code point
/// order in bytes.
pub open spec fn lex_lt(a: Seq<char>, b: Seq<char>) -> bool
    decreases a.len(),
{
    if a.len() == 0 {
        b.len() > 0
    } else if b.len() == 0 {
        false
    } else if a[0] != b[0] {
        (a[0] as u32) < (b[0] as u32)
    } else {
        lex_lt(a.drop_first(), b.drop_first())
    }
}

pub proof fn lemma_lex_total(a: Seq<char>, b: Seq<char>)
    ensures
        lex_lt(a, b) || lex_lt(b, a) || a == b,
        !(lex_lt(a, b) && lex_lt(b, a)),
    decreases a.len(),
{
    if a.len() > 0 && b.len() > 0 {
        lemma_lex_total(a.drop_first(), b.drop_first());
        if a[0] == b[0] && a.drop_first() == b.drop_first() {
            assert(a =~= seq![a[0]] + a.drop_first());
            assert(b =~= seq![b[0]] + b.drop_first());
        }
        if a[0] != b[0] {
            assert((a[0] as u32) != (b[0] as u32)) by {
                vstd::utf8::char_u32_cast(a[0], a[0] as u32);
                vstd::utf8::char_u32_cast(b[0], b[0] as u32);
            }
        }
    } else if a.len() == 0 && b.len() == 0 {
        assert(a =~= b);
    }
}

pub proof fn lemma_lex_irreflexive(a: Seq<char>)
    ensures
        !lex_lt(a, a),
    decreases a.len(),
{
    if a.len() > 0 {
        lemma_lex_irreflexive(a.drop_first());
    }
}

pub proof fn lemma_lex_transitive(a: Seq<char>, b: Seq<char>, c: Seq<char>)
    requires
        lex_lt(a, b),
        lex_lt(b, c),
    ensures
        lex_lt(a, c),
    decreases a.len(),
{
    if a.len() > 0 && b.len() > 0 && c.len() > 0 {
        if a[0] == b[0] && b[0] == c[0] {
            lemma_lex_transitive(a.drop_first(), b.drop_first(), c.drop_first());
        }
    }
}

/// Whether `a` sorts strictly before `b` (see [`lex_lt`]).
pub fn chars_lt(a: &[char], b: &[char]) -> (r: bool)
    ensures
        r == lex_lt(a@, b@),
{
    let mut i: usize = 0;
    assert(a@.skip(0) =~= a@ && b@.skip(0) =~= b@);
    while i < a.len() && i < b.len() && a[i] == b[i]
        invariant
            i <= a.len(),
            i <= b.len(),
            lex_lt(a@, b@) == lex_lt(a@.skip(i as int), b@.skip(i as int)),
        decreases a.len() - i,
    {
        proof {
            let x = a@.skip(i as int);
            let y = b@.skip(i as int);
            assert(x.drop_first() =~= a@.skip(i + 1));
            assert(y.drop_first() =~= b@.skip(i + 1));
        }
        i = i + 1;
    }
    if i == a.len() {
        return i < b.len();
    }
    if i == b.len() {
        return false;
    }
    (a[i] as u32) < (b[i] as u32)
}

/// Sorted strictly ascending by [`lex_lt`], so without repeats.
pub open spec fn strictly_sorted(v: Seq<Seq<char>>) -> bool {
    forall|i: int, j: int| 0 <= i < j < v.len() ==> lex_lt(#[trigger] v[i], #[trigger] v[j])
}

fn sorts_before(x: &String, key: &[char]) -> (r: bool)
    ensures
        r == lex_lt(x@, key@),
{
    let here = chars_of(x.as_str());
    chars_lt(here.as_slice(), key)
}

/// Inserts `s` into the sorted, repeat-free `v` unless it is already there,
/// as `BTreeSet::insert` keeps its elements.
pub fn insert_sorted(v: &mut Vec<String>, s: String)
    requires
        strictly_sorted(old(v)@.map_values(|x: String| x@)),
    ensures
        strictly_sorted(final(v)@.map_values(|x: String| x@)),
        final(v)@.map_values(|x: String| x@).to_set() == old(v)@.map_values(|x: String| x@).to_set().insert(s@),
{
    let ghost old_views = v@.map_values(|x: String| x@);
    let key = chars_of(s.as_str());
    let mut k: usize = 0;
    while k < v.len() && sorts_before(&v[k], key.as_slice())
        invariant
            k <= v.len(),
            key@ == s@,
            v@.map_values(|x: String| x@) == old_views,
            strictly_sorted(old_views),
            forall|j: int| 0 <= j < k ==> lex_lt(#[trigger] old_views[j], s@),
        decreases v.len() - k,
    {
        assert(old_views[k as int] == v@[k as int]@);
        k = k + 1;
    }
    if k < v.len() {
        let here = chars_of(v[k].as_str());
        assert(old_views[k as int] == v@[k as int]@);
        if crate::text::chars_equal(here.as_slice(), key.as_slice()) {
            assert(old_views.to_set().insert(s@) =~= old_views.to_set()) by {
                assert(old_views.contains(s@));
            }
            return;
        }
        proof {
            lemma_lex_total(old_views[k as int], s@);
        }
    }
    v.insert(k, s);
    proof {
        let nv = v@.map_values(|x: String| x@);
        assert(nv =~= old_views.insert(k as int, s@));
        assert forall|i: int, j: int| 0 <= i < j < nv.len() implies lex_lt(#[trigger] nv[i], #[trigger] nv[j]) by {
            if j < k {
            } else if i < k && j == k {
            } else if i < k && j > k {
                assert(nv[j] == old_views[j - 1]);
                if j - 1 > k {
                    lemma_lex_transitive(s@, old_views[k as int], old_views[j - 1]);
                }
                lemma_lex_transitive(nv[i], s@, nv[j]);
            } else if i == k {
                assert(nv[j] == old_views[j - 1]);
                if j - 1 > k {
                    lemma_lex_transitive(s@, old_views[k as int], old_views[j - 1]);
                }
            } else {
                assert(nv[i] == old_views[i - 1]);
                assert(nv[j] == old_views[j - 1]);
            }
        }
        assert(nv.to_set() =~= old_views.to_set().insert(s@)) by {
            assert forall|x: Seq<char>| nv.to_set().contains(x) <==> old_views.to_set().insert(s@).contains(x) by {
                if nv.contains(x) {
                    let i = choose|i: int| 0 <= i < nv.len() && nv[i] == x;
                    if i < k {
                        assert(old_views[i] == x);
                    } else if i > k {
                        assert(old_views[i - 1] == x);
                    }
                }
                if old_views.contains(x) {
                    let i = choose|i: int| 0 <= i < old_views.len() && old_views[i] == x;
                    if i < k {
                        assert(nv[i] == x);
                    } else {
                        assert(nv[i + 1] == x);
                    }
                }
                if x == s@ {
                    assert(nv[k as int] == x);
                }
            }
        }
    }
}

} // verus!

verus! {

proof fn lemma_sorted_head_not_in_tail(a: Seq<Seq<char>>)
    requires
        strictly_sorted(a),
        a.len() > 0,
    ensures
        !a.drop_first().contains(a[0]),
        strictly_sorted(a.drop_first()),
{
    lemma_lex_irreflexive(a[0]);
    if a.drop_first().contains(a[0]) {
        let i = choose|i: int| 0 <= i < a.drop_first().len() && a.drop_first()[i] == a[0];
        assert(lex_lt(a[0], a[i + 1]));
    }
    assert forall|i: int, j: int| 0 <= i < j < a.drop_first().len() implies lex_lt(
        #[trigger] a.drop_first()[i],
        #[trigger] a.drop_first()[j],
    ) by {
        assert(a.drop_first()[i] == a[i + 1] && a.drop_first()[j] == a[j + 1]);
    }
}

/// A strictly sorted sequence is determined by its set of elements.
pub proof fn lemma_sorted_unique(a: Seq<Seq<char>>, b: Seq<Seq<char>>)
    requires
        strictly_sorted(a),
        strictly_sorted(b),
        a.to_set() == b.to_set(),
    ensures
        a == b,
    decreases a.len(),
{
    if a.len() == 0 {
        if b.len() > 0 {
            assert(b.to_set().contains(b[0]));
        }
        assert(a =~= b);
    } else {
        assert(a.to_set().contains(a[0]));
        assert(b.contains(a[0]));
        assert(b.len() > 0);
        assert(b.to_set().contains(b[0]));
        assert(a.contains(b[0]));
        let i = choose|i: int| 0 <= i < a.len() && a[i] == b[0];
        let j = choose|j: int| 0 <= j < b.len() && b[j] == a[0];
        if i > 0 && j > 0 {
            assert(lex_lt(a[0], a[i]));
            assert(lex_lt(b[0], b[j]));
            lemma_lex_total(a[0], b[0]);
        }
        if i == 0 {
            assert(a[0] == b[0]);
        } else {
            assert(b[0] == a[0]);
        }
        lemma_sorted_head_not_in_tail(a);
        lemma_sorted_head_not_in_tail(b);
        assert(a.drop_first().to_set() =~= b.drop_first().to_set()) by {
            assert forall|x: Seq<char>| a.drop_first().to_set().contains(x) <==> b.drop_first().to_set().contains(x) by {
                if a.drop_first().contains(x) {
                    let k = choose|k: int| 0 <= k < a.drop_first().len() && a.drop_first()[k] == x;
                    assert(a[k + 1] == x);
                    assert(a.to_set().contains(x));
                    let m = choose|m: int| 0 <= m < b.len() && b[m] == x;
                    if m == 0 {
                        assert(a.drop_first().contains(a[0]));
                    }
                    assert(b.drop_first()[m - 1] == x);
                }
                if b.drop_first().contains(x) {
                    let k = choose|k: int| 0 <= k < b.drop_first().len() && b.drop_first()[k] == x;
                    assert(b[k + 1] == x);
                    assert(b.to_set().contains(x));
                    let m = choose|m: int| 0 <= m < a.len() && a[m] == x;
                    if m == 0 {
                        assert(b.drop_first().contains(b[0]));
                    }
                    assert(a.drop_first()[m - 1] == x);
                }
            }
        }
        lemma_sorted_unique(a.drop_first(), b.drop_first());
        assert(a =~= seq![a[0]] + a.drop_first());
        assert(b =~= seq![b[0]] + b.drop_first());
    }
}

/// The elements of a finite set of strings in ascending order, as a
/// `BTreeSet` iterates them.
pub open spec fn sorted_listing(s: Set<Seq<char>>) -> Seq<Seq<char>> {
    choose|v: Seq<Seq<char>>| strictly_sorted(v) && v.to_set() == s
}

pub proof fn lemma_sorted_listing(v: Seq<Seq<char>>)
    requires
        strictly_sorted(v),
    ensures
        sorted_listing(v.to_set()) == v,
{
    let w = sorted_listing(v.to_set());
    assert(strictly_sorted(w) && w.to_set() == v.to_set());
    lemma_sorted_unique(w, v);
}

} // verus!
