//! Character-level text helpers with exact specifications.
//!
//! Strings are modelled by their `Seq<char>` views. Every helper here states
//! its result in terms of a spec function over those views; the card, prompt,
//! lorebook and memory modules build their own contracts on top of these.

use vstd::prelude::*;

verus! {

/// Unicode `White_Space` property, the set that `char::is_whitespace` uses.
pub open spec fn is_ws(c: char) -> bool {
    let u = c as u32;
    ||| (0x9 <= u && u <= 0xD)
    ||| u == 0x20
    ||| u == 0x85
    ||| u == 0xA0
    ||| u == 0x1680
    ||| (0x2000 <= u && u <= 0x200A)
    ||| u == 0x2028
    ||| u == 0x2029
    ||| u == 0x202F
    ||| u == 0x205F
    ||| u == 0x3000
}

/// Executable whitespace test.
pub fn is_whitespace(c: char) -> (r: bool)
    ensures
        r == is_ws(c),
{
    let u = c as u32;
    (0x9 <= u && u <= 0xD) || u == 0x20 || u == 0x85 || u == 0xA0 || u == 0x1680 || (0x2000 <= u
        && u <= 0x200A) || u == 0x2028 || u == 0x2029 || u == 0x202F || u == 0x205F || u == 0x3000
}

/// `s` with leading whitespace removed (`str::trim_start`).
pub open spec fn trim_start(s: Seq<char>) -> Seq<char>
    decreases s.len(),
{
    if s.len() > 0 && is_ws(s[0]) {
        trim_start(s.drop_first())
    } else {
        s
    }
}

/// `s` with trailing whitespace removed (`str::trim_end`).
pub open spec fn trim_end(s: Seq<char>) -> Seq<char>
    decreases s.len(),
{
    if s.len() > 0 && is_ws(s.last()) {
        trim_end(s.drop_last())
    } else {
        s
    }
}

/// `str::trim`: both ends stripped of whitespace.
pub open spec fn trim(s: Seq<char>) -> Seq<char> {
    trim_end(trim_start(s))
}

/// A string that is empty once trimmed.
pub open spec fn is_blank(s: Seq<char>) -> bool {
    trim(s).len() == 0
}

/// `s` begins with `p`.
pub open spec fn starts_with(s: Seq<char>, p: Seq<char>) -> bool {
    p.len() <= s.len() && s.subrange(0, p.len() as int) == p
}

/// `s` ends with `p`.
pub open spec fn ends_with(s: Seq<char>, p: Seq<char>) -> bool {
    p.len() <= s.len() && s.subrange(s.len() - p.len(), s.len() as int) == p
}

/// `str::replace` with a non-empty pattern: every occurrence of `p`, found
/// left to right without overlap, is replaced by `r`.
pub open spec fn replace_all(s: Seq<char>, p: Seq<char>, r: Seq<char>) -> Seq<char>
    decreases s.len(),
{
    if p.len() == 0 || s.len() < p.len() {
        s
    } else if s.subrange(0, p.len() as int) == p {
        r + replace_all(s.subrange(p.len() as int, s.len() as int), p, r)
    } else {
        seq![s[0]] + replace_all(s.drop_first(), p, r)
    }
}

/// Index of the first occurrence of `c` (`str::find` counted in characters).
pub open spec fn find_char(s: Seq<char>, c: char) -> Option<int>
    decreases s.len(),
{
    if s.len() == 0 {
        None
    } else if s[0] == c {
        Some(0)
    } else {
        match find_char(s.drop_first(), c) {
            Some(i) => Some(i + 1),
            None => None,
        }
    }
}

/// Index of the last occurrence of `c` (`str::rfind` counted in characters).
pub open spec fn rfind_char(s: Seq<char>, c: char) -> Option<int>
    decreases s.len(),
{
    if s.len() == 0 {
        None
    } else if s.last() == c {
        Some(s.len() - 1)
    } else {
        rfind_char(s.drop_last(), c)
    }
}

/// `parts` joined with `sep` between neighbours (`[T]::join`).
pub open spec fn join(parts: Seq<Seq<char>>, sep: Seq<char>) -> Seq<char>
    decreases parts.len(),
{
    if parts.len() == 0 {
        Seq::empty()
    } else if parts.len() == 1 {
        parts[0]
    } else {
        join(parts.drop_last(), sep) + sep + parts.last()
    }
}

/// The views of a sequence of strings.
pub open spec fn views(v: Seq<String>) -> Seq<Seq<char>> {
    v.map_values(|s: String| s@)
}

/// ASCII digit for `d < 10`.
pub open spec fn digit(d: nat) -> char {
    if d == 0 {
        '0'
    } else if d == 1 {
        '1'
    } else if d == 2 {
        '2'
    } else if d == 3 {
        '3'
    } else if d == 4 {
        '4'
    } else if d == 5 {
        '5'
    } else if d == 6 {
        '6'
    } else if d == 7 {
        '7'
    } else if d == 8 {
        '8'
    } else {
        '9'
    }
}

/// Decimal rendering of a natural number, as `Display` prints integers.
pub open spec fn decimal(n: nat) -> Seq<char>
    decreases n,
{
    if n < 10 {
        seq![digit(n)]
    } else {
        decimal(n / 10).push(digit(n % 10))
    }
}

// ---------------------------------------------------------------------------
// Lemmas
// ---------------------------------------------------------------------------

/// A decimal rendering has at least one digit, and at least two from 10 on.
pub proof fn lemma_decimal_len(n: nat)
    ensures
        decimal(n).len() >= 1,
        n >= 10 ==> decimal(n).len() >= 2,
    decreases n,
{
    if n >= 10 {
        lemma_decimal_len(n / 10);
    }
}

/// Different numbers render differently.
pub proof fn lemma_decimal_injective(n: nat, m: nat)
    requires
        decimal(n) == decimal(m),
    ensures
        n == m,
    decreases n,
{
    lemma_decimal_len(n);
    lemma_decimal_len(m);
    if n < 10 && m < 10 {
        assert(decimal(n)[0] == digit(n));
        assert(decimal(m)[0] == digit(m));
    } else if n >= 10 && m >= 10 {
        assert(decimal(n).last() == digit(n % 10));
        assert(decimal(m).last() == digit(m % 10));
        assert(decimal(n).drop_last() =~= decimal(n / 10));
        assert(decimal(m).drop_last() =~= decimal(m / 10));
        lemma_decimal_injective(n / 10, m / 10);
    }
}

/// Dropping a whitespace prefix does not change `trim_start`.
pub proof fn lemma_trim_start_skip(s: Seq<char>, i: int)
    requires
        0 <= i <= s.len(),
        forall|j: int| 0 <= j < i ==> is_ws(#[trigger] s[j]),
    ensures
        trim_start(s) == trim_start(s.subrange(i, s.len() as int)),
    decreases i,
{
    if i > 0 {
        assert(s.drop_first() =~= s.subrange(1, s.len() as int));
        lemma_trim_start_skip(s.drop_first(), i - 1);
        assert(s.drop_first().subrange(i - 1, s.drop_first().len() as int) =~= s.subrange(
            i,
            s.len() as int,
        ));
    } else {
        assert(s.subrange(0, s.len() as int) =~= s);
    }
}

/// Dropping a whitespace suffix does not change `trim_end`.
pub proof fn lemma_trim_end_take(s: Seq<char>, k: int)
    requires
        0 <= k <= s.len(),
        forall|j: int| k <= j < s.len() ==> is_ws(#[trigger] s[j]),
    ensures
        trim_end(s) == trim_end(s.subrange(0, k)),
    decreases s.len() - k,
{
    if k < s.len() {
        assert(s.drop_last() =~= s.subrange(0, s.len() - 1));
        lemma_trim_end_take(s.drop_last(), k);
        assert(s.drop_last().subrange(0, k) =~= s.subrange(0, k));
    } else {
        assert(s.subrange(0, k) =~= s);
    }
}

/// `trim` is the slice between the first and the last non-whitespace character.
pub proof fn lemma_trim_bounds(s: Seq<char>, lo: int, hi: int)
    requires
        0 <= lo <= hi <= s.len(),
        forall|j: int| 0 <= j < lo ==> is_ws(#[trigger] s[j]),
        forall|j: int| hi <= j < s.len() ==> is_ws(#[trigger] s[j]),
        lo == hi || (!is_ws(s[lo]) && !is_ws(s[hi - 1])),
    ensures
        trim(s) == s.subrange(lo, hi),
{
    lemma_trim_start_skip(s, lo);
    let t = s.subrange(lo, s.len() as int);
    if lo < s.len() && lo < hi {
        assert(t[0] == s[lo]);
    }
    if lo == hi {
        // everything from lo on is whitespace as well
        assert forall|j: int| 0 <= j < t.len() implies is_ws(#[trigger] t[j]) by {
            assert(t[j] == s[lo + j]);
        }
        lemma_trim_start_skip(t, t.len() as int);
        assert(t.subrange(t.len() as int, t.len() as int) =~= Seq::<char>::empty());
        lemma_trim_start_skip(s, s.len() as int);
        assert(s.subrange(s.len() as int, s.len() as int) =~= Seq::<char>::empty());
        assert(trim_start(s) == trim_start(Seq::<char>::empty()));
        assert(s.subrange(lo, hi) =~= Seq::<char>::empty());
    } else {
        assert(trim_start(t) == t);
        assert forall|j: int| hi - lo <= j < t.len() implies is_ws(#[trigger] t[j]) by {
            assert(t[j] == s[lo + j]);
        }
        lemma_trim_end_take(t, hi - lo);
        let u = t.subrange(0, hi - lo);
        assert(u =~= s.subrange(lo, hi));
        assert(u.last() == s[hi - 1]);
    }
}

/// A trimmed string trims to itself.
pub proof fn lemma_trim_idempotent(s: Seq<char>)
    ensures
        trim(trim(s)) == trim(s),
{
    let lo = trim_lo(s);
    let hi = trim_hi(s, lo);
    lemma_trim_lo_hi(s);
    lemma_trim_lo(s);
    lemma_trim_hi(s, lo);
    let t = s.subrange(lo, hi);
    assert(trim(s) == t);
    if lo == hi {
        assert(t.len() == 0);
        lemma_trim_bounds(t, 0, 0);
    } else {
        assert(t[0] == s[lo]);
        assert(t[t.len() - 1] == s[hi - 1]);
        lemma_trim_bounds(t, 0, t.len() as int);
        assert(t.subrange(0, t.len() as int) =~= t);
    }
}

/// Start of the trimmed slice.
pub open spec fn trim_lo(s: Seq<char>) -> int
    decreases s.len(),
{
    if s.len() > 0 && is_ws(s[0]) {
        1 + trim_lo(s.drop_first())
    } else {
        0
    }
}

/// End of the trimmed slice (exclusive), given its start.
pub open spec fn trim_hi(s: Seq<char>, lo: int) -> int
    decreases s.len(),
{
    if s.len() > 0 && s.len() as int > lo && is_ws(s.last()) {
        trim_hi(s.drop_last(), lo)
    } else {
        s.len() as int
    }
}

proof fn lemma_trim_lo(s: Seq<char>)
    ensures
        0 <= trim_lo(s) <= s.len(),
        forall|j: int| 0 <= j < trim_lo(s) ==> is_ws(#[trigger] s[j]),
        trim_lo(s) < s.len() ==> !is_ws(s[trim_lo(s)]),
    decreases s.len(),
{
    if s.len() > 0 && is_ws(s[0]) {
        lemma_trim_lo(s.drop_first());
        assert forall|j: int| 0 <= j < trim_lo(s) implies is_ws(#[trigger] s[j]) by {
            if j > 0 {
                assert(s[j] == s.drop_first()[j - 1]);
            }
        }
    }
}

proof fn lemma_trim_hi(s: Seq<char>, lo: int)
    requires
        0 <= lo <= s.len(),
    ensures
        lo <= trim_hi(s, lo) <= s.len(),
        forall|j: int| trim_hi(s, lo) <= j < s.len() ==> is_ws(#[trigger] s[j]),
        trim_hi(s, lo) > lo ==> !is_ws(s[trim_hi(s, lo) - 1]),
    decreases s.len(),
{
    if s.len() as int > lo && is_ws(s.last()) {
        lemma_trim_hi(s.drop_last(), lo);
        assert forall|j: int| trim_hi(s, lo) <= j < s.len() implies is_ws(#[trigger] s[j]) by {
            if j < s.len() - 1 {
                assert(s[j] == s.drop_last()[j]);
            }
        }
    }
}

/// The bounds computed by `trim_lo` / `trim_hi` describe `trim`.
pub proof fn lemma_trim_lo_hi(s: Seq<char>)
    ensures
        0 <= trim_lo(s) <= trim_hi(s, trim_lo(s)) <= s.len(),
        trim(s) == s.subrange(trim_lo(s), trim_hi(s, trim_lo(s))),
{
    lemma_trim_lo(s);
    let lo = trim_lo(s);
    lemma_trim_hi(s, lo);
    let hi = trim_hi(s, lo);
    lemma_trim_bounds(s, lo, hi);
}

/// A blank string has only whitespace characters.
pub proof fn lemma_blank_all_ws(s: Seq<char>)
    ensures
        is_blank(s) <==> forall|j: int| 0 <= j < s.len() ==> is_ws(#[trigger] s[j]),
{
    lemma_trim_lo_hi(s);
    lemma_trim_lo(s);
    let lo = trim_lo(s);
    lemma_trim_hi(s, lo);
    if forall|j: int| 0 <= j < s.len() ==> is_ws(#[trigger] s[j]) {
        lemma_trim_bounds(s, s.len() as int, s.len() as int);
    }
}

/// What `find_char` reports: a first occurrence inside `s`, or none at all.
pub proof fn lemma_find_char(s: Seq<char>, c: char)
    ensures
        find_char(s, c) matches Some(i) ==> 0 <= i < s.len() && s[i] == c && forall|k: int|
            0 <= k < i ==> s[k] != c,
        find_char(s, c) is None ==> forall|k: int| 0 <= k < s.len() ==> s[k] != c,
    decreases s.len(),
{
    if s.len() > 0 && s[0] != c {
        lemma_find_char(s.drop_first(), c);
        assert forall|k: int| 1 <= k < s.len() implies s[k] == s.drop_first()[k - 1] by {}
    }
}

/// What `rfind_char` reports: a last occurrence inside `s`, or none at all.
pub proof fn lemma_rfind_char(s: Seq<char>, c: char)
    ensures
        rfind_char(s, c) matches Some(i) ==> 0 <= i < s.len() && s[i] == c && forall|k: int|
            i < k < s.len() ==> s[k] != c,
        rfind_char(s, c) is None ==> forall|k: int| 0 <= k < s.len() ==> s[k] != c,
    decreases s.len(),
{
    if s.len() > 0 && s.last() != c {
        lemma_rfind_char(s.drop_last(), c);
        assert forall|k: int| 0 <= k < s.len() - 1 implies s[k] == s.drop_last()[k] by {}
    }
}

// ---------------------------------------------------------------------------
// Executable helpers
// ---------------------------------------------------------------------------

/// The characters of a string slice, in order.
pub fn chars_of(s: &str) -> (v: Vec<char>)
    ensures
        v@ == s@,
{
    let mut v: Vec<char> = Vec::new();
    for c in it: s.chars()
        invariant
            v@ == it.seq().take(it.index() as int),
            it.seq() == s@,
    {
        v.push(c);
    }
    v
}

/// `String::push`: appends one character at the end.
#[verifier::external_body]
fn push_char(s: &mut String, c: char)
    ensures
        final(s)@ == old(s)@.push(c),
{
    s.push(c);
}

/// Appends the characters `chars[lo..hi]` to `s`.
pub fn push_range(s: &mut String, chars: &[char], lo: usize, hi: usize)
    requires
        lo <= hi <= chars@.len(),
    ensures
        final(s)@ == old(s)@ + chars@.subrange(lo as int, hi as int),
{
    let ghost start = s@;
    let mut i: usize = lo;
    while i < hi
        invariant
            lo <= i <= hi <= chars@.len(),
            s@ == start + chars@.subrange(lo as int, i as int),
        decreases hi - i,
    {
        push_char(s, chars[i]);
        assert(chars@.subrange(lo as int, i as int).push(chars@[i as int]) =~= chars@.subrange(
            lo as int,
            i + 1,
        ));
        i += 1;
    }
}

/// Builds a `String` holding exactly the given characters.
pub fn string_of(chars: &[char]) -> (s: String)
    ensures
        s@ == chars@,
{
    let mut s = String::new();
    push_range(&mut s, chars, 0, chars.len());
    assert(chars@.subrange(0, chars@.len() as int) =~= chars@);
    s
}

/// Appends a string slice.
pub fn push_str(s: &mut String, t: &str)
    ensures
        final(s)@ == old(s)@ + t@,
{
    let v = chars_of(t);
    push_range(s, v.as_slice(), 0, v.len());
    assert(v@.subrange(0, v@.len() as int) =~= t@);
}

/// A fresh `String` with the contents of `t`.
pub fn owned(t: &str) -> (s: String)
    ensures
        s@ == t@,
{
    let mut s = String::new();
    push_str(&mut s, t);
    s
}

/// Bounds of the trimmed slice of `v`.
fn trim_bounds(v: &Vec<char>) -> (r: (usize, usize))
    ensures
        r.0 <= r.1 <= v@.len(),
        trim(v@) == v@.subrange(r.0 as int, r.1 as int),
{
    let mut lo: usize = 0;
    while lo < v.len() && is_whitespace(v[lo])
        invariant
            lo <= v@.len(),
            forall|j: int| 0 <= j < lo ==> is_ws(#[trigger] v@[j]),
        decreases v@.len() - lo,
    {
        lo += 1;
    }
    let mut hi: usize = v.len();
    while hi > lo && is_whitespace(v[hi - 1])
        invariant
            lo <= hi <= v@.len(),
            forall|j: int| hi <= j < v@.len() ==> is_ws(#[trigger] v@[j]),
        decreases hi,
    {
        hi -= 1;
    }
    proof {
        lemma_trim_bounds(v@, lo as int, hi as int);
    }
    (lo, hi)
}

/// `str::trim` into a fresh `String`.
pub fn trim_str(s: &str) -> (r: String)
    ensures
        r@ == trim(s@),
{
    let v = chars_of(s);
    let (lo, hi) = trim_bounds(&v);
    let mut r = String::new();
    push_range(&mut r, v.as_slice(), lo, hi);
    r
}

/// Whether `s` is empty once trimmed.
pub fn is_blank_str(s: &str) -> (r: bool)
    ensures
        r == is_blank(s@),
{
    let v = chars_of(s);
    let (lo, hi) = trim_bounds(&v);
    lo == hi
}

/// Equality of two character sequences.
pub fn chars_eq(a: &[char], b: &[char]) -> (r: bool)
    ensures
        r == (a@ == b@),
{
    if a.len() != b.len() {
        return false;
    }
    let mut i: usize = 0;
    while i < a.len()
        invariant
            a@.len() == b@.len(),
            i <= a@.len(),
            forall|j: int| 0 <= j < i ==> a@[j] == b@[j],
        decreases a@.len() - i,
    {
        if a[i] != b[i] {
            return false;
        }
        i += 1;
    }
    assert(a@ =~= b@);
    true
}

/// Equality of two string slices by their characters.
pub fn str_eq(a: &str, b: &str) -> (r: bool)
    ensures
        r == (a@ == b@),
{
    let va = chars_of(a);
    let vb = chars_of(b);
    chars_eq(va.as_slice(), vb.as_slice())
}

/// Whether `p` occurs in `s` at character position `i`.
pub fn matches_at(s: &[char], i: usize, p: &[char]) -> (r: bool)
    requires
        i <= s@.len(),
    ensures
        r == (p@.len() <= s@.len() - i && s@.subrange(i as int, i + p@.len()) == p@),
{
    if p.len() > s.len() - i {
        return false;
    }
    let n = s.len();
    let mut k: usize = 0;
    while k < p.len()
        invariant
            n == s@.len(),
            i <= s@.len(),
            p@.len() <= s@.len() - i,
            k <= p@.len(),
            forall|j: int| 0 <= j < k ==> s@[i + j] == p@[j],
        decreases p@.len() - k,
    {
        if s[i + k] != p[k] {
            assert(s@.subrange(i as int, i + p@.len())[k as int] != p@[k as int]);
            return false;
        }
        k += 1;
    }
    assert(s@.subrange(i as int, i + p@.len()) =~= p@);
    true
}

/// `s` starts with `p`.
pub fn starts_with_str(s: &str, p: &str) -> (r: bool)
    ensures
        r == starts_with(s@, p@),
{
    let vs = chars_of(s);
    let vp = chars_of(p);
    matches_at(vs.as_slice(), 0, vp.as_slice())
}

/// `s` ends with `p`.
pub fn ends_with_str(s: &str, p: &str) -> (r: bool)
    ensures
        r == ends_with(s@, p@),
{
    let vs = chars_of(s);
    let vp = chars_of(p);
    if vp.len() > vs.len() {
        return false;
    }
    matches_at(vs.as_slice(), vs.len() - vp.len(), vp.as_slice())
}

proof fn lemma_replace_step_match(s: Seq<char>, i: int, p: Seq<char>, r: Seq<char>)
    requires
        0 <= i,
        i + p.len() <= s.len(),
        p.len() > 0,
        s.subrange(i, i + p.len()) == p,
    ensures
        replace_all(s.subrange(i, s.len() as int), p, r) == r + replace_all(
            s.subrange(i + p.len(), s.len() as int),
            p,
            r,
        ),
{
    let t = s.subrange(i, s.len() as int);
    assert(t.subrange(0, p.len() as int) =~= s.subrange(i, i + p.len()));
    assert(t.subrange(p.len() as int, t.len() as int) =~= s.subrange(i + p.len(), s.len() as int));
}

proof fn lemma_replace_step_miss(s: Seq<char>, i: int, p: Seq<char>, r: Seq<char>)
    requires
        0 <= i < s.len(),
        p.len() > 0,
        !(i + p.len() <= s.len() && s.subrange(i, i + p.len()) == p),
    ensures
        replace_all(s.subrange(i, s.len() as int), p, r) == seq![s[i]] + replace_all(
            s.subrange(i + 1, s.len() as int),
            p,
            r,
        ),
{
    let t = s.subrange(i, s.len() as int);
    if t.len() < p.len() {
        // no room for a match: the rest is kept as is
        lemma_replace_short(t, p, r);
        lemma_replace_short(s.subrange(i + 1, s.len() as int), p, r);
        assert(t =~= seq![s[i]] + s.subrange(i + 1, s.len() as int));
    } else {
        assert(t.subrange(0, p.len() as int) =~= s.subrange(i, i + p.len()));
        assert(t.drop_first() =~= s.subrange(i + 1, s.len() as int));
    }
}

proof fn lemma_replace_short(s: Seq<char>, p: Seq<char>, r: Seq<char>)
    requires
        s.len() < p.len(),
    ensures
        replace_all(s, p, r) == s,
{
}

/// `str::replace(p, r)` for a non-empty pattern.
pub fn replace_str(s: &str, p: &str, r: &str) -> (out: String)
    requires
        p@.len() > 0,
    ensures
        out@ == replace_all(s@, p@, r@),
{
    let vs = chars_of(s);
    let vp = chars_of(p);
    let vr = chars_of(r);
    let mut out = String::new();
    let mut i: usize = 0;
    assert(vs@.subrange(0, vs@.len() as int) =~= vs@);
    while i < vs.len()
        invariant
            i <= vs@.len(),
            vp@.len() > 0,
            vs@ == s@,
            vp@ == p@,
            vr@ == r@,
            out@ + replace_all(vs@.subrange(i as int, vs@.len() as int), vp@, vr@) == replace_all(
                s@,
                p@,
                r@,
            ),
        decreases vs@.len() - i,
    {
        if matches_at(vs.as_slice(), i, vp.as_slice()) {
            proof {
                lemma_replace_step_match(vs@, i as int, vp@, vr@);
            }
            let ghost before = out@;
            push_range(&mut out, vr.as_slice(), 0, vr.len());
            assert(vr@.subrange(0, vr@.len() as int) =~= vr@);
            assert(before + (vr@ + replace_all(
                vs@.subrange(i + vp@.len(), vs@.len() as int),
                vp@,
                vr@,
            )) =~= (before + vr@) + replace_all(
                vs@.subrange(i + vp@.len(), vs@.len() as int),
                vp@,
                vr@,
            ));
            i = i + vp.len();
        } else {
            proof {
                lemma_replace_step_miss(vs@, i as int, vp@, vr@);
            }
            let ghost before = out@;
            push_char(&mut out, vs[i]);
            assert(before + (seq![vs@[i as int]] + replace_all(
                vs@.subrange(i + 1, vs@.len() as int),
                vp@,
                vr@,
            )) =~= before.push(vs@[i as int]) + replace_all(
                vs@.subrange(i + 1, vs@.len() as int),
                vp@,
                vr@,
            ));
            i = i + 1;
        }
    }
    assert(vs@.subrange(i as int, vs@.len() as int) =~= Seq::<char>::empty());
    assert(out@ + Seq::<char>::empty() =~= out@);
    out
}

/// Character index of the first `c` in `v` (`str::find`, counted in characters).
pub fn first_index(v: &Vec<char>, c: char) -> (r: Option<usize>)
    ensures
        match find_char(v@, c) {
            None => r is None,
            Some(i) => r == Some(i as usize),
        },
{
    let mut k: usize = 0;
    assert(v@.subrange(0, v@.len() as int) =~= v@);
    while k < v.len()
        invariant
            k <= v@.len(),
            find_char(v@, c) == match find_char(v@.subrange(k as int, v@.len() as int), c) {
                Some(i) => Some(i + k),
                None => None,
            },
        decreases v@.len() - k,
    {
        let ghost s = v@.subrange(k as int, v@.len() as int);
        assert(s[0] == v@[k as int]);
        if v[k] == c {
            return Some(k);
        }
        assert(s.drop_first() =~= v@.subrange(k + 1, v@.len() as int));
        k += 1;
    }
    None
}

/// Character index of the last `c` in `v` (`str::rfind`, counted in characters).
pub fn last_index(v: &Vec<char>, c: char) -> (r: Option<usize>)
    ensures
        match rfind_char(v@, c) {
            None => r is None,
            Some(i) => r == Some(i as usize),
        },
{
    let mut k: usize = v.len();
    assert(v@.subrange(0, k as int) =~= v@);
    while k > 0
        invariant
            k <= v@.len(),
            rfind_char(v@, c) == rfind_char(v@.subrange(0, k as int), c),
        decreases k,
    {
        let ghost s = v@.subrange(0, k as int);
        if v[k - 1] == c {
            return Some(k - 1);
        }
        assert(s.drop_last() =~= v@.subrange(0, k - 1));
        k -= 1;
    }
    None
}

/// Appends the decimal rendering of `n`.
pub fn push_decimal(s: &mut String, n: u64)
    ensures
        final(s)@ == old(s)@ + decimal(n as nat),
    decreases n,
{
    if n >= 10 {
        push_decimal(s, n / 10);
    }
    let d = n % 10;
    let c = if d == 0 {
        '0'
    } else if d == 1 {
        '1'
    } else if d == 2 {
        '2'
    } else if d == 3 {
        '3'
    } else if d == 4 {
        '4'
    } else if d == 5 {
        '5'
    } else if d == 6 {
        '6'
    } else if d == 7 {
        '7'
    } else if d == 8 {
        '8'
    } else {
        '9'
    };
    push_char(s, c);
}

/// `n.to_string()` for an unsigned integer.
pub fn decimal_string(n: u64) -> (s: String)
    ensures
        s@ == decimal(n as nat),
{
    let mut s = String::new();
    push_decimal(&mut s, n);
    s
}

/// `parts.join(sep)`.
pub fn join_strings(parts: &Vec<String>, sep: &str) -> (out: String)
    ensures
        out@ == join(views(parts@), sep@),
{
    let mut out = String::new();
    let mut i: usize = 0;
    while i < parts.len()
        invariant
            i <= parts@.len(),
            out@ == join(views(parts@.take(i as int)), sep@),
        decreases parts@.len() - i,
    {
        let ghost prev = parts@.take(i as int);
        if i > 0 {
            push_str(&mut out, sep);
        }
        push_str(&mut out, parts[i].as_str());
        proof {
            let nxt = parts@.take(i + 1);
            assert(nxt.drop_last() =~= prev);
            assert(views(nxt).drop_last() =~= views(prev));
            assert(views(nxt).last() == parts@[i as int]@);
            if i == 0 {
                assert(views(nxt).len() == 1);
            }
        }
        i += 1;
    }
    assert(parts@.take(parts@.len() as int) =~= parts@);
    out
}

} // verus!
