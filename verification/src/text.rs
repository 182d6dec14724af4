//! Character-level string helpers with exact specifications.
//!
//! Strings are reasoned about through their view, the sequence of their
//! characters.  Where a standard-library function has a short complete
//! definition (prefix tests, whitespace trimming, splitting, replacement,
//! decimal rendering and parsing) it is written and proved here; Unicode case
//! mapping and the alphanumeric class are named, not restated.

use vstd::prelude::*;

verus! {

/// Lower-case form of a character sequence under Unicode case mapping,
/// as `str::to_lowercase` computes it.
pub uninterp spec fn lowercase(s: Seq<char>) -> Seq<char>;

/// Whether a character has the Unicode `Alphabetic` or `Numeric` property,
/// as `char::is_alphanumeric` decides it.
pub uninterp spec fn alphanumeric(c: char) -> bool;

/// The views of a list of strings.
pub open spec fn views(v: Seq<String>) -> Seq<Seq<char>> {
    v.map_values(|s: String| s@)
}

/// Whether a character is ASCII.
pub open spec fn is_ascii_char(c: char) -> bool {
    (c as u32) < 128
}

/// Whether every character of a text is ASCII.
pub open spec fn all_ascii(s: Seq<char>) -> bool {
    forall|i: int| 0 <= i < s.len() ==> is_ascii_char(#[trigger] s[i])
}

/// Whether a character is an ASCII letter or digit.
pub open spec fn ascii_letter_or_digit(c: char) -> bool {
    ('a' <= c && c <= 'z') || ('A' <= c && c <= 'Z') || ('0' <= c && c <= '9')
}

/// The ASCII lower-case form of a character: `A`–`Z` become `a`–`z`,
/// every other character is kept.
pub open spec fn ascii_lower_char(c: char) -> char {
    if 'A' <= c && c <= 'Z' { ((c as u32) + 32) as char } else { c }
}

/// The ASCII lower-case form of a text.
pub open spec fn ascii_lower(s: Seq<char>) -> Seq<char> {
    s.map_values(|c: char| ascii_lower_char(c))
}

/// Calls `str::to_lowercase`; the result is the Unicode lower-case mapping of
/// the whole string, which this crate names `lowercase` without restating it.
/// Of an ASCII text it is, as std documents, the text with `A`–`Z` mapped
/// to `a`–`z` and every other character kept.
#[verifier::external_body]
pub(crate) fn to_lowercase(s: &str) -> (r: String)
    ensures
        r@ == lowercase(s@),
        all_ascii(s@) ==> r@ == ascii_lower(s@),
{
    s.to_lowercase()
}

/// Calls `char::is_alphanumeric`, named `alphanumeric`.  Of an ASCII
/// character it holds, as std documents, exactly for the letters and
/// digits.
#[verifier::external_body]
pub(crate) fn is_alphanumeric(c: char) -> (b: bool)
    ensures
        b == alphanumeric(c),
        is_ascii_char(c) ==> (b <==> ascii_letter_or_digit(c)),
{
    c.is_alphanumeric()
}

/// Calls `String::push`: the character is appended at the end.
#[verifier::external_body]
pub(crate) fn push_char(s: &mut String, c: char)
    ensures
        final(s)@ == old(s)@.push(c),
{
    s.push(c);
}

/// The characters of `s`, in order.
pub fn chars_of(s: &str) -> (v: Vec<char>)
    ensures
        v@ == s@,
{
    let mut v: Vec<char> = Vec::new();
    for c in it: s.chars()
        invariant
            v@ == it.seq().take(it.index() as int),
            it.seq() == s@,
    {
        v.push(c);
    }
    v
}

/// A string holding exactly the given characters.
pub fn string_of(v: &Vec<char>) -> (s: String)
    ensures
        s@ == v@,
{
    let mut s = String::new();
    let mut i: usize = 0;
    while i < v.len()
        invariant
            i <= v.len(),
            s@ == v@.take(i as int),
        decreases v.len() - i,
    {
        push_char(&mut s, v[i]);
        assert(v@.take(i as int).push(v@[i as int]) == v@.take(i + 1));
        i = i + 1;
    }
    assert(v@.take(v.len() as int) == v@);
    s
}

/// A fresh owned copy of a string slice.
pub fn owned(s: &str) -> (r: String)
    ensures
        r@ == s@,
{
    let v = chars_of(s);
    string_of(&v)
}

/// Concatenation of two slices as a new string.
pub fn concat2(a: &str, b: &str) -> (r: String)
    ensures
        r@ == a@ + b@,
{
    let mut r = owned(a);
    r.append(b);
    r
}

/// Concatenation of three slices as a new string.
pub fn concat3(a: &str, b: &str, c: &str) -> (r: String)
    ensures
        r@ == a@ + b@ + c@,
{
    let mut r = concat2(a, b);
    r.append(c);
    r
}

/// Whether two character vectors are equal.
pub fn chars_equal(a: &Vec<char>, b: &Vec<char>) -> (r: bool)
    ensures
        r == (a@ == b@),
{
    if a.len() != b.len() {
        return false;
    }
    let mut i: usize = 0;
    while i < a.len()
        invariant
            a.len() == b.len(),
            i <= a.len(),
            forall|j: int| 0 <= j < i ==> a@[j] == b@[j],
        decreases a.len() - i,
    {
        if a[i] != b[i] {
            return false;
        }
        i = i + 1;
    }
    assert(a@ =~= b@);
    true
}

/// Whether two string slices hold the same characters.
pub fn str_equal(a: &str, b: &str) -> (r: bool)
    ensures
        r == (a@ == b@),
{
    let va = chars_of(a);
    let vb = chars_of(b);
    chars_equal(&va, &vb)
}

/// Whether `p` occurs in `s` starting at position `i`.
pub open spec fn occurs_at(s: Seq<char>, p: Seq<char>, i: int) -> bool {
    0 <= i && i + p.len() <= s.len() && s.subrange(i, i + p.len()) == p
}

/// Whether `p` occurs anywhere in `s`.
pub open spec fn occurs_in(s: Seq<char>, p: Seq<char>) -> bool {
    exists|i: int| occurs_at(s, p, i)
}

/// Whether `p` occurs in the vector `s` at position `i`.
pub fn chars_match_at(s: &Vec<char>, p: &Vec<char>, i: usize) -> (r: bool)
    ensures
        r == occurs_at(s@, p@, i as int),
{
    if i > s.len() || p.len() > s.len() - i {
        return false;
    }
    let mut k: usize = 0;
    while k < p.len()
        invariant
            i + p.len() <= s.len(),
            k <= p.len(),
            forall|j: int| 0 <= j < k ==> s@[i + j] == p@[j],
        decreases p.len() - k,
    {
        if s[i + k] != p[k] {
            assert(s@.subrange(i as int, i + p.len())[k as int] != p@[k as int]);
            return false;
        }
        k = k + 1;
    }
    assert(s@.subrange(i as int, i + p.len()) =~= p@);
    true
}

/// Whether `p` is a prefix of `s`.
pub fn starts_with(s: &str, p: &str) -> (r: bool)
    ensures
        r == p@.is_prefix_of(s@),
{
    let vs = chars_of(s);
    let vp = chars_of(p);
    let r = chars_match_at(&vs, &vp, 0);
    proof {
        if r {
            assert(s@.subrange(0, p@.len() as int) == p@);
        }
        if p@.is_prefix_of(s@) {
            assert(occurs_at(s@, p@, 0));
        }
    }
    r
}

/// Whether `p` is a suffix of `s`.
pub fn ends_with(s: &str, p: &str) -> (r: bool)
    ensures
        r == p@.is_suffix_of(s@),
{
    let vs = chars_of(s);
    let vp = chars_of(p);
    if vp.len() > vs.len() {
        return false;
    }
    let start = vs.len() - vp.len();
    let r = chars_match_at(&vs, &vp, start);
    proof {
        if r {
            assert(s@.subrange(start as int, s@.len() as int) == p@);
        }
        if p@.is_suffix_of(s@) {
            assert(occurs_at(s@, p@, start as int));
        }
    }
    r
}

/// `s` without its last `n` characters.
pub fn drop_last_chars(s: &str, n: usize) -> (r: String)
    requires
        n <= s@.len(),
    ensures
        r@ == s@.subrange(0, s@.len() - n),
{
    let v = chars_of(s);
    let mut out: Vec<char> = Vec::new();
    let mut i: usize = 0;
    while i < v.len() - n
        invariant
            n <= v.len(),
            i <= v.len() - n,
            out@ == v@.take(i as int),
        decreases v.len() - n - i,
    {
        out.push(v[i]);
        assert(v@.take(i as int).push(v@[i as int]) == v@.take(i + 1));
        i = i + 1;
    }
    string_of(&out)
}

/// `s` without its first `n` characters.
pub fn drop_first_chars(s: &str, n: usize) -> (r: String)
    requires
        n <= s@.len(),
    ensures
        r@ == s@.subrange(n as int, s@.len() as int),
{
    let v = chars_of(s);
    let mut out: Vec<char> = Vec::new();
    let mut i: usize = n;
    while i < v.len()
        invariant
            n <= i <= v.len(),
            v@ == s@,
            out@ == v@.subrange(n as int, i as int),
        decreases v.len() - i,
    {
        out.push(v[i]);
        assert(v@.subrange(n as int, i as int).push(v@[i as int]) == v@.subrange(n as int, i + 1));
        i = i + 1;
    }
    string_of(&out)
}

/// Whether `p` occurs somewhere in `s`.
pub fn contains(s: &str, p: &str) -> (r: bool)
    ensures
        r == occurs_in(s@, p@),
{
    let vs = chars_of(s);
    let vp = chars_of(p);
    if vp.len() == 0 {
        assert(s@.subrange(0, 0) == p@);
        assert(occurs_at(s@, p@, 0));
        return true;
    }
    if vp.len() > vs.len() {
        assert forall|i: int| !occurs_at(s@, p@, i) by {}
        return false;
    }
    let mut i: usize = 0;
    while i <= vs.len() - vp.len()
        invariant
            vs@ == s@,
            vp@ == p@,
            0 < vp.len() <= vs.len(),
            i <= vs.len() - vp.len() + 1,
            forall|j: int| 0 <= j < i ==> !occurs_at(s@, p@, j),
        decreases vs.len() - vp.len() + 1 - i,
    {
        if chars_match_at(&vs, &vp, i) {
            return true;
        }
        i = i + 1;
    }
    assert forall|j: int| !occurs_at(s@, p@, j) by {
        if 0 <= j && j < i {
        }
    }
    false
}

/// The result of replacing, from left to right, each non-overlapping
/// occurrence of a non-empty `pat` in `s` by `rep` (the rule of `str::replace`).
pub open spec fn replace_all(s: Seq<char>, pat: Seq<char>, rep: Seq<char>) -> Seq<char>
    decreases s.len(),
{
    if pat.len() == 0 || s.len() < pat.len() {
        s
    } else if s.subrange(0, pat.len() as int) == pat {
        rep + replace_all(s.subrange(pat.len() as int, s.len() as int), pat, rep)
    } else {
        seq![s[0]] + replace_all(s.subrange(1, s.len() as int), pat, rep)
    }
}

/// Replaces every non-overlapping occurrence of `pat` in `s` by `rep`.
pub fn replace(s: &str, pat: &str, rep: &str) -> (r: String)
    requires
        pat@.len() > 0,
    ensures
        r@ == replace_all(s@, pat@, rep@),
{
    let vs = chars_of(s);
    let vp = chars_of(pat);
    let vr = chars_of(rep);
    let mut out: Vec<char> = Vec::new();
    let mut i: usize = 0;
    proof {
        assert(vs@.subrange(0, vs.len() as int) == vs@);
        assert(out@ + replace_all(vs@, vp@, vr@) == replace_all(vs@, vp@, vr@));
    }
    while i < vs.len()
        invariant
            vs@ == s@,
            vp@ == pat@,
            vr@ == rep@,
            vp.len() > 0,
            i <= vs.len(),
            out@ + replace_all(vs@.subrange(i as int, vs.len() as int), vp@, vr@)
                == replace_all(vs@, vp@, vr@),
        decreases vs.len() - i,
    {
        let ghost rest = vs@.subrange(i as int, vs.len() as int);
        if chars_match_at(&vs, &vp, i) {
            proof {
                assert(rest.subrange(0, vp@.len() as int) == vp@);
                assert(rest.subrange(vp@.len() as int, rest.len() as int)
                    == vs@.subrange(i + vp@.len(), vs.len() as int));
            }
            let mut k: usize = 0;
            let ghost before = out@;
            while k < vr.len()
                invariant
                    k <= vr.len(),
                    out@ == before + vr@.take(k as int),
                decreases vr.len() - k,
            {
                out.push(vr[k]);
                assert(vr@.take(k as int).push(vr@[k as int]) == vr@.take(k + 1));
                k = k + 1;
            }
            assert(vr@.take(vr.len() as int) == vr@);
            assert(out@ + replace_all(vs@.subrange(i + vp.len(), vs.len() as int), vp@, vr@)
                == before + replace_all(rest, vp@, vr@));
            i = i + vp.len();
        } else {
            proof {
                if rest.len() >= vp@.len() {
                    assert(rest.subrange(0, vp@.len() as int)
                        == vs@.subrange(i as int, i + vp@.len()));
                }
                assert(rest.subrange(1, rest.len() as int) == vs@.subrange(i + 1, vs.len() as int));
                assert(rest[0] == vs@[i as int]);
            }
            let ghost before = out@;
            out.push(vs[i]);
            assert(out@ + replace_all(vs@.subrange(i + 1, vs.len() as int), vp@, vr@)
                == before + replace_all(rest, vp@, vr@));
            i = i + 1;
        }
    }
    assert(vs@.subrange(vs.len() as int, vs.len() as int) == Seq::<char>::empty());
    assert(out@ + Seq::<char>::empty() == out@);
    string_of(&out)
}

/// Characters with the Unicode `White_Space` property, which
/// `char::is_whitespace` and `str::trim` use.
pub open spec fn is_white(c: char) -> bool {
    ('\u{9}' <= c && c <= '\u{d}') || c == ' ' || c == '\u{85}' || c == '\u{a0}'
        || c == '\u{1680}' || ('\u{2000}' <= c && c <= '\u{200a}') || c == '\u{2028}'
        || c == '\u{2029}' || c == '\u{202f}' || c == '\u{205f}' || c == '\u{3000}'
}

/// `char::is_whitespace`.
pub fn is_whitespace(c: char) -> (b: bool)
    ensures
        b == is_white(c),
{
    ('\u{9}' <= c && c <= '\u{d}') || c == ' ' || c == '\u{85}' || c == '\u{a0}'
        || c == '\u{1680}' || ('\u{2000}' <= c && c <= '\u{200a}') || c == '\u{2028}'
        || c == '\u{2029}' || c == '\u{202f}' || c == '\u{205f}' || c == '\u{3000}'
}

/// The number of leading white-space characters.
pub open spec fn leading_white(s: Seq<char>) -> nat
    decreases s.len(),
{
    if s.len() == 0 || !is_white(s[0]) {
        0
    } else {
        1 + leading_white(s.subrange(1, s.len() as int))
    }
}

/// The number of trailing white-space characters.
pub open spec fn trailing_white(s: Seq<char>) -> nat
    decreases s.len(),
{
    if s.len() == 0 || !is_white(s[s.len() - 1]) {
        0
    } else {
        1 + trailing_white(s.subrange(0, s.len() - 1))
    }
}

/// `s` without leading and trailing white space, as `str::trim` returns it.
pub open spec fn trimmed(s: Seq<char>) -> Seq<char> {
    let rest = s.subrange(leading_white(s) as int, s.len() as int);
    rest.subrange(0, rest.len() - trailing_white(rest))
}

proof fn lemma_leading_white_bound(s: Seq<char>)
    ensures
        leading_white(s) <= s.len(),
    decreases s.len(),
{
    if s.len() > 0 && is_white(s[0]) {
        lemma_leading_white_bound(s.subrange(1, s.len() as int));
    }
}

proof fn lemma_trailing_white_bound(s: Seq<char>)
    ensures
        trailing_white(s) <= s.len(),
    decreases s.len(),
{
    if s.len() > 0 && is_white(s[s.len() - 1]) {
        lemma_trailing_white_bound(s.subrange(0, s.len() - 1));
    }
}

proof fn lemma_leading_step(s: Seq<char>, i: int)
    requires
        0 <= i <= s.len(),
        forall|j: int| 0 <= j < i ==> is_white(#[trigger] s[j]),
    ensures
        leading_white(s) == i + leading_white(s.subrange(i, s.len() as int)),
    decreases i,
{
    if i > 0 {
        let t = s.subrange(1, s.len() as int);
        assert forall|j: int| 0 <= j < i - 1 implies is_white(#[trigger] t[j]) by {
            assert(t[j] == s[j + 1]);
        }
        lemma_leading_step(t, i - 1);
        assert(t.subrange(i - 1, t.len() as int) == s.subrange(i, s.len() as int));
    } else {
        assert(s.subrange(0, s.len() as int) == s);
    }
}

proof fn lemma_trailing_step(s: Seq<char>, k: int)
    requires
        0 <= k <= s.len(),
        forall|j: int| s.len() - k <= j < s.len() ==> is_white(#[trigger] s[j]),
    ensures
        trailing_white(s) == k + trailing_white(s.subrange(0, s.len() - k)),
    decreases k,
{
    if k > 0 {
        let t = s.subrange(0, s.len() - 1);
        assert forall|j: int| t.len() - (k - 1) <= j < t.len() implies is_white(#[trigger] t[j]) by {
            assert(t[j] == s[j]);
        }
        lemma_trailing_step(t, k - 1);
        assert(t.subrange(0, t.len() - (k - 1)) == s.subrange(0, s.len() - k));
    } else {
        assert(s.subrange(0, s.len() as int) == s);
    }
}

/// `str::trim` on a character vector.
pub fn trim_chars(v: &Vec<char>) -> (r: Vec<char>)
    ensures
        r@ == trimmed(v@),
{
    let mut a: usize = 0;
    while a < v.len() && is_whitespace(v[a])
        invariant
            a <= v.len(),
            forall|j: int| 0 <= j < a ==> is_white(#[trigger] v@[j]),
        decreases v.len() - a,
    {
        a = a + 1;
    }
    proof {
        lemma_leading_step(v@, a as int);
        let t = v@.subrange(a as int, v@.len() as int);
        if t.len() > 0 {
            assert(t[0] == v@[a as int]);
        }
        assert(leading_white(t) == 0);
    }
    let mut b: usize = v.len();
    while b > a && is_whitespace(v[b - 1])
        invariant
            a <= b <= v.len(),
            forall|j: int| b <= j < v.len() ==> is_white(#[trigger] v@[j]),
        decreases b,
    {
        b = b - 1;
    }
    let ghost rest = v@.subrange(a as int, v@.len() as int);
    proof {
        let k = v.len() - b;
        assert forall|j: int| rest.len() - k <= j < rest.len() implies is_white(#[trigger] rest[j]) by {
            assert(rest[j] == v@[a + j]);
        }
        lemma_trailing_step(rest, k as int);
        let u = rest.subrange(0, rest.len() - k);
        if u.len() > 0 {
            assert(u[u.len() - 1] == v@[b - 1]);
        }
        assert(trailing_white(u) == 0);
    }
    let mut r: Vec<char> = Vec::new();
    let mut i: usize = a;
    while i < b
        invariant
            a <= i <= b <= v.len(),
            r@ == v@.subrange(a as int, i as int),
        decreases b - i,
    {
        r.push(v[i]);
        assert(v@.subrange(a as int, i as int).push(v@[i as int]) == v@.subrange(a as int, i + 1));
        i = i + 1;
    }
    assert(r@ == rest.subrange(0, rest.len() - trailing_white(rest)));
    r
}

/// `str::trim`: the string without leading and trailing white space.
pub fn trim(s: &str) -> (r: String)
    ensures
        r@ == trimmed(s@),
{
    let v = chars_of(s);
    let t = trim_chars(&v);
    string_of(&t)
}

/// The pieces of `s` between occurrences of the separator `sep`, as
/// `str::split` with a character pattern yields them (always at least one).
pub open spec fn split_on(s: Seq<char>, sep: char) -> Seq<Seq<char>>
    decreases s.len(),
{
    if s.len() == 0 {
        seq![Seq::<char>::empty()]
    } else {
        let rest = split_on(s.drop_first(), sep);
        if s[0] == sep {
            seq![Seq::<char>::empty()] + rest
        } else {
            rest.update(0, seq![s[0]] + rest[0])
        }
    }
}

/// Splitting always yields at least one piece.
pub proof fn lemma_split_on_nonempty(s: Seq<char>, sep: char)
    ensures
        split_on(s, sep).len() >= 1,
    decreases s.len(),
{
    if s.len() > 0 {
        lemma_split_on_nonempty(s.drop_first(), sep);
    }
}

/// Splits `s` at every occurrence of `sep`.
pub fn split_char(s: &str, sep: char) -> (r: Vec<String>)
    ensures
        r@.map_values(|x: String| x@) == split_on(s@, sep),
{
    let v = chars_of(s);
    let mut pieces: Vec<String> = Vec::new();
    let mut cur: Vec<char> = Vec::new();
    let mut i: usize = v.len();
    // Walk from the end so that the specification's recursion on the tail is followed.
    proof {
        assert(v@.subrange(v.len() as int, v.len() as int) == Seq::<char>::empty());
    }
    while i > 0
        invariant
            i <= v.len(),
            v@ == s@,
            ({
                let tail = split_on(v@.subrange(i as int, v.len() as int), sep);
                &&& tail.len() >= 1
                &&& tail[0] == cur@
                &&& tail.subrange(1, tail.len() as int) == pieces@.map_values(|x: String| x@).reverse()
            }),
        decreases i,
    {
        let ghost old_tail = split_on(v@.subrange(i as int, v.len() as int), sep);
        let c = v[i - 1];
        proof {
            let t = v@.subrange(i - 1, v.len() as int);
            assert(t.drop_first() == v@.subrange(i as int, v.len() as int));
            assert(t[0] == c);
            lemma_split_on_nonempty(t.drop_first(), sep);
        }
        if c == sep {
            let mut rev: Vec<char> = Vec::new();
            // cur holds the piece in order already
            let piece = string_of(&cur);
            let ghost old_pieces = pieces@.map_values(|x: String| x@);
            pieces.push(piece);
            cur = rev;
            proof {
                let t = v@.subrange(i - 1, v.len() as int);
                let nt = split_on(t, sep);
                assert(nt == seq![Seq::<char>::empty()] + old_tail);
                assert(pieces@.map_values(|x: String| x@) == old_pieces.push(old_tail[0]));
                assert(old_pieces.push(old_tail[0]).reverse()
                    =~= seq![old_tail[0]] + old_pieces.reverse());
                assert(nt.subrange(1, nt.len() as int) =~= old_tail);
                assert(old_tail =~= seq![old_tail[0]] + old_tail.subrange(1, old_tail.len() as int));
            }
        } else {
            let mut nc: Vec<char> = Vec::new();
            nc.push(c);
            let mut k: usize = 0;
            while k < cur.len()
                invariant
                    k <= cur.len(),
                    nc@ == seq![c] + cur@.take(k as int),
                decreases cur.len() - k,
            {
                nc.push(cur[k]);
                assert(cur@.take(k as int).push(cur@[k as int]) == cur@.take(k + 1));
                k = k + 1;
            }
            assert(cur@.take(cur.len() as int) == cur@);
            cur = nc;
            proof {
                let t = v@.subrange(i - 1, v.len() as int);
                let nt = split_on(t, sep);
                assert(nt == old_tail.update(0, seq![c] + old_tail[0]));
                assert(nt.subrange(1, nt.len() as int) =~= old_tail.subrange(1, old_tail.len() as int));
            }
        }
        i = i - 1;
    }
    let last = string_of(&cur);
    let ghost old_pieces = pieces@.map_values(|x: String| x@);
    pieces.push(last);
    proof {
        assert(v@.subrange(0, v.len() as int) == v@);
        let whole = split_on(v@, sep);
        assert(pieces@.map_values(|x: String| x@) == old_pieces.push(cur@));
        assert(old_pieces.push(cur@).reverse() =~= seq![cur@] + old_pieces.reverse());
        assert(whole =~= seq![whole[0]] + whole.subrange(1, whole.len() as int));
        assert(pieces@.map_values(|x: String| x@).reverse() =~= whole);
    }
    let ghost fwd = pieces@.map_values(|x: String| x@);
    let mut out: Vec<String> = Vec::new();
    let mut j: usize = pieces.len();
    while j > 0
        invariant
            j <= pieces.len(),
            out@.map_values(|x: String| x@) == fwd.subrange(j as int, fwd.len() as int).reverse(),
            fwd == pieces@.map_values(|x: String| x@),
        decreases j,
    {
        let p = pieces[j - 1].clone();
        let ghost before = out@.map_values(|x: String| x@);
        out.push(p);
        proof {
            assert(out@.map_values(|x: String| x@) == before.push(fwd[j - 1]));
            assert(fwd.subrange(j - 1, fwd.len() as int).reverse()
                =~= fwd.subrange(j as int, fwd.len() as int).reverse().push(fwd[j - 1]));
        }
        j = j - 1;
    }
    proof {
        let whole = split_on(v@, sep);
        assert(v@.subrange(0, v.len() as int) == v@);
        assert(fwd.subrange(0, fwd.len() as int) == fwd);
        assert(fwd.reverse() =~= whole);
    }
    out
}

/// Decimal digit character for a value below ten.
pub open spec fn digit_char(d: nat) -> char {
    if d == 0 { '0' } else if d == 1 { '1' } else if d == 2 { '2' } else if d == 3 { '3' }
    else if d == 4 { '4' } else if d == 5 { '5' } else if d == 6 { '6' } else if d == 7 { '7' }
    else if d == 8 { '8' } else { '9' }
}

/// Decimal rendering of a natural number, without sign or leading zeros,
/// as `Display` prints unsigned integers.
pub open spec fn decimal(n: nat) -> Seq<char>
    decreases n,
{
    if n < 10 {
        seq![digit_char(n)]
    } else {
        decimal(n / 10).push(digit_char(n % 10))
    }
}

fn digit_of(d: u64) -> (c: char)
    requires
        d < 10,
    ensures
        c == digit_char(d as nat),
{
    if d == 0 { '0' } else if d == 1 { '1' } else if d == 2 { '2' } else if d == 3 { '3' }
    else if d == 4 { '4' } else if d == 5 { '5' } else if d == 6 { '6' } else if d == 7 { '7' }
    else if d == 8 { '8' } else { '9' }
}

/// The decimal text of `n`.
pub fn decimal_string(n: u64) -> (s: String)
    ensures
        s@ == decimal(n as nat),
    decreases n,
{
    if n < 10 {
        let mut s = String::new();
        push_char(&mut s, digit_of(n));
        assert(s@ == seq![digit_char(n as nat)]);
        s
    } else {
        let mut s = decimal_string(n / 10);
        push_char(&mut s, digit_of(n % 10));
        s
    }
}

/// Whether a character is an ASCII decimal digit.
pub open spec fn is_digit(c: char) -> bool {
    '0' <= c && c <= '9'
}

/// Numeric value of a string of ASCII digits.
pub open spec fn digits_value(s: Seq<char>) -> nat
    decreases s.len(),
{
    if s.len() == 0 {
        0
    } else {
        digits_value(s.drop_last()) * 10 + ((s.last() as u32 - '0' as u32) as nat)
    }
}

/// The digits that `FromStr` for an unsigned integer reads: everything after
/// an optional leading `+`.
pub open spec fn unsigned_digits(s: Seq<char>) -> Seq<char> {
    if s.len() > 0 && s[0] == '+' { s.drop_first() } else { s }
}

/// Result of `str::parse::<T>()` for an unsigned integer type whose largest
/// value is `max`: a non-empty run of decimal digits after an optional `+`,
/// whose value does not exceed `max`.
pub open spec fn parse_unsigned(s: Seq<char>, max: nat) -> Option<nat> {
    let d = unsigned_digits(s);
    if d.len() > 0 && (forall|i: int| 0 <= i < d.len() ==> is_digit(#[trigger] d[i]))
        && digits_value(d) <= max {
        Some(digits_value(d))
    } else {
        None
    }
}

/// `str::parse::<u64>()`.
pub fn parse_u64(s: &str) -> (r: Option<u64>)
    ensures
        match parse_unsigned(s@, u64::MAX as nat) {
            Some(v) => r == Some(v as u64),
            None => r is None,
        },
{
    let v = chars_of(s);
    let start: usize = if v.len() > 0 && v[0] == '+' { 1 } else { 0 };
    let ghost d = unsigned_digits(s@);
    proof {
        assert(d == v@.subrange(start as int, v.len() as int));
    }
    if start >= v.len() {
        return None;
    }
    let mut acc: u64 = 0;
    let mut i: usize = start;
    while i < v.len()
        invariant
            start <= i <= v.len(),
            v@ == s@,
            d == v@.subrange(start as int, v.len() as int),
            d == unsigned_digits(s@),
            forall|j: int| 0 <= j < i - start ==> is_digit(#[trigger] d[j]),
            acc as nat == digits_value(d.subrange(0, i - start)),
        decreases v.len() - i,
    {
        let c = v[i];
        if !('0' <= c && c <= '9') {
            proof {
                let j = (i - start) as int;
                assert(d[j] == c);
                assert(!is_digit(d[j]));
                assert(!(forall|k: int| 0 <= k < d.len() ==> is_digit(#[trigger] d[k])));
            }
            return None;
        }
        let dv: u64 = (c as u32 - '0' as u32) as u64;
        proof {
            let pre = d.subrange(0, i - start + 1);
            assert(pre.drop_last() == d.subrange(0, i - start));
            assert(pre.last() == c);
        }
        if acc > (u64::MAX - dv) / 10 {
            proof {
                let pre = d.subrange(0, i - start + 1);
                assert(digits_value(pre) > u64::MAX) by (nonlinear_arith)
                    requires
                        digits_value(pre) == acc * 10 + dv,
                        acc > (u64::MAX - dv) / 10,
                        dv <= 9,
                ;
                lemma_digits_value_prefix_monotone(d, i - start + 1);
                assert(digits_value(d) > u64::MAX);
            }
            return None;
        }
        acc = acc * 10 + dv;
        i = i + 1;
    }
    assert(d.subrange(0, d.len() as int) == d);
    Some(acc)
}

/// `str::parse::<u32>()`.
pub fn parse_u32(s: &str) -> (r: Option<u32>)
    ensures
        match parse_unsigned(s@, u32::MAX as nat) {
            Some(v) => r == Some(v as u32),
            None => r is None,
        },
{
    match parse_u64(s) {
        Some(v) => {
            if v <= u32::MAX as u64 {
                Some(v as u32)
            } else {
                None
            }
        },
        None => {
            None
        },
    }
}

/// `str::parse::<u16>()`.
pub fn parse_u16(s: &str) -> (r: Option<u16>)
    ensures
        match parse_unsigned(s@, u16::MAX as nat) {
            Some(v) => r == Some(v as u16),
            None => r is None,
        },
{
    match parse_u64(s) {
        Some(v) => {
            if v <= u16::MAX as u64 {
                Some(v as u16)
            } else {
                None
            }
        },
        None => {
            None
        },
    }
}

proof fn lemma_digits_value_prefix_monotone(d: Seq<char>, k: int)
    requires
        0 <= k <= d.len(),
    ensures
        digits_value(d.subrange(0, k)) <= digits_value(d),
    decreases d.len() - k,
{
    if k < d.len() {
        lemma_digits_value_prefix_monotone(d, k + 1);
        let p = d.subrange(0, k + 1);
        assert(p.drop_last() == d.subrange(0, k));
        assert(digits_value(p) >= digits_value(p.drop_last())) by (nonlinear_arith)
            requires
                digits_value(p) == digits_value(p.drop_last()) * 10 + ((p.last() as u32 - '0' as u32) as nat),
        ;
    } else {
        assert(d.subrange(0, k) == d);
    }
}

/// The decimal text of a four-digit number.
pub proof fn lemma_decimal_four(n: nat)
    requires
        1000 <= n < 10000,
    ensures
        decimal(n) == seq![digit_char(n / 1000), digit_char((n / 100) % 10),
            digit_char((n / 10) % 10), digit_char(n % 10)],
{
    reveal_with_fuel(decimal, 4);
    assert(decimal(n) =~= seq![digit_char(n / 1000), digit_char((n / 100) % 10),
        digit_char((n / 10) % 10), digit_char(n % 10)]);
}

/// The decimal text of a five-digit number.
pub proof fn lemma_decimal_five(n: nat)
    requires
        10000 <= n < 100000,
    ensures
        decimal(n) == seq![digit_char(n / 10000), digit_char((n / 1000) % 10),
            digit_char((n / 100) % 10), digit_char((n / 10) % 10), digit_char(n % 10)],
{
    reveal_with_fuel(decimal, 5);
    assert(decimal(n) =~= seq![digit_char(n / 10000), digit_char((n / 1000) % 10),
        digit_char((n / 100) % 10), digit_char((n / 10) % 10), digit_char(n % 10)]);
}

} // verus!
