//! Text primitives over characters: the small pieces of `str`'s behaviour that
//! the parsers and the renderer are built from, each stated as a spec function.

use vstd::prelude::*;
use vstd::string::StringExecFns;

verus! {

broadcast use vstd::string::group_string_axioms;

// ---------------------------------------------------------------------------
// Conversions between `str`, `String` and character vectors
// ---------------------------------------------------------------------------

/// The characters of `s`, in order.
pub fn chars_of(s: &str) -> (v: Vec<char>)
    ensures
        v@ == s@,
{
    let mut v: Vec<char> = Vec::new();
    for c in it: s.chars()
        invariant
            v@ == it.seq().take(it.index()),
    {
        v.push(c);
    }
    v
}

/// `String::push`: appends one character.
#[verifier::external_body]
pub(crate) fn push_char(s: &mut String, c: char)
    ensures
        final(s)@ == old(s)@.push(c),
{
    s.push(c);
}

/// Appends every character of `v` to `out`.
pub fn push_chars(out: &mut String, v: &[char])
    ensures
        final(out)@ == old(out)@ + v@,
{
    let ghost start = out@;
    let mut i: usize = 0;
    while i < v.len()
        invariant
            i <= v@.len(),
            out@ == start + v@.take(i as int),
        decreases v@.len() - i,
    {
        push_char(out, v[i]);
        i = i + 1;
        assert(v@.take(i as int) == v@.take(i - 1).push(v@[i - 1]));
    }
    assert(v@.take(v@.len() as int) == v@);
}

/// A `String` holding exactly the characters of `v`.
pub fn string_of(v: &[char]) -> (s: String)
    ensures
        s@ == v@,
{
    let mut s = String::new();
    push_chars(&mut s, v);
    s
}

/// Appends `lit` to `out`.
pub fn push_str(out: &mut String, lit: &str)
    ensures
        final(out)@ == old(out)@ + lit@,
{
    out.append(lit);
}

/// `(s0 + acc) + p` is `s0 + (acc + p)`: appending one more piece to what has
/// been written so far.
pub proof fn lemma_extend(s0: Seq<char>, acc: Seq<char>, p: Seq<char>)
    ensures
        (s0 + acc) + p == s0 + (acc + p),
{
    assert((s0 + acc) + p =~= s0 + (acc + p));
}

/// A copy of `v[from..to]`.
pub fn slice_chars(v: &[char], from: usize, to: usize) -> (r: Vec<char>)
    requires
        from <= to <= v@.len(),
    ensures
        r@ == v@.subrange(from as int, to as int),
{
    let mut r: Vec<char> = Vec::new();
    let mut i = from;
    while i < to
        invariant
            from <= i <= to <= v@.len(),
            r@ == v@.subrange(from as int, i as int),
        decreases to - i,
    {
        r.push(v[i]);
        i = i + 1;
        assert(r@ == v@.subrange(from as int, i as int));
    }
    r
}

/// Whether two character sequences are equal.
pub fn eq_chars(a: &[char], b: &[char]) -> (r: bool)
    ensures
        r == (a@ == b@),
{
    if a.len() != b.len() {
        return false;
    }
    let mut i: usize = 0;
    while i < a.len()
        invariant
            i <= a@.len() == b@.len(),
            forall|j: int| 0 <= j < i ==> a@[j] == b@[j],
        decreases a@.len() - i,
    {
        if a[i] != b[i] {
            return false;
        }
        i = i + 1;
    }
    assert(a@ =~= b@);
    true
}

// ---------------------------------------------------------------------------
// Whitespace and trimming
// ---------------------------------------------------------------------------

/// The Unicode `White_Space` property, which `char::is_whitespace` and
/// `str::trim` go by.
pub open spec fn is_ws(c: char) -> bool {
    ||| ('\u{9}' <= c && c <= '\u{d}')
    ||| c == ' '
    ||| c == '\u{85}'
    ||| c == '\u{a0}'
    ||| c == '\u{1680}'
    ||| ('\u{2000}' <= c && c <= '\u{200a}')
    ||| c == '\u{2028}'
    ||| c == '\u{2029}'
    ||| c == '\u{202f}'
    ||| c == '\u{205f}'
    ||| c == '\u{3000}'
}

/// Whether `c` is Unicode whitespace.
pub fn is_whitespace(c: char) -> (r: bool)
    ensures
        r == is_ws(c),
{
    ('\u{9}' <= c && c <= '\u{d}') || c == ' ' || c == '\u{85}' || c == '\u{a0}' || c
        == '\u{1680}' || ('\u{2000}' <= c && c <= '\u{200a}') || c == '\u{2028}' || c
        == '\u{2029}' || c == '\u{202f}' || c == '\u{205f}' || c == '\u{3000}'
}

/// `s` without the leading characters that satisfy `p`.
pub open spec fn drop_start_while(s: Seq<char>, p: spec_fn(char) -> bool) -> Seq<char>
    decreases s.len(),
{
    if s.len() > 0 && p(s[0]) {
        drop_start_while(s.drop_first(), p)
    } else {
        s
    }
}

/// `s` without the trailing characters that satisfy `p`.
pub open spec fn drop_end_while(s: Seq<char>, p: spec_fn(char) -> bool) -> Seq<char>
    decreases s.len(),
{
    if s.len() > 0 && p(s.last()) {
        drop_end_while(s.drop_last(), p)
    } else {
        s
    }
}

/// The predicate "is whitespace".
pub open spec fn ws() -> spec_fn(char) -> bool {
    |c: char| is_ws(c)
}

/// The predicate "is the character `c`".
pub open spec fn is_char(c: char) -> spec_fn(char) -> bool {
    |x: char| x == c
}

/// `s` without leading whitespace: `str::trim_start`.
pub open spec fn trim_start(s: Seq<char>) -> Seq<char> {
    drop_start_while(s, ws())
}

/// `s` without trailing whitespace: `str::trim_end`.
pub open spec fn trim_end(s: Seq<char>) -> Seq<char> {
    drop_end_while(s, ws())
}

/// `s` without leading and trailing whitespace: `str::trim`.
pub open spec fn trim(s: Seq<char>) -> Seq<char> {
    trim_end(trim_start(s))
}

/// Whether every character of `s` is whitespace.
pub open spec fn all_ws(s: Seq<char>) -> bool {
    forall|i: int| 0 <= i < s.len() ==> is_ws(#[trigger] s[i])
}

/// Where the leading run of `p`-characters of `s` ends.
proof fn lemma_drop_start_at(s: Seq<char>, p: spec_fn(char) -> bool, i: int)
    requires
        0 <= i <= s.len(),
        forall|k: int| 0 <= k < i ==> p(#[trigger] s[k]),
        i == s.len() || !p(s[i]),
    ensures
        drop_start_while(s, p) == s.subrange(i, s.len() as int),
    decreases i,
{
    if i > 0 {
        let t = s.drop_first();
        assert forall|k: int| 0 <= k < i - 1 implies p(#[trigger] t[k]) by {
            assert(t[k] == s[k + 1]);
        }
        if i < s.len() {
            assert(t[i - 1] == s[i]);
        }
        assert(p(s[0]));
        lemma_drop_start_at(t, p, i - 1);
        assert(t.subrange(i - 1, t.len() as int) =~= s.subrange(i, s.len() as int));
    } else {
        assert(s.subrange(0, s.len() as int) =~= s);
    }
}

/// Where the trailing run of `p`-characters of `s` starts.
proof fn lemma_drop_end_at(s: Seq<char>, p: spec_fn(char) -> bool, e: int)
    requires
        0 <= e <= s.len(),
        e == 0 || !p(s[e - 1]),
        forall|k: int| e <= k < s.len() ==> p(#[trigger] s[k]),
    ensures
        drop_end_while(s, p) == s.subrange(0, e),
    decreases s.len() - e,
{
    if s.len() > e {
        assert(p(s[s.len() - 1]));
        let t = s.drop_last();
        assert forall|k: int| e <= k < t.len() implies p(#[trigger] t[k]) by {
            assert(t[k] == s[k]);
        }
        if e > 0 {
            assert(t[e - 1] == s[e - 1]);
        }
        lemma_drop_end_at(t, p, e);
        assert(t.subrange(0, e) =~= s.subrange(0, e));
    } else {
        assert(s.subrange(0, e) =~= s);
    }
}

/// The end of the leading whitespace of `v[from..]`.
fn skip_ws_forward(v: &[char], from: usize) -> (i: usize)
    requires
        from <= v@.len(),
    ensures
        from <= i <= v@.len(),
        forall|k: int| from <= k < i ==> is_ws(#[trigger] v@[k]),
        i == v@.len() || !is_ws(v@[i as int]),
{
    let mut i = from;
    while i < v.len() && is_whitespace(v[i])
        invariant
            from <= i <= v@.len(),
            forall|k: int| from <= k < i ==> is_ws(#[trigger] v@[k]),
        decreases v@.len() - i,
    {
        i = i + 1;
    }
    i
}

/// The start of the trailing whitespace of `v[from..to]`.
fn skip_ws_backward(v: &[char], from: usize, to: usize) -> (j: usize)
    requires
        from <= to <= v@.len(),
    ensures
        from <= j <= to,
        forall|k: int| j <= k < to ==> is_ws(#[trigger] v@[k]),
        j == from || !is_ws(v@[j - 1]),
{
    let mut j = to;
    while j > from && is_whitespace(v[j - 1])
        invariant
            from <= j <= to <= v@.len(),
            forall|k: int| j <= k < to ==> is_ws(#[trigger] v@[k]),
        decreases j,
    {
        j = j - 1;
    }
    j
}

/// The bounds `(from, to)` such that `v[from..to]` is `v` trimmed.
pub fn trim_bounds(v: &[char]) -> (r: (usize, usize))
    ensures
        r.0 <= r.1 <= v@.len(),
        v@.subrange(r.0 as int, r.1 as int) == trim(v@),
{
    let n = v.len();
    let i = skip_ws_forward(v, 0);
    let j = skip_ws_backward(v, i, n);
    proof {
        lemma_drop_start_at(v@, ws(), i as int);
        let t = v@.subrange(i as int, n as int);
        assert forall|k: int| j - i <= k < t.len() implies ws()(#[trigger] t[k]) by {
            assert(t[k] == v@[i + k]);
        }
        if j > i {
            assert(t[j - i - 1] == v@[j - 1]);
        }
        lemma_drop_end_at(t, ws(), j - i);
        assert(t.subrange(0, j - i) =~= v@.subrange(i as int, j as int));
    }
    (i, j)
}

/// `v` trimmed, as a new vector.
pub fn trimmed(v: &[char]) -> (r: Vec<char>)
    ensures
        r@ == trim(v@),
{
    let (a, b) = trim_bounds(v);
    slice_chars(v, a, b)
}

/// `v` without its trailing whitespace, as a new vector.
pub fn trimmed_end(v: &[char]) -> (r: Vec<char>)
    ensures
        r@ == trim_end(v@),
{
    let e = skip_ws_backward(v, 0, v.len());
    proof {
        lemma_drop_end_at(v@, ws(), e as int);
    }
    slice_chars(v, 0, e)
}

/// Trimming leaves nothing exactly when everything was whitespace.
pub proof fn lemma_trim_empty(s: Seq<char>)
    ensures
        (trim(s).len() == 0) == all_ws(s),
{
    let n = s.len() as int;
    if all_ws(s) {
        lemma_drop_start_at(s, ws(), n);
        assert(s.subrange(n, n) =~= Seq::<char>::empty());
    } else {
        let i = choose|i: int| 0 <= i < s.len() && !is_ws(s[i]);
        lemma_first_non_ws(s, 0, i);
        let f = choose|f: int| 0 <= f <= i && !is_ws(s[f]) && forall|k: int| 0 <= k < f ==> is_ws(#[trigger] s[k]);
        assert forall|k: int| 0 <= k < f implies ws()(#[trigger] s[k]) by {}
        lemma_drop_start_at(s, ws(), f);
        let t = s.subrange(f, n);
        assert(t[0] == s[f]);
        if t.len() > 0 && ws()(t.last()) {
            lemma_drop_end_keeps(t, ws());
        }
    }
}

/// The first character of `s[lo..]` that is no whitespace, when `s[hi]` is one.
proof fn lemma_first_non_ws(s: Seq<char>, lo: int, hi: int)
    requires
        0 <= lo <= hi < s.len(),
        !is_ws(s[hi]),
        forall|k: int| 0 <= k < lo ==> is_ws(#[trigger] s[k]),
    ensures
        exists|f: int| 0 <= f <= hi && !is_ws(s[f]) && forall|k: int| 0 <= k < f ==> is_ws(#[trigger] s[k]),
    decreases hi - lo,
{
    if is_ws(s[lo]) {
        lemma_first_non_ws(s, lo + 1, hi);
    } else {
        assert(0 <= lo <= hi && !is_ws(s[lo]) && forall|k: int| 0 <= k < lo ==> is_ws(#[trigger] s[k]));
    }
}

/// Dropping a trailing run never removes a first character that fails `p`.
proof fn lemma_drop_end_keeps(t: Seq<char>, p: spec_fn(char) -> bool)
    requires
        t.len() > 0,
        !p(t[0]),
    ensures
        drop_end_while(t, p).len() > 0,
    decreases t.len(),
{
    if p(t.last()) {
        assert(t.len() > 1);
        assert(t.drop_last()[0] == t[0]);
        lemma_drop_end_keeps(t.drop_last(), p);
    }
}

/// Whether `v` is empty once trimmed.
pub fn is_blank(v: &[char]) -> (r: bool)
    ensures
        r == (trim(v@).len() == 0),
        r == all_ws(v@),
{
    let i = skip_ws_forward(v, 0);
    proof {
        lemma_trim_empty(v@);
    }
    if i == v.len() {
        true
    } else {
        assert(!is_ws(v@[i as int]));
        false
    }
}

/// `s` without the trailing characters equal to `c`: `str::trim_end_matches`.
pub open spec fn strip_trailing(s: Seq<char>, c: char) -> Seq<char> {
    drop_end_while(s, is_char(c))
}

/// `s` without the leading characters equal to `c`: `str::trim_start_matches`.
pub open spec fn strip_leading(s: Seq<char>, c: char) -> Seq<char> {
    drop_start_while(s, is_char(c))
}

/// `v` without its trailing `c` characters.
pub fn strip_trailing_chars(v: &[char], c: char) -> (r: Vec<char>)
    ensures
        r@ == strip_trailing(v@, c),
{
    let mut j = v.len();
    while j > 0 && v[j - 1] == c
        invariant
            j <= v@.len(),
            forall|k: int| j <= k < v@.len() ==> is_char(c)(#[trigger] v@[k]),
        decreases j,
    {
        j = j - 1;
    }
    proof {
        lemma_drop_end_at(v@, is_char(c), j as int);
    }
    slice_chars(v, 0, j)
}

/// `v` without its leading `c` characters.
pub fn strip_leading_chars(v: &[char], c: char) -> (r: Vec<char>)
    ensures
        r@ == strip_leading(v@, c),
{
    let mut i: usize = 0;
    while i < v.len() && v[i] == c
        invariant
            i <= v@.len(),
            forall|k: int| 0 <= k < i ==> is_char(c)(#[trigger] v@[k]),
        decreases v@.len() - i,
    {
        i = i + 1;
    }
    proof {
        lemma_drop_start_at(v@, is_char(c), i as int);
    }
    slice_chars(v, i, v.len())
}

// ---------------------------------------------------------------------------
// Views of optional and fallible strings
// ---------------------------------------------------------------------------

/// The view of an optional string.
pub open spec fn opt_view(o: Option<String>) -> Option<Seq<char>> {
    match o {
        Some(s) => Some(s@),
        None => None,
    }
}

/// The view of a result whose error is a message.
pub open spec fn result_view<T: View>(r: Result<T, String>) -> Result<T::V, Seq<char>> {
    match r {
        Ok(t) => Ok(t@),
        Err(e) => Err(e@),
    }
}

// ---------------------------------------------------------------------------
// Formatting that std does for us
// ---------------------------------------------------------------------------

/// What `format!("{:?}", s)` writes for a string slice `s`.
pub uninterp spec fn debug_repr(s: Seq<char>) -> Seq<char>;

/// `<str as Debug>::fmt`, through `format!("{:?}")`: `s` in double quotes with
/// its special characters escaped. The contract names the result and says
/// nothing of the escaping itself.
#[verifier::external_body]
pub(crate) fn debug_str(s: &str) -> (r: String)
    ensures
        r@ == debug_repr(s@),
{
    format!("{:?}", s)
}

/// What `str::to_lowercase` returns for `s`.
pub uninterp spec fn lowercase(s: Seq<char>) -> Seq<char>;

/// Whether `c` is an ASCII character.
pub open spec fn is_ascii_char(c: char) -> bool {
    (c as int) < 128
}

/// `c` with an ASCII capital letter replaced by its small letter.
pub open spec fn ascii_lower(c: char) -> char {
    if 'A' <= c && c <= 'Z' {
        ((c as int) + 32) as char
    } else {
        c
    }
}

/// Whether every character of `s` is ASCII.
pub open spec fn all_ascii(s: Seq<char>) -> bool {
    forall|i: int| 0 <= i < s.len() ==> is_ascii_char(#[trigger] s[i])
}

/// `s` with its ASCII capital letters replaced by small ones.
pub open spec fn ascii_lowercase(s: Seq<char>) -> Seq<char> {
    s.map_values(|c: char| ascii_lower(c))
}

/// The lowercase form of `s`: spelled out for ASCII text, and otherwise what
/// `str::to_lowercase` returns.
pub open spec fn lowercased(s: Seq<char>) -> Seq<char> {
    if all_ascii(s) {
        ascii_lowercase(s)
    } else {
        lowercase(s)
    }
}

/// `str::to_lowercase`: the Unicode lowercase mapping of `s`. The contract
/// names the result, and of the mapping says only what holds of ASCII text:
/// `A` to `Z` become `a` to `z`, and every other ASCII character stays.
#[verifier::external_body]
pub(crate) fn to_lowercase(s: &str) -> (r: String)
    ensures
        r@ == lowercase(s@),
        all_ascii(s@) ==> r@ == ascii_lowercase(s@),
{
    s.to_lowercase()
}

/// `prefix` followed by the debug form of `subject`.
pub fn message_with_debug(prefix: &str, subject: &str) -> (r: String)
    ensures
        r@ == prefix@ + debug_repr(subject@),
{
    let mut r = String::new();
    push_str(&mut r, prefix);
    let d = debug_str(subject);
    push_str(&mut r, d.as_str());
    r
}

} // verus!
