//! Splitting and searching character sequences, after `str::split`,
//! `str::split_once`, `str::find` and `str::lines`.

use vstd::prelude::*;

use crate::text::slice_chars;

verus! {

/// The pieces of `s` between separators, where a separator is any character
/// of `seps`: `str::split` with a set of characters. There is always at least
/// one piece, and empty pieces are kept.
pub open spec fn split_any(s: Seq<char>, seps: Seq<char>) -> Seq<Seq<char>>
    decreases s.len(),
{
    if s.len() == 0 {
        seq![Seq::<char>::empty()]
    } else {
        let p = split_any(s.drop_last(), seps);
        if seps.contains(s.last()) {
            p.push(Seq::<char>::empty())
        } else {
            p.update(p.len() - 1, p.last().push(s.last()))
        }
    }
}

/// `str::split` on a single character.
pub open spec fn split(s: Seq<char>, c: char) -> Seq<Seq<char>> {
    split_any(s, seq![c])
}

/// There is always at least one piece.
pub proof fn lemma_split_len(s: Seq<char>, seps: Seq<char>)
    ensures
        split_any(s, seps).len() >= 1,
    decreases s.len(),
{
    if s.len() > 0 {
        lemma_split_len(s.drop_last(), seps);
    }
}

/// The views of a vector of character vectors.
pub open spec fn views(ps: Seq<Vec<char>>) -> Seq<Seq<char>> {
    Seq::new(ps.len(), |i: int| ps[i]@)
}

/// Whether `c` is one of `seps`.
pub fn contains_char(seps: &[char], c: char) -> (r: bool)
    ensures
        r == seps@.contains(c),
{
    let mut i: usize = 0;
    while i < seps.len()
        invariant
            i <= seps@.len(),
            forall|k: int| 0 <= k < i ==> seps@[k] != c,
        decreases seps@.len() - i,
    {
        if seps[i] == c {
            assert(seps@[i as int] == c);
            return true;
        }
        i = i + 1;
    }
    false
}

/// The pieces of `v` between the separators in `seps`.
pub fn split_chars(v: &[char], seps: &[char]) -> (r: Vec<Vec<char>>)
    ensures
        views(r@) == split_any(v@, seps@),
{
    let mut pieces: Vec<Vec<char>> = Vec::new();
    let mut cur: Vec<char> = Vec::new();
    let mut i: usize = 0;
    assert(v@.take(0) =~= Seq::<char>::empty());
    assert(views(pieces@).push(cur@) =~= split_any(v@.take(0), seps@));
    while i < v.len()
        invariant
            i <= v@.len(),
            views(pieces@).push(cur@) == split_any(v@.take(i as int), seps@),
        decreases v@.len() - i,
    {
        let c = v[i];
        let ghost before = split_any(v@.take(i as int), seps@);
        proof {
            lemma_split_len(v@.take(i as int), seps@);
        }
        assert(v@.take(i + 1).drop_last() =~= v@.take(i as int));
        assert(v@.take(i + 1).last() == c);
        if contains_char(seps, c) {
            let mut done: Vec<char> = Vec::new();
            std::mem::swap(&mut done, &mut cur);
            pieces.push(done);
            assert(views(pieces@) =~= before);
            assert(views(pieces@).push(cur@) =~= before.push(Seq::<char>::empty()));
        } else {
            cur.push(c);
            assert(views(pieces@).push(cur@) =~= before.update(
                before.len() - 1,
                before.last().push(c),
            ));
        }
        i = i + 1;
    }
    assert(v@.take(v@.len() as int) =~= v@);
    pieces.push(cur);
    assert(views(pieces@) =~= split_any(v@, seps@));
    pieces
}

/// `ps` without its empty pieces, in order.
pub open spec fn nonempty(ps: Seq<Seq<char>>) -> Seq<Seq<char>>
    decreases ps.len(),
{
    if ps.len() == 0 {
        Seq::empty()
    } else {
        let r = nonempty(ps.drop_last());
        if ps.last().len() > 0 {
            r.push(ps.last())
        } else {
            r
        }
    }
}

/// The non-empty pieces of `v` between occurrences of `c`:
/// `split(c).filter(|p| !p.is_empty())`.
pub fn segments(v: &[char], c: char) -> (r: Vec<Vec<char>>)
    ensures
        views(r@) == nonempty(split(v@, c)),
{
    let seps = vec![c];
    assert(seps@ =~= seq![c]);
    let pieces = split_chars(v, seps.as_slice());
    let ghost ps = views(pieces@);
    let mut r: Vec<Vec<char>> = Vec::new();
    let mut i: usize = 0;
    assert(ps.take(0) =~= Seq::<Seq<char>>::empty());
    for p in it: pieces
        invariant
            it.seq() == pieces@,
            ps == views(pieces@),
            views(r@) == nonempty(ps.take(it.index())),
    {
        let ghost k = it.index();
        assert(ps.take(k + 1).drop_last() =~= ps.take(k));
        assert(ps.take(k + 1).last() == p@);
        if p.len() > 0 {
            r.push(p);
            assert(views(r@) =~= nonempty(ps.take(k)).push(ps[k]));
        }
    }
    assert(ps.take(ps.len() as int) =~= ps);
    r
}

/// Whether `pat` occurs in `s` at position `i`.
pub open spec fn matches_at(s: Seq<char>, pat: Seq<char>, i: int) -> bool {
    0 <= i && i + pat.len() <= s.len() && s.subrange(i, i + pat.len()) == pat
}

/// The first occurrence of `pat` in `s` at or after `i`.
pub open spec fn find_from(s: Seq<char>, pat: Seq<char>, i: int) -> Option<int>
    decreases s.len() + 1 - i,
{
    if i < 0 || i + pat.len() > s.len() {
        None
    } else if matches_at(s, pat, i) {
        Some(i)
    } else {
        find_from(s, pat, i + 1)
    }
}

/// The first occurrence of `pat` in `s`: `str::find`.
pub open spec fn find(s: Seq<char>, pat: Seq<char>) -> Option<int> {
    find_from(s, pat, 0)
}

/// `s` split around the first occurrence of `pat`: `str::split_once`.
pub open spec fn split_once(s: Seq<char>, pat: Seq<char>) -> Option<(Seq<char>, Seq<char>)> {
    match find(s, pat) {
        Some(i) => Some((s.take(i), s.skip(i + pat.len()))),
        None => None,
    }
}

/// Whether `pat` occurs in `v` at `i`.
fn matches_here(v: &[char], pat: &[char], i: usize) -> (r: bool)
    requires
        i + pat@.len() <= v@.len(),
    ensures
        r == matches_at(v@, pat@, i as int),
{
    let n = v.len();
    let mut k: usize = 0;
    while k < pat.len()
        invariant
            k <= pat@.len(),
            n == v@.len(),
            i + pat@.len() <= v@.len(),
            forall|m: int| 0 <= m < k ==> v@[i + m] == pat@[m],
        decreases pat@.len() - k,
    {
        if v[i + k] != pat[k] {
            assert(v@.subrange(i as int, i + pat@.len())[k as int] != pat@[k as int]);
            return false;
        }
        k = k + 1;
    }
    assert(v@.subrange(i as int, i + pat@.len()) =~= pat@);
    true
}

/// What a successful search finds: an occurrence, with none before it.
pub proof fn lemma_find_from(s: Seq<char>, pat: Seq<char>, j: int)
    requires
        0 <= j,
    ensures
        find_from(s, pat, j) matches Some(i) ==> {
            &&& j <= i
            &&& matches_at(s, pat, i)
            &&& forall|m: int| j <= m < i ==> !matches_at(s, pat, m)
        },
        find_from(s, pat, j) is None ==> forall|m: int| j <= m ==> !matches_at(s, pat, m),
    decreases s.len() + 1 - j,
{
    if j + pat.len() > s.len() {
    } else if !matches_at(s, pat, j) {
        lemma_find_from(s, pat, j + 1);
    }
}

/// The first occurrence of `pat` in `v`.
pub fn find_chars(v: &[char], pat: &[char]) -> (r: Option<usize>)
    ensures
        r matches Some(i) ==> find(v@, pat@) == Some(i as int),
        r is None ==> find(v@, pat@) is None,
{
    if pat.len() > v.len() {
        return None;
    }
    if pat.len() == 0 {
        assert(v@.subrange(0, 0) =~= pat@);
        assert(matches_at(v@, pat@, 0));
        return Some(0);
    }
    let n = v.len();
    let last = n - pat.len();
    let mut i: usize = 0;
    while i <= last
        invariant
            n == v@.len(),
            pat@.len() > 0,
            last + pat@.len() == v@.len(),
            i <= last + 1,
            find(v@, pat@) == find_from(v@, pat@, i as int),
        decreases last + 1 - i,
    {
        if matches_here(v, pat, i) {
            return Some(i);
        }
        i = i + 1;
    }
    None
}

/// `str::split_once`.
pub fn split_once_chars(v: &[char], pat: &[char]) -> (r: Option<(Vec<char>, Vec<char>)>)
    ensures
        r matches Some(p) ==> split_once(v@, pat@) == Some((p.0@, p.1@)),
        r is None ==> split_once(v@, pat@) is None,
{
    let n = v.len();
    proof {
        lemma_find_from(v@, pat@, 0);
    }
    match find_chars(v, pat) {
        Some(i) => {
            let left = slice_chars(v, 0, i);
            let right = slice_chars(v, i + pat.len(), v.len());
            assert(left@ =~= v@.take(i as int));
            assert(right@ =~= v@.skip(i + pat@.len()));
            Some((left, right))
        },
        None => None,
    }
}

/// A line without the `\r` of a `\r\n` line ending.
pub open spec fn strip_cr(l: Seq<char>) -> Seq<char> {
    if l.len() > 0 && l.last() == '\r' {
        l.drop_last()
    } else {
        l
    }
}

/// The lines of `s`: `str::lines`. Lines end at `\n` or `\r\n`; a final line
/// ending is optional, and the empty text has no lines.
pub open spec fn lines(s: Seq<char>) -> Seq<Seq<char>> {
    let p = split(s, '\n');
    let init = Seq::new((p.len() - 1) as nat, |i: int| strip_cr(p[i]));
    if p.last().len() == 0 {
        init
    } else {
        init.push(p.last())
    }
}

/// No piece of a split holds a separator.
pub proof fn lemma_split_excludes(s: Seq<char>, seps: Seq<char>)
    ensures
        forall|k: int, j: int|
            0 <= k < split_any(s, seps).len() && 0 <= j < split_any(s, seps)[k].len() ==> !seps.contains(
                #[trigger] split_any(s, seps)[k][j],
            ),
    decreases s.len(),
{
    if s.len() > 0 {
        let p = split_any(s.drop_last(), seps);
        lemma_split_excludes(s.drop_last(), seps);
        lemma_split_len(s.drop_last(), seps);
        let q = split_any(s, seps);
        assert forall|k: int, j: int| 0 <= k < q.len() && 0 <= j < q[k].len() implies !seps.contains(
            #[trigger] q[k][j],
        ) by {
            if !seps.contains(s.last()) && k == p.len() - 1 {
                if j < p.last().len() {
                    assert(q[k][j] == p[k][j]);
                }
            } else if k < p.len() {
                assert(q[k] == p[k]);
            }
        }
    }
}

/// No line holds a newline.
pub proof fn lemma_lines_exclude_newline(s: Seq<char>)
    ensures
        forall|k: int, j: int|
            0 <= k < lines(s).len() && 0 <= j < lines(s)[k].len() ==> #[trigger] lines(s)[k][j]
                != '\n',
{
    let p = split(s, '\n');
    lemma_split_excludes(s, seq!['\n']);
    lemma_split_len(s, seq!['\n']);
    assert forall|k: int, j: int| 0 <= k < lines(s).len() && 0 <= j < lines(s)[k].len() implies #[trigger] lines(
        s,
    )[k][j] != '\n' by {
        let kk = if k < p.len() - 1 {
            k
        } else {
            p.len() - 1
        };
        if k < p.len() - 1 {
            assert(lines(s)[k] == strip_cr(p[k]));
        } else {
            assert(lines(s)[k] == p.last());
        }
        assert(lines(s)[k][j] == p[kk][j]);
        assert(!seq!['\n'].contains(p[kk][j]));
        assert(seq!['\n'][0] == '\n');
    }
}

/// `v` without a final `\r`.
fn strip_cr_chars(v: Vec<char>) -> (r: Vec<char>)
    ensures
        r@ == strip_cr(v@),
{
    let mut v = v;
    if v.len() > 0 && v[v.len() - 1] == '\r' {
        v.pop();
    }
    v
}

/// The lines of `v`.
pub fn lines_of(v: &[char]) -> (r: Vec<Vec<char>>)
    ensures
        views(r@) == lines(v@),
{
    let seps = vec!['\n'];
    assert(seps@ =~= seq!['\n']);
    let pieces = split_chars(v, seps.as_slice());
    let ghost p = views(pieces@);
    proof {
        lemma_split_len(v@, seq!['\n']);
    }
    let n = pieces.len();
    let mut r: Vec<Vec<char>> = Vec::new();
    let mut last: Vec<char> = Vec::new();
    for piece in it: pieces
        invariant
            it.seq() == pieces@,
            p == views(pieces@),
            n == pieces@.len() >= 1,
            it.index() < n ==> r@.len() == it.index(),
            it.index() < n ==> views(r@) =~= Seq::new(it.index() as nat, |i: int| strip_cr(p[i])),
            it.index() == n ==> views(r@) =~= Seq::new((n - 1) as nat, |i: int| strip_cr(p[i])),
            it.index() == n ==> last@ == p.last(),
    {
        let ghost k = it.index();
        assert(piece == pieces@[k]);
        assert(p[k] == piece@);
        if r.len() + 1 < n {
            let s = strip_cr_chars(piece);
            let ghost before = views(r@);
            assert(before =~= Seq::new(k as nat, |i: int| strip_cr(p[i])));
            r.push(s);
            assert(views(r@) =~= before.push(strip_cr(p[k])));
            assert(views(r@) =~= Seq::new((k + 1) as nat, |i: int| strip_cr(p[i])));
        } else {
            last = piece;
        }
    }
    if last.len() > 0 {
        r.push(last);
    }
    r
}

} // verus!
