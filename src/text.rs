//! Joining lines of text.
use vstd::prelude::*;

verus! {

/// The texts of a sequence of strings.
pub open spec fn texts_of(v: Seq<String>) -> Seq<Seq<char>> {
    v.map_values(|s: String| s@)
}

/// `lines` one after another, with `sep` between each two.
pub open spec fn joined(lines: Seq<Seq<char>>, sep: Seq<char>) -> Seq<char>
    decreases lines.len(),
{
    if lines.len() == 0 {
        Seq::empty()
    } else if lines.len() == 1 {
        lines[0]
    } else {
        joined(lines.drop_last(), sep) + sep + lines.last()
    }
}

/// `lines` one after another, with `sep` between each two.
pub fn join(lines: &Vec<String>, sep: &str) -> (r: String)
    ensures
        r@ == joined(texts_of(lines@), sep@),
{
    let ghost t = texts_of(lines@);
    if lines.len() == 0 {
        return String::new();
    }
    let mut out = lines[0].clone();
    assert(t.subrange(0, 1).drop_last() =~= Seq::<Seq<char>>::empty());
    assert(joined(t.subrange(0, 1), sep@) == t[0]);
    let mut q: usize = 1;
    while q < lines.len()
        invariant
            t == texts_of(lines@),
            1 <= q <= lines@.len(),
            out@ == joined(t.subrange(0, q as int), sep@),
        decreases lines@.len() - q,
    {
        out = out.concat(sep);
        out = out.concat(lines[q].as_str());
        assert(t.subrange(0, q + 1).drop_last() =~= t.subrange(0, q as int));
        q = q + 1;
    }
    assert(t.subrange(0, lines@.len() as int) =~= t);
    out
}

/// Whether `s` starts with `p`.
pub open spec fn starts_with(s: Seq<char>, p: Seq<char>) -> bool {
    p.len() <= s.len() && s.subrange(0, p.len() as int) == p
}

/// Whether `s` starts with `p`.
pub fn has_prefix(s: &str, p: &str) -> (r: bool)
    ensures
        r == starts_with(s@, p@),
{
    let n = s.unicode_len();
    let m = p.unicode_len();
    if m > n {
        return false;
    }
    let mut i: usize = 0;
    while i < m
        invariant
            m == p@.len(),
            n == s@.len(),
            m <= n,
            0 <= i <= m,
            forall|j: int| 0 <= j < i ==> s@[j] == p@[j],
        decreases m - i,
    {
        if s.get_char(i) != p.get_char(i) {
            assert(s@.subrange(0, m as int)[i as int] != p@[i as int]);
            return false;
        }
        i = i + 1;
    }
    assert(s@.subrange(0, m as int) =~= p@);
    true
}

/// Whether `a` comes no later than `b` in lexicographic order of characters,
/// the order of Rust's `str` comparison: `a` is a prefix of `b`, or at the
/// first position where they differ `a` has the smaller character.
pub open spec fn text_le(a: Seq<char>, b: Seq<char>) -> bool {
    ||| starts_with(b, a)
    ||| exists|i: int|
        0 <= i < a.len() && i < b.len() && a.subrange(0, i) == b.subrange(0, i) && (#[trigger] a[i] as u32) < (b[i] as u32)
}

/// Every line of `lines` comes no later than the lines after it.
pub open spec fn lines_sorted(lines: Seq<Seq<char>>) -> bool {
    forall|i: int, j: int| 0 <= i < j < lines.len() ==> text_le(#[trigger] lines[i], #[trigger] lines[j])
}

proof fn lemma_text_le_trans(a: Seq<char>, b: Seq<char>, c: Seq<char>)
    requires
        text_le(a, b),
        text_le(b, c),
    ensures
        text_le(a, c),
{
    if starts_with(b, a) && starts_with(c, b) {
        assert(c.subrange(0, a.len() as int) =~= b.subrange(0, a.len() as int));
    } else if starts_with(b, a) {
        let j = choose|j: int| 0 <= j < b.len() && j < c.len() && b.subrange(0, j) == c.subrange(0, j) && (#[trigger] b[j] as u32) < (c[j] as u32);
        if j < a.len() {
            assert(a[j] == b.subrange(0, a.len() as int)[j]);
            assert forall|q: int| 0 <= q < j implies a.subrange(0, j)[q] == c.subrange(0, j)[q] by {
                assert(a[q] == b.subrange(0, a.len() as int)[q]);
                assert(b[q] == b.subrange(0, j)[q]);
            }
            assert(a.subrange(0, j) =~= c.subrange(0, j));
            assert((a[j] as u32) < (c[j] as u32));
        } else {
            assert forall|q: int| 0 <= q < a.len() implies c.subrange(0, a.len() as int)[q] == a[q] by {
                assert(a[q] == b.subrange(0, a.len() as int)[q]);
                assert(b[q] == b.subrange(0, j)[q]);
                assert(c[q] == c.subrange(0, j)[q]);
            }
            assert(c.subrange(0, a.len() as int) =~= a);
        }
    } else if starts_with(c, b) {
        let i = choose|i: int| 0 <= i < a.len() && i < b.len() && a.subrange(0, i) == b.subrange(0, i) && (#[trigger] a[i] as u32) < (b[i] as u32);
        assert(c[i] == c.subrange(0, b.len() as int)[i]);
        assert forall|q: int| 0 <= q < i implies a.subrange(0, i)[q] == c.subrange(0, i)[q] by {
            assert(a[q] == a.subrange(0, i)[q]);
            assert(b[q] == b.subrange(0, i)[q]);
            assert(c[q] == c.subrange(0, b.len() as int)[q]);
        }
        assert(a.subrange(0, i) =~= c.subrange(0, i));
    } else {
        let i = choose|i: int| 0 <= i < a.len() && i < b.len() && a.subrange(0, i) == b.subrange(0, i) && (#[trigger] a[i] as u32) < (b[i] as u32);
        let j = choose|j: int| 0 <= j < b.len() && j < c.len() && b.subrange(0, j) == c.subrange(0, j) && (#[trigger] b[j] as u32) < (c[j] as u32);
        let k = if i < j { i } else { j };
        assert forall|q: int| 0 <= q < k implies a.subrange(0, k)[q] == c.subrange(0, k)[q] by {
            assert(a[q] == a.subrange(0, i)[q]);
            assert(b[q] == b.subrange(0, i)[q]);
            assert(b[q] == b.subrange(0, j)[q]);
            assert(c[q] == c.subrange(0, j)[q]);
        }
        assert(a.subrange(0, k) =~= c.subrange(0, k));
        if i < j {
            assert(b[i] == b.subrange(0, j)[i]);
            assert(c[i] == c.subrange(0, j)[i]);
        } else if j < i {
            assert(a[j] == a.subrange(0, i)[j]);
            assert(b[j] == b.subrange(0, i)[j]);
        }
        assert((a[k] as u32) < (c[k] as u32));
    }
}

/// Whether `a` comes no later than `b`; when not, `b` comes before `a`.
pub fn text_le_exec(a: &str, b: &str) -> (r: bool)
    ensures
        r == text_le(a@, b@),
        !r ==> text_le(b@, a@),
{
    let n = a.unicode_len();
    let m = b.unicode_len();
    let mut i: usize = 0;
    while i < n && i < m
        invariant
            n == a@.len(),
            m == b@.len(),
            0 <= i <= n,
            i <= m,
            a@.subrange(0, i as int) == b@.subrange(0, i as int),
        decreases n - i,
    {
        let x = a.get_char(i);
        let y = b.get_char(i);
        if x != y {
            if (x as u32) < (y as u32) {
                assert((a@[i as int] as u32) < (b@[i as int] as u32));
                return true;
            } else {
                proof {
                    assert((b@[i as int] as u32) < (a@[i as int] as u32));
                    assert(b@.subrange(0, i as int) == a@.subrange(0, i as int));
                    assert(!starts_with(b@, a@)) by {
                        if starts_with(b@, a@) {
                            assert(b@.subrange(0, n as int)[i as int] == a@[i as int]);
                        }
                    }
                    assert forall|j: int| 0 <= j < n && j < m && a@.subrange(0, j) == b@.subrange(0, j)
                        implies !((#[trigger] a@[j] as u32) < (b@[j] as u32)) by {
                        if j < i {
                            assert(a@[j] == a@.subrange(0, i as int)[j]);
                            assert(b@[j] == b@.subrange(0, i as int)[j]);
                        } else if j > i {
                            assert(a@[i as int] == a@.subrange(0, j)[i as int]);
                            assert(b@[i as int] == b@.subrange(0, j)[i as int]);
                        }
                    }
                }
                return false;
            }
        }
        assert(a@.subrange(0, i + 1) =~= a@.subrange(0, i as int).push(x));
        assert(b@.subrange(0, i + 1) =~= b@.subrange(0, i as int).push(y));
        i = i + 1;
    }
    if n <= m {
        assert(b@.subrange(0, n as int) =~= a@.subrange(0, n as int));
        assert(a@.subrange(0, n as int) =~= a@);
        true
    } else {
        proof {
            assert(a@.subrange(0, m as int) =~= b@);
            assert forall|j: int| 0 <= j < n && j < m && a@.subrange(0, j) == b@.subrange(0, j)
                implies !((#[trigger] a@[j] as u32) < (b@[j] as u32)) by {
                assert(a@[j] == a@.subrange(0, m as int)[j]);
            }
        }
        false
    }
}

/// The lines of `lines` in order, as Rust's `str` comparison orders them.
pub fn sort_lines(lines: &Vec<String>) -> (r: Vec<String>)
    ensures
        lines_sorted(texts_of(r@)),
        texts_of(r@).to_multiset() == texts_of(lines@).to_multiset(),
{
    let mut out: Vec<String> = Vec::new();
    let mut q: usize = 0;
    assert(texts_of(out@) =~= texts_of(lines@).subrange(0, 0));
    while q < lines.len()
        invariant
            0 <= q <= lines@.len(),
            lines_sorted(texts_of(out@)),
            texts_of(out@).to_multiset() == texts_of(lines@).subrange(0, q as int).to_multiset(),
        decreases lines@.len() - q,
    {
        let x = lines[q].clone();
        let ghost t = texts_of(out@);
        let mut p: usize = 0;
        while p < out.len() && text_le_exec(out[p].as_str(), x.as_str())
            invariant
                t == texts_of(out@),
                0 <= p <= out@.len(),
                forall|i: int| 0 <= i < p ==> text_le(#[trigger] t[i], x@),
            decreases out@.len() - p,
        {
            p = p + 1;
        }
        proof {
            if p < out@.len() {
                assert(!text_le(t[p as int], x@));
                assert(text_le(x@, t[p as int]));
            }
        }
        let ghost before = out@;
        out.insert(p, x);
        proof {
            assert(texts_of(out@) =~= t.insert(p as int, x@));
            let u = texts_of(out@);
            assert forall|i: int, j: int| 0 <= i < j < u.len() implies text_le(#[trigger] u[i], #[trigger] u[j]) by {
                if j < p {
                    assert(u[i] == t[i] && u[j] == t[j]);
                } else if j == p {
                    assert(u[i] == t[i] && u[j] == x@);
                } else if i == p {
                    assert(u[j] == t[j - 1]);
                    if j - 1 > p {
                        assert(text_le(t[p as int], t[j - 1]));
                        lemma_text_le_trans(x@, t[p as int], t[j - 1]);
                    }
                } else if i < p {
                    assert(u[i] == t[i] && u[j] == t[j - 1]);
                } else {
                    assert(u[i] == t[i - 1] && u[j] == t[j - 1]);
                }
            }
            assert(texts_of(lines@).subrange(0, q + 1) =~= texts_of(lines@).subrange(0, q as int).push(x@));
            vstd::seq_lib::to_multiset_insert(t, p as int, x@);
            vstd::seq_lib::to_multiset_build(texts_of(lines@).subrange(0, q as int), x@);
        }
        q = q + 1;
    }
    assert(texts_of(lines@).subrange(0, lines@.len() as int) =~= texts_of(lines@));
    out
}

} // verus!
