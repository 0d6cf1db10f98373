//! Splitting text into lines, words and fields, and searching for substrings.
use vstd::prelude::*;
use crate::text::{
    find_char, find_ws, is_ws, lemma_find_char, lemma_find_char_bounds, lemma_find_ws_bounds,
    lemma_find_ws, lemma_trim_start_at, lemma_trim_start_len, slice, trim_start, is_whitespace,
};

verus! {

broadcast use vstd::seq::group_seq_axioms;

/// The character sequences held by a vector of character vectors.
pub open spec fn views(v: Seq<Vec<char>>) -> Seq<Seq<char>> {
    v.map_values(|x: Vec<char>| x@)
}

/// `s` without one trailing carriage return.
pub open spec fn strip_cr(s: Seq<char>) -> Seq<char> {
    if s.len() > 0 && s.last() == '\r' {
        s.drop_last()
    } else {
        s
    }
}

/// `str::lines`: pieces ended by `\n` (a `\r` before it is dropped); the last
/// line needs no terminator, and an empty text has no lines.
pub open spec fn lines(s: Seq<char>) -> Seq<Seq<char>>
    decreases s.len(),
{
    if s.len() == 0 {
        seq![]
    } else {
        let k = find_char(s, '\n');
        proof {
            lemma_find_char_bounds(s, '\n');
        }
        if k < s.len() {
            seq![strip_cr(s.subrange(0, k))] + lines(s.subrange(k + 1, s.len() as int))
        } else {
            seq![s]
        }
    }
}

/// `str::split_whitespace`: the maximal runs of non-whitespace characters.
pub open spec fn words(s: Seq<char>) -> Seq<Seq<char>>
    decreases s.len(),
{
    let t = trim_start(s);
    proof {
        lemma_trim_start_len(s);
        lemma_find_ws_bounds(t);
    }
    if t.len() == 0 {
        seq![]
    } else {
        let k = find_ws(t);
        seq![t.subrange(0, k)] + words(t.subrange(k, t.len() as int))
    }
}

/// `str::splitn(n, sep)`: at most `n` pieces, the last holding the rest.
pub open spec fn splitn(s: Seq<char>, sep: char, n: nat) -> Seq<Seq<char>>
    decreases n,
{
    if n == 0 {
        seq![]
    } else if n == 1 {
        seq![s]
    } else {
        let k = find_char(s, sep);
        proof {
            lemma_find_char_bounds(s, sep);
        }
        if k < s.len() {
            seq![s.subrange(0, k)] + splitn(s.subrange(k + 1, s.len() as int), sep, (n - 1) as nat)
        } else {
            seq![s]
        }
    }
}

/// `str::split(sep)`: all pieces between separators.
pub open spec fn split_all(s: Seq<char>, sep: char) -> Seq<Seq<char>>
    decreases s.len(),
{
    let k = find_char(s, sep);
    proof {
        lemma_find_char_bounds(s, sep);
    }
    if k < s.len() {
        seq![s.subrange(0, k)] + split_all(s.subrange(k + 1, s.len() as int), sep)
    } else {
        seq![s]
    }
}

/// The `i`-th piece of a split, or the empty text when there are fewer
/// pieces (`next().unwrap_or("")`).
pub open spec fn piece(p: Seq<Seq<char>>, i: int) -> Seq<char> {
    if 0 <= i < p.len() {
        p[i]
    } else {
        Seq::empty()
    }
}

/// True when `p` occurs in `s` at index `i`.
pub open spec fn occurs_at(s: Seq<char>, p: Seq<char>, i: int) -> bool {
    0 <= i && i + p.len() <= s.len() && s.subrange(i, i + p.len()) == p
}

/// The index of the first occurrence of `p` in `s`.
pub open spec fn find_sub(s: Seq<char>, p: Seq<char>) -> Option<int>
    decreases s.len(),
{
    if p.len() <= s.len() && s.subrange(0, p.len() as int) == p {
        Some(0)
    } else if s.len() == 0 {
        None
    } else {
        match find_sub(s.drop_first(), p) {
            Some(i) => Some(i + 1),
            None => None,
        }
    }
}

/// `str::contains` with a text pattern.
pub open spec fn contains_sub(s: Seq<char>, p: Seq<char>) -> bool {
    find_sub(s, p) is Some
}

/// `str::starts_with` with a text pattern.
pub open spec fn starts_with(s: Seq<char>, p: Seq<char>) -> bool {
    p.len() <= s.len() && s.subrange(0, p.len() as int) == p
}

// ---------------------------------------------------------------------------

proof fn lemma_find_sub_at(s: Seq<char>, p: Seq<char>, k: int)
    requires
        forall|i: int| 0 <= i < k ==> !occurs_at(s, p, i),
        occurs_at(s, p, k),
    ensures
        find_sub(s, p) == Some(k),
    decreases s.len(),
{
    if k > 0 {
        let t = s.drop_first();
        assert forall|i: int| 0 <= i < k - 1 implies !occurs_at(t, p, i) by {
            assert(!occurs_at(s, p, i + 1));
            if i + p.len() <= t.len() {
                assert(t.subrange(i, i + p.len()) =~= s.subrange(i + 1, i + 1 + p.len()));
            }
        }
        assert(t.subrange(k - 1, k - 1 + p.len()) =~= s.subrange(k, k + p.len()));
        assert(!occurs_at(s, p, 0));
        lemma_find_sub_at(t, p, k - 1);
    }
}

proof fn lemma_find_sub_none(s: Seq<char>, p: Seq<char>)
    requires
        forall|i: int| 0 <= i ==> !occurs_at(s, p, i),
    ensures
        find_sub(s, p) is None,
    decreases s.len(),
{
    assert(!occurs_at(s, p, 0));
    if s.len() > 0 {
        let t = s.drop_first();
        assert forall|i: int| 0 <= i implies !occurs_at(t, p, i) by {
            assert(!occurs_at(s, p, i + 1));
            if i + p.len() <= t.len() {
                assert(t.subrange(i, i + p.len()) =~= s.subrange(i + 1, i + 1 + p.len()));
            }
        }
        lemma_find_sub_none(t, p);
    }
}

pub proof fn lemma_find_sub_occurs(s: Seq<char>, p: Seq<char>)
    ensures
        find_sub(s, p) matches Some(i) ==> occurs_at(s, p, i) && forall|j: int|
            0 <= j < i ==> !occurs_at(s, p, j),
    decreases s.len(),
{
    if !(p.len() <= s.len() && s.subrange(0, p.len() as int) == p) && s.len() > 0 {
        let t = s.drop_first();
        lemma_find_sub_occurs(t, p);
        if let Some(i) = find_sub(t, p) {
            assert(t.subrange(i, i + p.len()) =~= s.subrange(i + 1, i + 1 + p.len()));
            assert forall|j: int| 0 <= j < i + 1 implies !occurs_at(s, p, j) by {
                if j > 0 && j + p.len() <= s.len() {
                    assert(!occurs_at(t, p, j - 1));
                    assert(t.subrange(j - 1, j - 1 + p.len()) =~= s.subrange(j, j + p.len()));
                }
            }
        }
    }
}

// ---------------------------------------------------------------------------

proof fn lemma_views_push(v: Seq<Vec<char>>, x: Vec<char>)
    ensures
        views(v.push(x)) == views(v).push(x@),
{
    assert(views(v.push(x)) =~= views(v).push(x@));
}

/// `str::lines`.
pub fn lines_of(v: &Vec<char>) -> (res: Vec<Vec<char>>)
    ensures
        views(res@) == lines(v@),
{
    let mut res: Vec<Vec<char>> = Vec::new();
    let mut start: usize = 0;
    let n = v.len();
    assert(v@.subrange(0, n as int) =~= v@);
    while start < n
        invariant
            n == v.len(),
            start <= n,
            lines(v@) == views(res@) + lines(v@.subrange(start as int, n as int)),
        decreases n - start,
    {
        let ghost t = v@.subrange(start as int, n as int);
        let mut j = start;
        while j < n && v[j] != '\n'
            invariant
                start <= j <= n,
                n == v.len(),
                forall|i: int| start <= i < j ==> v@[i] != '\n',
            decreases n - j,
        {
            j = j + 1;
        }
        proof {
            assert forall|i: int| 0 <= i < j - start implies t[i] != '\n' by {
                assert(t[i] == v@[start + i]);
            }
            lemma_find_char(t, '\n', j - start);
        }
        if j < n {
            let mut line = slice(v, start, j);
            if line.len() > 0 && line[line.len() - 1] == '\r' {
                line.pop();
                assert(line@ =~= strip_cr(t.subrange(0, j - start)));
            } else {
                assert(line@ =~= strip_cr(t.subrange(0, j - start)));
            }
            proof {
                lemma_views_push(res@, line);
                assert(t.subrange(j - start + 1, t.len() as int) =~= v@.subrange(
                    j + 1,
                    n as int,
                ));
            }
            res.push(line);
            start = j + 1;
            proof {
                assert(lines(v@) =~= views(res@) + lines(v@.subrange(start as int, n as int)));
            }
        } else {
            let line = slice(v, start, n);
            proof {
                lemma_views_push(res@, line);
                assert(line@ =~= t);
                assert(lines(v@.subrange(n as int, n as int)) =~= Seq::<Seq<char>>::empty());
            }
            res.push(line);
            start = n;
            proof {
                assert(lines(v@) =~= views(res@) + lines(v@.subrange(start as int, n as int)));
            }
        }
    }
    proof {
        assert(lines(v@.subrange(n as int, n as int)) =~= Seq::<Seq<char>>::empty());
        assert(views(res@) + Seq::<Seq<char>>::empty() =~= views(res@));
    }
    res
}

/// `str::split_whitespace`.
pub fn words_of(v: &Vec<char>) -> (res: Vec<Vec<char>>)
    ensures
        views(res@) == words(v@),
{
    let mut res: Vec<Vec<char>> = Vec::new();
    let n = v.len();
    let mut i: usize = 0;
    assert(v@.subrange(0, n as int) =~= v@);
    loop
        invariant
            n == v.len(),
            i <= n,
            words(v@) == views(res@) + words(v@.subrange(i as int, n as int)),
        decreases n - i,
    {
        let ghost s0 = v@.subrange(i as int, n as int);
        let mut a = i;
        while a < n && is_whitespace(v[a])
            invariant
                i <= a <= n,
                n == v.len(),
                forall|k: int| i <= k < a ==> is_ws(v@[k]),
            decreases n - a,
        {
            a = a + 1;
        }
        let ghost s1 = v@.subrange(a as int, n as int);
        proof {
            assert forall|k: int| 0 <= k < a - i implies is_ws(s0[k]) by {
                assert(s0[k] == v@[i + k]);
            }
            if a < n {
                assert(s0[a - i] == v@[a as int]);
            }
            lemma_trim_start_at(s0, a - i);
            assert(s0.subrange(a - i, s0.len() as int) =~= s1);
            if a < n {
                assert(s1[0] == v@[a as int]);
            }
            lemma_trim_start_at(s1, 0);
            assert(s1.subrange(0, s1.len() as int) =~= s1);
            assert(words(s0) == words(s1));
        }
        if a == n {
            proof {
                assert(s1.len() == 0);
                assert(words(s0) =~= Seq::<Seq<char>>::empty());
                assert(views(res@) + Seq::<Seq<char>>::empty() =~= views(res@));
            }
            return res;
        }
        let mut b = a;
        while b < n && !is_whitespace(v[b])
            invariant
                a <= b <= n,
                n == v.len(),
                forall|k: int| a <= k < b ==> !is_ws(v@[k]),
            decreases n - b,
        {
            b = b + 1;
        }
        let w = slice(v, a, b);
        proof {
            assert forall|k: int| 0 <= k < b - a implies !is_ws(s1[k]) by {
                assert(s1[k] == v@[a + k]);
            }
            if b < n {
                assert(s1[b - a] == v@[b as int]);
            }
            lemma_find_ws(s1, b - a);
            assert(s1.subrange(0, b - a) =~= w@);
            assert(s1.subrange(b - a, s1.len() as int) =~= v@.subrange(b as int, n as int));
            lemma_views_push(res@, w);
        }
        res.push(w);
        i = b;
        proof {
            assert(words(v@) =~= views(res@) + words(v@.subrange(i as int, n as int)));
        }
    }
}

/// `str::splitn(n, sep)`.
pub fn splitn_of(v: &Vec<char>, sep: char, n: usize) -> (res: Vec<Vec<char>>)
    ensures
        views(res@) == splitn(v@, sep, n as nat),
{
    let mut res: Vec<Vec<char>> = Vec::new();
    if n == 0 {
        assert(views(res@) =~= splitn(v@, sep, n as nat));
        return res;
    }
    let len = v.len();
    let mut start: usize = 0;
    let mut left: usize = n;
    assert(v@.subrange(0, len as int) =~= v@);
    loop
        invariant
            len == v.len(),
            start <= len,
            1 <= left <= n,
            splitn(v@, sep, n as nat) == views(res@) + splitn(
                v@.subrange(start as int, len as int),
                sep,
                left as nat,
            ),
        decreases left,
    {
        let ghost t = v@.subrange(start as int, len as int);
        if left == 1 {
            let rest = slice(v, start, len);
            proof {
                lemma_views_push(res@, rest);
            }
            res.push(rest);
            assert(views(res@) =~= splitn(v@, sep, n as nat));
            return res;
        }
        let mut j = start;
        while j < len && v[j] != sep
            invariant
                start <= j <= len,
                len == v.len(),
                forall|k: int| start <= k < j ==> v@[k] != sep,
            decreases len - j,
        {
            j = j + 1;
        }
        proof {
            assert forall|k: int| 0 <= k < j - start implies t[k] != sep by {
                assert(t[k] == v@[start + k]);
            }
            if j < len {
                assert(t[j - start] == v@[j as int]);
            }
            lemma_find_char(t, sep, j - start);
        }
        let piece = slice(v, start, j);
        proof {
            lemma_views_push(res@, piece);
            assert(t.subrange(0, j - start) =~= piece@);
        }
        res.push(piece);
        if j == len {
            assert(piece@ =~= t);
            assert(views(res@) =~= splitn(v@, sep, n as nat));
            return res;
        }
        proof {
            assert(t.subrange(j - start + 1, t.len() as int) =~= v@.subrange(
                j + 1,
                len as int,
            ));
        }
        start = j + 1;
        left = left - 1;
        proof {
            assert(splitn(v@, sep, n as nat) =~= views(res@) + splitn(
                v@.subrange(start as int, len as int),
                sep,
                left as nat,
            ));
        }
    }
}

/// `str::split(sep)`.
pub fn split_all_of(v: &Vec<char>, sep: char) -> (res: Vec<Vec<char>>)
    ensures
        views(res@) == split_all(v@, sep),
{
    let mut res: Vec<Vec<char>> = Vec::new();
    let len = v.len();
    let mut start: usize = 0;
    assert(v@.subrange(0, len as int) =~= v@);
    loop
        invariant
            len == v.len(),
            start <= len,
            split_all(v@, sep) == views(res@) + split_all(
                v@.subrange(start as int, len as int),
                sep,
            ),
        decreases len - start,
    {
        let ghost t = v@.subrange(start as int, len as int);
        let mut j = start;
        while j < len && v[j] != sep
            invariant
                start <= j <= len,
                len == v.len(),
                forall|k: int| start <= k < j ==> v@[k] != sep,
            decreases len - j,
        {
            j = j + 1;
        }
        proof {
            assert forall|k: int| 0 <= k < j - start implies t[k] != sep by {
                assert(t[k] == v@[start + k]);
            }
            if j < len {
                assert(t[j - start] == v@[j as int]);
            }
            lemma_find_char(t, sep, j - start);
        }
        let piece = slice(v, start, j);
        proof {
            lemma_views_push(res@, piece);
            assert(t.subrange(0, j - start) =~= piece@);
        }
        res.push(piece);
        if j == len {
            assert(piece@ =~= t);
            assert(views(res@) =~= split_all(v@, sep));
            return res;
        }
        proof {
            assert(t.subrange(j - start + 1, t.len() as int) =~= v@.subrange(
                j + 1,
                len as int,
            ));
        }
        start = j + 1;
        proof {
            assert(split_all(v@, sep) =~= views(res@) + split_all(
                v@.subrange(start as int, len as int),
                sep,
            ));
        }
    }
}

/// True when `p` occurs in `v` at index `i`.
pub fn occurs_at_of(v: &Vec<char>, p: &Vec<char>, i: usize) -> (res: bool)
    ensures
        res == occurs_at(v@, p@, i as int),
{
    if p.len() > v.len() || i > v.len() - p.len() {
        return false;
    }
    let mut k: usize = 0;
    while k < p.len()
        invariant
            i + p.len() <= v.len(),
            k <= p.len(),
            forall|m: int| 0 <= m < k ==> v@[i + m] == p@[m],
        decreases p.len() - k,
    {
        if v[i + k] != p[k] {
            assert(v@.subrange(i as int, i + p.len())[k as int] != p@[k as int]);
            return false;
        }
        k = k + 1;
    }
    assert(v@.subrange(i as int, i + p.len()) =~= p@);
    true
}

/// The index of the first occurrence of `p` in `v`.
pub fn find_sub_of(v: &Vec<char>, p: &Vec<char>) -> (res: Option<usize>)
    ensures
        match res {
            Some(i) => find_sub(v@, p@) == Some(i as int),
            None => find_sub(v@, p@) is None,
        },
{
    let mut i: usize = 0;
    loop
        invariant
            i <= v.len(),
            forall|k: int| 0 <= k < i ==> !occurs_at(v@, p@, k),
        decreases v.len() - i,
    {
        if occurs_at_of(v, p, i) {
            proof {
                lemma_find_sub_at(v@, p@, i as int);
            }
            return Some(i);
        }
        if i == v.len() {
            proof {
                assert forall|k: int| 0 <= k implies !occurs_at(v@, p@, k) by {
                    if k > i {
                        assert(!(k + p@.len() <= v@.len()));
                    }
                }
                lemma_find_sub_none(v@, p@);
            }
            return None;
        }
        i = i + 1;
    }
}

/// `str::starts_with` with a text pattern.
pub fn starts_with_of(v: &Vec<char>, p: &Vec<char>) -> (res: bool)
    ensures
        res == starts_with(v@, p@),
{
    occurs_at_of(v, p, 0)
}

} // verus!
