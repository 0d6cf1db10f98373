//! Stable sorting by keys made of numbers and texts.
//!
//! A key is a sequence of parts compared left to right; numbers compare by
//! value and texts by code point, as `str`'s `Ord` does. The sort keeps items
//! with equal keys in their original order, like `slice::sort_by`.
use vstd::prelude::*;

verus! {

broadcast use vstd::seq::group_seq_axioms;

/// One part of a key, as a mathematical value.
pub enum KeyAtom {
    Num(nat),
    Text(Seq<char>),
}

/// One part of a key.
pub enum KeyPart {
    Num(u64),
    Text(Vec<char>),
}

impl View for KeyPart {
    type V = KeyAtom;

    open spec fn view(&self) -> KeyAtom {
        match self {
            KeyPart::Num(n) => KeyAtom::Num(*n as nat),
            KeyPart::Text(t) => KeyAtom::Text(t@),
        }
    }
}

/// A sort key: its parts, most significant first.
pub struct SortKey {
    pub parts: Vec<KeyPart>,
}

impl View for SortKey {
    type V = Seq<KeyAtom>;

    open spec fn view(&self) -> Seq<KeyAtom> {
        self.parts@.map_values(|p: KeyPart| p@)
    }
}

/// Three-way comparison of texts by code point: negative, zero or positive.
pub open spec fn text_order(a: Seq<char>, b: Seq<char>) -> int
    decreases a.len(),
{
    if a.len() == 0 && b.len() == 0 {
        0
    } else if a.len() == 0 {
        -1
    } else if b.len() == 0 {
        1
    } else if a[0] < b[0] {
        -1
    } else if a[0] > b[0] {
        1
    } else {
        text_order(a.drop_first(), b.drop_first())
    }
}

pub open spec fn atom_order(a: KeyAtom, b: KeyAtom) -> int {
    match (a, b) {
        (KeyAtom::Num(x), KeyAtom::Num(y)) => if x < y {
            -1
        } else if x > y {
            1
        } else {
            0
        },
        (KeyAtom::Text(x), KeyAtom::Text(y)) => text_order(x, y),
        (KeyAtom::Num(_), KeyAtom::Text(_)) => -1,
        (KeyAtom::Text(_), KeyAtom::Num(_)) => 1,
    }
}

/// Three-way lexicographic comparison of keys.
pub open spec fn key_order(a: Seq<KeyAtom>, b: Seq<KeyAtom>) -> int
    decreases a.len(),
{
    if a.len() == 0 && b.len() == 0 {
        0
    } else if a.len() == 0 {
        -1
    } else if b.len() == 0 {
        1
    } else if atom_order(a[0], b[0]) != 0 {
        atom_order(a[0], b[0])
    } else {
        key_order(a.drop_first(), b.drop_first())
    }
}

/// Where a stable insertion puts an item: before the first element whose
/// key is not smaller.
pub open spec fn insert_pos<T>(s: Seq<(Seq<KeyAtom>, T)>, k: Seq<KeyAtom>) -> int
    decreases s.len(),
{
    if s.len() == 0 {
        0
    } else if key_order(s[0].0, k) >= 0 {
        0
    } else {
        1 + insert_pos(s.drop_first(), k)
    }
}

/// Stable sort by key: the first element is inserted into the sorted rest.
pub open spec fn sort_keyed<T>(s: Seq<(Seq<KeyAtom>, T)>) -> Seq<(Seq<KeyAtom>, T)>
    decreases s.len(),
{
    if s.len() == 0 {
        s
    } else {
        let r = sort_keyed(s.drop_first());
        r.insert(insert_pos(r, s[0].0), s[0])
    }
}

/// The items of a keyed sequence.
pub open spec fn seconds<T>(s: Seq<(Seq<KeyAtom>, T)>) -> Seq<T> {
    s.map_values(|p: (Seq<KeyAtom>, T)| p.1)
}

/// Keys never decrease along `s`.
pub open spec fn keys_sorted<T>(s: Seq<(Seq<KeyAtom>, T)>) -> bool {
    forall|i: int, j: int| 0 <= i < j < s.len() ==> key_order(s[i].0, s[j].0) <= 0
}

// ---------------------------------------------------------------------------
// Order laws
// ---------------------------------------------------------------------------

pub proof fn lemma_text_order_antisym(a: Seq<char>, b: Seq<char>)
    ensures
        text_order(a, b) == -text_order(b, a),
        -1 <= text_order(a, b) <= 1,
        (text_order(a, b) == 0) == (a == b),
    decreases a.len(),
{
    if a.len() > 0 && b.len() > 0 && a[0] == b[0] {
        lemma_text_order_antisym(a.drop_first(), b.drop_first());
        if a.drop_first() == b.drop_first() {
            assert(a =~= seq![a[0]] + a.drop_first());
            assert(b =~= seq![b[0]] + b.drop_first());
        }
    } else if a.len() > 0 && b.len() > 0 {
    }
    if a.len() == 0 && b.len() == 0 {
        assert(a =~= b);
    }
}

pub proof fn lemma_text_order_trans(a: Seq<char>, b: Seq<char>, c: Seq<char>)
    requires
        text_order(a, b) <= 0,
        text_order(b, c) <= 0,
    ensures
        text_order(a, c) <= 0,
        text_order(a, b) < 0 || text_order(b, c) < 0 ==> text_order(a, c) < 0,
    decreases a.len(),
{
    if a.len() > 0 && b.len() > 0 && c.len() > 0 && a[0] == b[0] && b[0] == c[0] {
        lemma_text_order_trans(a.drop_first(), b.drop_first(), c.drop_first());
    }
}

pub proof fn lemma_atom_order(a: KeyAtom, b: KeyAtom)
    ensures
        atom_order(a, b) == -atom_order(b, a),
        -1 <= atom_order(a, b) <= 1,
        (atom_order(a, b) == 0) == (a == b),
{
    match (a, b) {
        (KeyAtom::Text(x), KeyAtom::Text(y)) => {
            lemma_text_order_antisym(x, y);
        },
        _ => {},
    }
}

pub proof fn lemma_atom_order_trans(a: KeyAtom, b: KeyAtom, c: KeyAtom)
    requires
        atom_order(a, b) <= 0,
        atom_order(b, c) <= 0,
    ensures
        atom_order(a, c) <= 0,
        atom_order(a, b) < 0 || atom_order(b, c) < 0 ==> atom_order(a, c) < 0,
{
    match (a, b, c) {
        (KeyAtom::Text(x), KeyAtom::Text(y), KeyAtom::Text(z)) => {
            lemma_text_order_trans(x, y, z);
        },
        _ => {},
    }
}

/// `key_order` is antisymmetric and is zero exactly on equal keys.
pub proof fn lemma_key_order_antisym(a: Seq<KeyAtom>, b: Seq<KeyAtom>)
    ensures
        key_order(a, b) == -key_order(b, a),
        -1 <= key_order(a, b) <= 1,
        (key_order(a, b) == 0) == (a == b),
    decreases a.len(),
{
    if a.len() > 0 && b.len() > 0 {
        lemma_atom_order(a[0], b[0]);
        if atom_order(a[0], b[0]) == 0 {
            lemma_key_order_antisym(a.drop_first(), b.drop_first());
            if a.drop_first() == b.drop_first() {
                assert(a =~= seq![a[0]] + a.drop_first());
                assert(b =~= seq![b[0]] + b.drop_first());
            }
        }
    }
    if a.len() == 0 && b.len() == 0 {
        assert(a =~= b);
    }
}

/// `key_order` is transitive.
pub proof fn lemma_key_order_trans(a: Seq<KeyAtom>, b: Seq<KeyAtom>, c: Seq<KeyAtom>)
    requires
        key_order(a, b) <= 0,
        key_order(b, c) <= 0,
    ensures
        key_order(a, c) <= 0,
        key_order(a, b) < 0 || key_order(b, c) < 0 ==> key_order(a, c) < 0,
    decreases a.len(),
{
    if a.len() > 0 && b.len() > 0 && c.len() > 0 {
        lemma_atom_order(a[0], b[0]);
        lemma_atom_order(b[0], c[0]);
        lemma_atom_order(a[0], c[0]);
        lemma_atom_order_trans(a[0], b[0], c[0]);
        if atom_order(a[0], b[0]) == 0 && atom_order(b[0], c[0]) == 0 {
            lemma_key_order_trans(a.drop_first(), b.drop_first(), c.drop_first());
        }
    }
}

// ---------------------------------------------------------------------------
// Sorting laws
// ---------------------------------------------------------------------------

proof fn lemma_insert_pos_bounds<T>(s: Seq<(Seq<KeyAtom>, T)>, k: Seq<KeyAtom>)
    ensures
        0 <= insert_pos(s, k) <= s.len(),
        forall|i: int| 0 <= i < insert_pos(s, k) ==> key_order(s[i].0, k) < 0,
        insert_pos(s, k) < s.len() ==> key_order(s[insert_pos(s, k)].0, k) >= 0,
    decreases s.len(),
{
    if s.len() > 0 && key_order(s[0].0, k) < 0 {
        lemma_insert_pos_bounds(s.drop_first(), k);
        assert forall|i: int| 0 <= i < insert_pos(s, k) implies key_order(s[i].0, k) < 0 by {
            if i > 0 {
                assert(s[i] == s.drop_first()[i - 1]);
            }
        }
    }
}

/// The stable sort's result has nondecreasing keys.
pub proof fn lemma_sort_keyed_sorted<T>(s: Seq<(Seq<KeyAtom>, T)>)
    ensures
        keys_sorted(sort_keyed(s)),
        sort_keyed(s).len() == s.len(),
    decreases s.len(),
{
    if s.len() > 0 {
        let r = sort_keyed(s.drop_first());
        lemma_sort_keyed_sorted(s.drop_first());
        let k = s[0].0;
        let p = insert_pos(r, k);
        lemma_insert_pos_bounds(r, k);
        let q = r.insert(p, s[0]);
        assert forall|i: int, j: int| 0 <= i < j < q.len() implies key_order(q[i].0, q[j].0)
            <= 0 by {
            if j < p {
            } else if j == p {
                lemma_key_order_antisym(q[i].0, k);
            } else if i < p {
                assert(key_order(r[i].0, k) < 0);
                assert(key_order(k, r[p].0) <= 0) by {
                    lemma_key_order_antisym(r[p].0, k);
                }
                lemma_key_order_trans(r[i].0, k, r[p].0);
                if p < j - 1 {
                    assert(key_order(r[p].0, r[j - 1].0) <= 0);
                    lemma_key_order_trans(r[i].0, r[p].0, r[j - 1].0);
                }
            } else if i == p {
                assert(key_order(k, r[p].0) <= 0) by {
                    lemma_key_order_antisym(r[p].0, k);
                }
                if p < j - 1 {
                    assert(key_order(r[p].0, r[j - 1].0) <= 0);
                    lemma_key_order_trans(k, r[p].0, r[j - 1].0);
                }
            } else {
                assert(key_order(r[i - 1].0, r[j - 1].0) <= 0);
            }
        }
    }
}

/// The stable sort rearranges its input without adding or losing items.
pub proof fn lemma_sort_keyed_permutes<T>(s: Seq<(Seq<KeyAtom>, T)>)
    ensures
        sort_keyed(s).to_multiset() == s.to_multiset(),
    decreases s.len(),
{
    broadcast use vstd::seq_lib::group_to_multiset_ensures;

    if s.len() > 0 {
        let r = sort_keyed(s.drop_first());
        lemma_sort_keyed_permutes(s.drop_first());
        lemma_insert_pos_bounds(r, s[0].0);
        let p = insert_pos(r, s[0].0);
        let q = r.insert(p, s[0]);
        assert(q.remove(p) =~= r);
        assert(q[p] == s[0]);
        assert(q.to_multiset().remove(s[0]) == r.to_multiset());
        assert(q.to_multiset().count(s[0]) > 0) by {
            assert(q.contains(s[0]));
        }
        assert(s =~= seq![s[0]] + s.drop_first());
        assert(s.drop_first().to_multiset() == s.to_multiset().remove(s[0])) by {
            assert(s.remove(0) =~= s.drop_first());
        }
        assert(q.to_multiset() =~= s.to_multiset());
    }
}

/// Every entry of the sorted sequence is an entry of its input.
pub proof fn lemma_sort_keyed_from_input<T>(s: Seq<(Seq<KeyAtom>, T)>)
    ensures
        forall|i: int| 0 <= i < sort_keyed(s).len() ==> s.contains(#[trigger] sort_keyed(s)[i]),
{
    broadcast use vstd::seq_lib::to_multiset_contains;

    lemma_sort_keyed_permutes(s);
    lemma_sort_keyed_sorted(s);
    assert forall|i: int| 0 <= i < sort_keyed(s).len() implies s.contains(
        #[trigger] sort_keyed(s)[i],
    ) by {
        assert(sort_keyed(s).to_multiset().count(sort_keyed(s)[i]) > 0);
    }
}

/// Comparing non-empty keys looks at their first parts, and only when those
/// are equal at the rest.
pub proof fn lemma_key_order_unfold(a: Seq<KeyAtom>, b: Seq<KeyAtom>)
    requires
        a.len() > 0,
        b.len() > 0,
    ensures
        key_order(a, b) == if atom_order(a[0], b[0]) != 0 {
            atom_order(a[0], b[0])
        } else {
            key_order(a.drop_first(), b.drop_first())
        },
{
}

/// The stable sort keeps the items themselves: the same items, each as
/// often.
pub proof fn lemma_sort_keyed_items<T>(s: Seq<(Seq<KeyAtom>, T)>)
    ensures
        seconds(sort_keyed(s)).to_multiset() == seconds(s).to_multiset(),
    decreases s.len(),
{
    broadcast use vstd::seq_lib::group_to_multiset_ensures, vstd::multiset::group_multiset_axioms;

    if s.len() > 0 {
        let r = sort_keyed(s.drop_first());
        lemma_sort_keyed_items(s.drop_first());
        lemma_insert_pos_bounds(r, s[0].0);
        let p = insert_pos(r, s[0].0);
        let q = seconds(r.insert(p, s[0]));
        let x = s[0].1;
        assert(q.remove(p) =~= seconds(r));
        assert(q[p] == x);
        assert(q.to_multiset().remove(x) == seconds(r).to_multiset());
        assert(q.to_multiset().count(x) > 0) by {
            assert(q.contains(x));
        }
        let t = seconds(s);
        assert(t.remove(0) =~= seconds(s.drop_first()));
        assert(t[0] == x);
        assert(t.to_multiset().remove(x) == seconds(s.drop_first()).to_multiset());
        assert(t.to_multiset().count(x) > 0) by {
            assert(t.contains(x));
        }
        assert(q.to_multiset() =~= q.to_multiset().remove(x).insert(x));
        assert(t.to_multiset() =~= t.to_multiset().remove(x).insert(x));
    }
}

/// Each entry's key, with the entry's position in `s` as its item.
pub open spec fn tagged<T>(s: Seq<(Seq<KeyAtom>, T)>) -> Seq<(Seq<KeyAtom>, int)> {
    Seq::new(s.len(), |i: int| (s[i].0, i))
}

/// Where each entry of the sorted sequence stood in the input.
pub open spec fn sorted_positions<T>(s: Seq<(Seq<KeyAtom>, T)>) -> Seq<int> {
    seconds(sort_keyed(tagged(s)))
}

proof fn lemma_sort_keyed_stable_tags(s: Seq<(Seq<KeyAtom>, int)>)
    requires
        forall|a: int, b: int| 0 <= a < b < s.len() ==> s[a].1 < s[b].1,
    ensures
        forall|i: int, j: int|
            0 <= i < j < sort_keyed(s).len() && sort_keyed(s)[i].0 == sort_keyed(s)[j].0
                ==> sort_keyed(s)[i].1 < sort_keyed(s)[j].1,
    decreases s.len(),
{
    if s.len() > 0 {
        let t = s.drop_first();
        lemma_sort_keyed_stable_tags(t);
        lemma_sort_keyed_from_input(t);
        lemma_sort_keyed_sorted(t);
        let r = sort_keyed(t);
        let k = s[0].0;
        let p = insert_pos(r, k);
        lemma_insert_pos_bounds(r, k);
        let q = r.insert(p, s[0]);
        assert forall|m: int| 0 <= m < r.len() implies r[m].1 > s[0].1 by {
            assert(t.contains(r[m]));
            let w = choose|w: int| 0 <= w < t.len() && t[w] == r[m];
            assert(t[w] == s[w + 1]);
        }
        assert forall|i: int, j: int|
            0 <= i < j < q.len() && q[i].0 == q[j].0 implies q[i].1 < q[j].1 by {
            if j == p {
                lemma_key_order_antisym(r[i].0, k);
            } else if i == p {
                assert(q[j] == r[j - 1]);
            } else if j < p {
                assert(q[i] == r[i] && q[j] == r[j]);
            } else if i < p {
                assert(q[i] == r[i] && q[j] == r[j - 1]);
            } else {
                assert(q[i] == r[i - 1] && q[j] == r[j - 1]);
            }
        }
    }
}

/// The sort is stable: each entry of the result is the input entry at its
/// position in [`sorted_positions`], and entries with equal keys keep their
/// input order.
pub proof fn lemma_sort_keyed_stable<T>(s: Seq<(Seq<KeyAtom>, T)>)
    ensures
        sorted_positions(s).len() == s.len(),
        forall|i: int|
            0 <= i < s.len() ==> 0 <= #[trigger] sorted_positions(s)[i] < s.len() && sort_keyed(
                s,
            )[i] == s[sorted_positions(s)[i]],
        forall|i: int, j: int|
            0 <= i < j < s.len() && sort_keyed(s)[i].0 == sort_keyed(s)[j].0
                ==> sorted_positions(s)[i] < sorted_positions(s)[j],
{
    let g = tagged(s);
    lemma_sort_keyed_stable_tags(g);
    lemma_sort_keyed_from_input(g);
    lemma_sort_keyed_sorted(g);
    lemma_sort_keyed_sorted(s);
    let f = |k: int| s[k].1;
    assert(map_items(g, f) =~= s);
    lemma_sort_keyed_map_items(g, f);
    let u = sort_keyed(g);
    assert forall|i: int| 0 <= i < s.len() implies 0 <= #[trigger] sorted_positions(s)[i]
        < s.len() && sort_keyed(s)[i] == s[sorted_positions(s)[i]] by {
        assert(g.contains(u[i]));
        let m = choose|m: int| 0 <= m < g.len() && g[m] == u[i];
        assert(sorted_positions(s)[i] == m);
        assert(sort_keyed(s)[i] == map_items(u, f)[i]);
    }
    assert forall|i: int, j: int|
        0 <= i < j < s.len() && sort_keyed(s)[i].0 == sort_keyed(s)[j].0 implies sorted_positions(
        s,
    )[i] < sorted_positions(s)[j] by {
        assert(sort_keyed(s)[i] == map_items(u, f)[i]);
        assert(sort_keyed(s)[j] == map_items(u, f)[j]);
    }
}

/// The keyed sequence with each item passed through `f`.
pub open spec fn map_items<T, U>(s: Seq<(Seq<KeyAtom>, T)>, f: spec_fn(T) -> U) -> Seq<
    (Seq<KeyAtom>, U),
> {
    s.map_values(|p: (Seq<KeyAtom>, T)| (p.0, f(p.1)))
}

proof fn lemma_insert_pos_map_items<T, U>(
    s: Seq<(Seq<KeyAtom>, T)>,
    f: spec_fn(T) -> U,
    k: Seq<KeyAtom>,
)
    ensures
        insert_pos(map_items(s, f), k) == insert_pos(s, k),
    decreases s.len(),
{
    if s.len() > 0 {
        assert(map_items(s, f).drop_first() =~= map_items(s.drop_first(), f));
        lemma_insert_pos_map_items(s.drop_first(), f, k);
    }
}

/// Sorting depends on the keys alone: items may be transformed before or
/// after.
pub proof fn lemma_sort_keyed_map_items<T, U>(s: Seq<(Seq<KeyAtom>, T)>, f: spec_fn(T) -> U)
    ensures
        sort_keyed(map_items(s, f)) == map_items(sort_keyed(s), f),
    decreases s.len(),
{
    if s.len() > 0 {
        assert(map_items(s, f).drop_first() =~= map_items(s.drop_first(), f));
        lemma_sort_keyed_map_items(s.drop_first(), f);
        let r = sort_keyed(s.drop_first());
        lemma_insert_pos_map_items(r, f, s[0].0);
        lemma_insert_pos_bounds(r, s[0].0);
        let p = insert_pos(r, s[0].0);
        assert(map_items(r, f).insert(p, map_items(s, f)[0]) =~= map_items(
            r.insert(p, s[0]),
            f,
        ));
    } else {
        assert(map_items(s, f) =~= s.map_values(|p: (Seq<KeyAtom>, T)| (p.0, f(p.1))));
    }
}

/// The items of a keyed sequence, transformed by `f`, are the transformed
/// items.
pub proof fn lemma_seconds_map_items<T, U>(s: Seq<(Seq<KeyAtom>, T)>, f: spec_fn(T) -> U)
    ensures
        seconds(map_items(s, f)) == seconds(s).map_values(f),
{
    assert(seconds(map_items(s, f)) =~= seconds(s).map_values(f));
}

// ---------------------------------------------------------------------------
// Executable comparison and sort
// ---------------------------------------------------------------------------

pub open spec fn keyed_views<T>(v: Seq<(SortKey, T)>) -> Seq<(Seq<KeyAtom>, T)> {
    v.map_values(|p: (SortKey, T)| (p.0@, p.1))
}

/// Three-way comparison of texts by code point.
pub fn text_order_of(a: &Vec<char>, b: &Vec<char>) -> (res: i8)
    ensures
        res as int == text_order(a@, b@),
{
    let mut i: usize = 0;
    assert(a@.subrange(0, a@.len() as int) =~= a@);
    assert(b@.subrange(0, b@.len() as int) =~= b@);
    while i < a.len() && i < b.len()
        invariant
            i <= a.len(),
            i <= b.len(),
            text_order(a@, b@) == text_order(a@.subrange(i as int, a@.len() as int), b@.subrange(
                i as int,
                b@.len() as int,
            )),
        decreases a.len() - i,
    {
        let x = a[i];
        let y = b[i];
        let ghost sa = a@.subrange(i as int, a@.len() as int);
        let ghost sb = b@.subrange(i as int, b@.len() as int);
        assert(sa[0] == a@[i as int]);
        assert(sb[0] == b@[i as int]);
        if x < y {
            return -1;
        }
        if x > y {
            return 1;
        }
        assert(sa.drop_first() =~= a@.subrange(i + 1, a@.len() as int));
        assert(sb.drop_first() =~= b@.subrange(i + 1, b@.len() as int));
        i = i + 1;
    }
    if i == a.len() && i == b.len() {
        0
    } else if i == a.len() {
        -1
    } else {
        1
    }
}

fn atom_order_of(a: &KeyPart, b: &KeyPart) -> (res: i8)
    ensures
        res as int == atom_order(a@, b@),
{
    match (a, b) {
        (KeyPart::Num(x), KeyPart::Num(y)) => if *x < *y {
            -1
        } else if *x > *y {
            1
        } else {
            0
        },
        (KeyPart::Text(x), KeyPart::Text(y)) => text_order_of(x, y),
        (KeyPart::Num(_), KeyPart::Text(_)) => -1,
        (KeyPart::Text(_), KeyPart::Num(_)) => 1,
    }
}

/// Three-way lexicographic comparison of sort keys.
pub fn key_order_of(a: &SortKey, b: &SortKey) -> (res: i8)
    ensures
        res as int == key_order(a@, b@),
{
    let mut i: usize = 0;
    assert(a@.subrange(0, a@.len() as int) =~= a@);
    assert(b@.subrange(0, b@.len() as int) =~= b@);
    while i < a.parts.len() && i < b.parts.len()
        invariant
            i <= a.parts.len(),
            i <= b.parts.len(),
            key_order(a@, b@) == key_order(a@.subrange(i as int, a@.len() as int), b@.subrange(
                i as int,
                b@.len() as int,
            )),
        decreases a.parts.len() - i,
    {
        let o = atom_order_of(&a.parts[i], &b.parts[i]);
        let ghost sa = a@.subrange(i as int, a@.len() as int);
        let ghost sb = b@.subrange(i as int, b@.len() as int);
        assert(sa[0] == a.parts@[i as int]@);
        assert(sb[0] == b.parts@[i as int]@);
        if o != 0 {
            return o;
        }
        assert(sa.drop_first() =~= a@.subrange(i + 1, a@.len() as int));
        assert(sb.drop_first() =~= b@.subrange(i + 1, b@.len() as int));
        i = i + 1;
    }
    if i == a.parts.len() && i == b.parts.len() {
        0
    } else if i == a.parts.len() {
        -1
    } else {
        1
    }
}

proof fn lemma_keyed_views_drop_last<T>(v: Seq<(SortKey, T)>)
    requires
        v.len() > 0,
    ensures
        keyed_views(v.drop_last()) == keyed_views(v).drop_last(),
        keyed_views(v).last() == (v.last().0@, v.last().1),
{
    assert(keyed_views(v.drop_last()) =~= keyed_views(v).drop_last());
}

/// Moves every element out of `v`, leaving it empty.
pub fn take_all<T>(v: &mut Vec<T>) -> (res: Vec<T>)
    ensures
        res@ == old(v)@,
        final(v)@.len() == 0,
{
    let mut out: Vec<T> = Vec::new();
    std::mem::swap(v, &mut out);
    out
}

/// Stable sort of keyed items.
pub fn sort_keyed_vec<T>(items: Vec<(SortKey, T)>) -> (res: Vec<(SortKey, T)>)
    ensures
        keyed_views(res@) == sort_keyed(keyed_views(items@)),
{
    let mut rest = items;
    let mut out: Vec<(SortKey, T)> = Vec::new();
    let ghost all = keyed_views(rest@);
    assert(all.subrange(all.len() as int, all.len() as int) =~= Seq::<
        (Seq<KeyAtom>, T),
    >::empty());
    assert(keyed_views(out@) =~= sort_keyed(all.subrange(all.len() as int, all.len() as int)));
    while rest.len() > 0
        invariant
            all.len() >= rest.len(),
            keyed_views(rest@) == all.subrange(0, rest.len() as int),
            keyed_views(out@) == sort_keyed(all.subrange(rest.len() as int, all.len() as int)),
        decreases rest.len(),
    {
        let ghost before = rest@;
        let item = rest.pop().unwrap();
        proof {
            lemma_keyed_views_drop_last(before);
        }
        let ghost m = rest.len() as int;
        let ghost tail = all.subrange(m, all.len() as int);
        assert(tail.drop_first() =~= all.subrange(m + 1, all.len() as int));
        assert(tail[0] == (item.0@, item.1));
        let ghost r = keyed_views(out@);
        let mut p: usize = 0;
        assert(r.subrange(0, r.len() as int) =~= r);
        while p < out.len() && key_order_of(&out[p].0, &item.0) < 0
            invariant
                p <= out.len(),
                r == keyed_views(out@),
                insert_pos(r, item.0@) == p + insert_pos(r.subrange(p as int, r.len() as int), item.0@),
            decreases out.len() - p,
        {
            let ghost sr = r.subrange(p as int, r.len() as int);
            assert(sr[0] == r[p as int]);
            assert(sr.drop_first() =~= r.subrange(p + 1, r.len() as int));
            p = p + 1;
        }
        proof {
            let sr = r.subrange(p as int, r.len() as int);
            if p < out.len() {
                assert(sr[0] == r[p as int]);
            }
            assert(insert_pos(sr, item.0@) == 0);
            assert(r.subrange(0, r.len() as int) =~= r);
        }
        out.insert(p, item);
        proof {
            assert(keyed_views(out@) =~= r.insert(p as int, (item.0@, item.1)));
        }
    }
    assert(all.subrange(0, all.len() as int) =~= all);
    out
}

pub open spec fn key_views(v: Seq<SortKey>) -> Seq<Seq<KeyAtom>> {
    v.map_values(|k: SortKey| k@)
}

/// Each item paired with the key at its position.
pub open spec fn zip_keys<T>(ks: Seq<Seq<KeyAtom>>, items: Seq<T>) -> Seq<(Seq<KeyAtom>, T)> {
    Seq::new(items.len(), |i: int| (ks[i], items[i]))
}

/// Stable sort of `items` by the key at each item's position.
pub fn sort_with_keys<T>(items: Vec<T>, keys: Vec<SortKey>) -> (res: Vec<T>)
    requires
        keys.len() == items.len(),
    ensures
        res@ == seconds(sort_keyed(zip_keys(key_views(keys@), items@))),
{
    let ghost orig = items@;
    let ghost want = zip_keys(key_views(keys@), orig);
    let mut rest = items;
    let mut ks = keys;
    let mut keyed: Vec<(SortKey, T)> = Vec::new();
    while rest.len() > 0
        invariant
            rest.len() <= orig.len(),
            ks.len() == rest.len(),
            rest@ == orig.subrange(0, rest.len() as int),
            key_views(ks@) == key_views(keys@).subrange(0, rest.len() as int),
            keys@.len() == orig.len(),
            want == zip_keys(key_views(keys@), orig),
            keyed_views(keyed@) == want.subrange(rest.len() as int, orig.len() as int),
        decreases rest.len(),
    {
        let ghost kv0 = key_views(ks@);
        let x = rest.pop().unwrap();
        let k = ks.pop().unwrap();
        assert(x == orig[rest.len() as int]);
        assert(kv0[rest.len() as int] == k@);
        assert(key_views(ks@) =~= kv0.drop_last());
        let ghost kb = keyed@;
        keyed.insert(0, (k, x));
        proof {
            assert(want[rest.len() as int] == (k@, x));
            assert(keyed@ =~= seq![(k, x)] + kb);
            assert(keyed_views(keyed@) =~= seq![(k@, x)] + keyed_views(kb));
            assert(keyed_views(keyed@) =~= want.subrange(rest.len() as int, orig.len() as int));
        }
    }
    assert(want.subrange(0, orig.len() as int) =~= want);
    let mut sorted = sort_keyed_vec(keyed);
    let ghost sv = keyed_views(sorted@);
    let mut out: Vec<T> = Vec::new();
    while sorted.len() > 0
        invariant
            sorted.len() <= sv.len(),
            keyed_views(sorted@) == sv.subrange(0, sorted.len() as int),
            out@ == seconds(sv).subrange(sorted.len() as int, sv.len() as int),
        decreases sorted.len(),
    {
        let ghost before = sorted@;
        let (kk, x) = sorted.pop().unwrap();
        proof {
            assert(keyed_views(sorted@) =~= keyed_views(before).drop_last());
            assert(keyed_views(before)[sorted.len() as int] == (kk@, x));
            assert(seconds(sv)[sorted.len() as int] == x);
        }
        out.insert(0, x);
        proof {
            assert(out@ =~= seconds(sv).subrange(sorted.len() as int, sv.len() as int));
        }
    }
    assert(seconds(sv).subrange(0, sv.len() as int) =~= seconds(sv));
    out
}

} // verus!
