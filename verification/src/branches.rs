//! Local branches of a repository, read from `git for-each-ref`, and the
//! order in which they are listed.
use vstd::prelude::*;
use crate::numbers::{parse_unsigned, parse_unsigned_of};
use crate::repo::usize_or_zero;
use crate::sorting::{
    key_order, lemma_seconds_map_items, lemma_sort_keyed_items,
    lemma_key_order_unfold, lemma_sort_keyed_from_input, lemma_sort_keyed_map_items,
    lemma_sort_keyed_sorted, lemma_sort_keyed_stable, map_items, sorted_positions,
    seconds, sort_keyed, sort_keyed_vec, keyed_views, KeyAtom, KeyPart, SortKey,
};
use crate::split::{
    contains_sub, find_sub_of, lines, lines_of, piece, splitn, splitn_of, views, words,
    words_of,
};
use crate::text::{
    chars_of, lowercase, owned, same_chars, slice, string_of, text_views, to_lowercase, trim,
    trim_chars,
};

verus! {

broadcast use vstd::seq::group_seq_axioms;

/// A local branch and a snapshot of its state, for the project detail view.
pub struct Branch {
    pub name: String,
    /// Commit time of the branch tip, in seconds since the Unix epoch.
    pub last_commit: Option<u64>,
    pub author: String,
    pub subject: String,
    pub upstream: Option<String>,
    pub ahead: usize,
    pub behind: usize,
    /// Upstream is configured but gone from the remote — a prune candidate.
    pub gone: bool,
    /// This is the currently checked-out branch.
    pub is_head: bool,
}

/// The contents of a [`Branch`].
pub struct BranchView {
    pub name: Seq<char>,
    pub last_commit: Option<u64>,
    pub author: Seq<char>,
    pub subject: Seq<char>,
    pub upstream: Option<Seq<char>>,
    pub ahead: usize,
    pub behind: usize,
    pub gone: bool,
    pub is_head: bool,
}

impl View for Branch {
    type V = BranchView;

    open spec fn view(&self) -> BranchView {
        BranchView {
            name: self.name@,
            last_commit: self.last_commit,
            author: self.author@,
            subject: self.subject@,
            upstream: match self.upstream {
                Some(u) => Some(u@),
                None => None,
            },
            ahead: self.ahead,
            behind: self.behind,
            gone: self.gone,
            is_head: self.is_head,
        }
    }
}

pub open spec fn branch_view_fn() -> spec_fn(Branch) -> BranchView {
    |b: Branch| b@
}

pub open spec fn branch_views(s: Seq<Branch>) -> Seq<BranchView> {
    s.map_values(branch_view_fn())
}

/// `s` without its trailing occurrences of `c`.
pub open spec fn strip_trailing(s: Seq<char>, c: char) -> Seq<char>
    decreases s.len(),
{
    if s.len() > 0 && s.last() == c {
        strip_trailing(s.drop_last(), c)
    } else {
        s
    }
}

/// The ahead/behind counts after reading the first `k` adjacent token pairs:
/// a pair `ahead N` or `behind N` sets that count (a trailing comma on `N`
/// is ignored, an unreadable `N` counts as 0).
pub open spec fn track_pairs(toks: Seq<Seq<char>>, k: nat) -> (usize, usize)
    decreases k,
{
    if k == 0 {
        (0, 0)
    } else {
        let (a, b) = track_pairs(toks, (k - 1) as nat);
        let n = usize_or_zero(strip_trailing(toks[k as int], ','));
        if toks[k - 1] == "ahead"@ {
            (n, b)
        } else if toks[k - 1] == "behind"@ {
            (a, n)
        } else {
            (a, b)
        }
    }
}

/// The meaning of git's `upstream:track,nobracket` field: `(ahead, behind,
/// gone)`. Any mention of `gone` means the upstream is gone.
pub open spec fn track_info(t: Seq<char>) -> (usize, usize, bool) {
    if contains_sub(t, "gone"@) {
        (0, 0, true)
    } else {
        let toks = words(t);
        let (a, b) = if toks.len() >= 2 {
            track_pairs(toks, (toks.len() - 1) as nat)
        } else {
            (0, 0)
        };
        (a, b, false)
    }
}

/// The branch described by one line of `git for-each-ref` output with
/// [`branch_format`]: tab-separated name, commit time, author, upstream,
/// track, HEAD marker and subject. A line with an empty name describes no
/// branch.
pub open spec fn branch_of_line(line: Seq<char>) -> Option<BranchView> {
    let f = splitn(line, '\t', 7);
    let name = piece(f, 0);
    let up = piece(f, 3);
    let (a, b, g) = track_info(piece(f, 4));
    if name.len() == 0 {
        None
    } else {
        Some(
            BranchView {
                name,
                last_commit: match parse_unsigned(trim(piece(f, 1)), u64::MAX as nat) {
                    Some(t) => Some(t as u64),
                    None => None,
                },
                author: piece(f, 2),
                subject: piece(f, 6),
                upstream: if up.len() == 0 {
                    None
                } else {
                    Some(up)
                },
                ahead: a,
                behind: b,
                gone: g,
                is_head: trim(piece(f, 5)) == "*"@,
            },
        )
    }
}

/// The branches described by the lines that describe one, in order.
pub open spec fn branches_of_lines(ls: Seq<Seq<char>>) -> Seq<BranchView>
    decreases ls.len(),
{
    if ls.len() == 0 {
        seq![]
    } else {
        let rest = branches_of_lines(ls.drop_last());
        match branch_of_line(ls.last()) {
            Some(b) => rest.push(b),
            None => rest,
        }
    }
}

/// The position of `name` among the default branch names, if any.
pub open spec fn rank_of(defaults: Seq<Seq<char>>, name: Seq<char>) -> Option<int>
    decreases defaults.len(),
{
    if defaults.len() == 0 {
        None
    } else if defaults[0] == name {
        Some(0)
    } else {
        match rank_of(defaults.drop_first(), name) {
            Some(i) => Some(i + 1),
            None => None,
        }
    }
}

/// The listing order of branches: default branches first, by their position
/// among the defaults; then the others, most recent commit first (those
/// without a commit time last), ties by lowercased name.
pub open spec fn branch_key(b: BranchView, defaults: Seq<Seq<char>>) -> Seq<KeyAtom> {
    match rank_of(defaults, b.name) {
        Some(r) => seq![
            KeyAtom::Num(0),
            KeyAtom::Num(r as nat),
            KeyAtom::Num(0),
            KeyAtom::Num(0),
            KeyAtom::Text(Seq::empty()),
        ],
        None => seq![
            KeyAtom::Num(1),
            KeyAtom::Num(0),
            KeyAtom::Num(
                if b.last_commit is Some {
                    0
                } else {
                    1
                },
            ),
            KeyAtom::Num(
                match b.last_commit {
                    Some(t) => (u64::MAX - t) as nat,
                    None => 0,
                },
            ),
            KeyAtom::Text(lowercase(b.name)),
        ],
    }
}

pub open spec fn keyed_branches(bs: Seq<BranchView>, defaults: Seq<Seq<char>>) -> Seq<
    (Seq<KeyAtom>, BranchView),
> {
    Seq::new(bs.len(), |i: int| (branch_key(bs[i], defaults), bs[i]))
}

/// `bs` in listing order (a stable sort by [`branch_key`]).
pub open spec fn order_branches(bs: Seq<BranchView>, defaults: Seq<Seq<char>>) -> Seq<BranchView> {
    seconds(sort_keyed(keyed_branches(bs, defaults)))
}

/// Whether `x` may be listed before `y`: default branches first, in the
/// order of the defaults; then the others, the most recently committed
/// first and those without a commit time last.
pub open spec fn listed_before(x: BranchView, y: BranchView, defaults: Seq<Seq<char>>) -> bool {
    match (rank_of(defaults, x.name), rank_of(defaults, y.name)) {
        (Some(a), Some(b)) => a <= b,
        (Some(_), None) => true,
        (None, Some(_)) => false,
        (None, None) => match (x.last_commit, y.last_commit) {
            (Some(a), Some(b)) => a >= b,
            (None, Some(_)) => false,
            _ => true,
        },
    }
}

proof fn lemma_rank_of_nonneg(d: Seq<Seq<char>>, name: Seq<char>)
    ensures
        rank_of(d, name) matches Some(i) ==> 0 <= i < d.len(),
    decreases d.len(),
{
    if d.len() > 0 {
        lemma_rank_of_nonneg(d.drop_first(), name);
    }
}

proof fn lemma_branch_key_order(x: BranchView, y: BranchView, d: Seq<Seq<char>>)
    requires
        key_order(branch_key(x, d), branch_key(y, d)) <= 0,
    ensures
        listed_before(x, y, d),
{
    lemma_rank_of_nonneg(d, x.name);
    lemma_rank_of_nonneg(d, y.name);
    let a = branch_key(x, d);
    let b = branch_key(y, d);
    lemma_key_order_unfold(a, b);
    let a1 = a.drop_first();
    let b1 = b.drop_first();
    lemma_key_order_unfold(a1, b1);
    let a2 = a1.drop_first();
    let b2 = b1.drop_first();
    lemma_key_order_unfold(a2, b2);
    let a3 = a2.drop_first();
    let b3 = b2.drop_first();
    lemma_key_order_unfold(a3, b3);
    match (rank_of(d, x.name), rank_of(d, y.name)) {
        (Some(_), Some(_)) => {
            assert(a1[0] == a[1]);
            assert(b1[0] == b[1]);
        },
        (None, None) => {
            assert(a1[0] == a[1] && a2[0] == a[2] && a3[0] == a[3]);
            assert(b1[0] == b[1] && b2[0] == b[2] && b3[0] == b[3]);
        },
        _ => {},
    }
}

/// The listing order puts default branches first, in the order of the
/// defaults, then the other branches, most recently committed first and
/// those without a commit time last; no branch is lost or added.
pub proof fn lemma_order_branches_listed(bs: Seq<BranchView>, d: Seq<Seq<char>>)
    ensures
        order_branches(bs, d).len() == bs.len(),
        forall|i: int, j: int|
            0 <= i < j < bs.len() ==> listed_before(
                #[trigger] order_branches(bs, d)[i],
                #[trigger] order_branches(bs, d)[j],
                d,
            ),
        order_branches(bs, d).to_multiset() == bs.to_multiset(),
{
    let k = keyed_branches(bs, d);
    let s = sort_keyed(k);
    lemma_sort_keyed_sorted(k);
    lemma_sort_keyed_from_input(k);
    assert forall|i: int| 0 <= i < s.len() implies #[trigger] s[i].0 == branch_key(s[i].1, d) by {
        assert(k.contains(s[i]));
    }
    assert forall|i: int, j: int|
        0 <= i < j < bs.len() implies listed_before(
        #[trigger] order_branches(bs, d)[i],
        #[trigger] order_branches(bs, d)[j],
        d,
    ) by {
        assert(key_order(s[i].0, s[j].0) <= 0);
        lemma_branch_key_order(s[i].1, s[j].1, d);
    }
    lemma_sort_keyed_items(k);
    assert(seconds(k) =~= bs);
}

/// The listing order is stable: each listed branch is the input branch at
/// its position in `sorted_positions(keyed_branches(bs, d))`, and branches
/// with equal sort keys keep their input order.
pub proof fn lemma_order_branches_stable(bs: Seq<BranchView>, d: Seq<Seq<char>>)
    ensures
        forall|i: int|
            0 <= i < bs.len() ==> 0 <= #[trigger] sorted_positions(keyed_branches(bs, d))[i]
                < bs.len() && order_branches(bs, d)[i] == bs[sorted_positions(
                keyed_branches(bs, d),
            )[i]],
        forall|i: int, j: int|
            0 <= i < j < bs.len() && branch_key(order_branches(bs, d)[i], d) == branch_key(
                order_branches(bs, d)[j],
                d,
            ) ==> sorted_positions(keyed_branches(bs, d))[i] < sorted_positions(
                keyed_branches(bs, d),
            )[j],
{
    let k = keyed_branches(bs, d);
    lemma_sort_keyed_stable(k);
    lemma_sort_keyed_sorted(k);
    let pos = sorted_positions(k);
    assert forall|i: int| 0 <= i < bs.len() implies 0 <= #[trigger] pos[i] < bs.len()
        && order_branches(bs, d)[i] == bs[pos[i]] by {
        assert(sort_keyed(k)[i] == k[pos[i]]);
    }
    assert forall|i: int, j: int|
        0 <= i < j < bs.len() && branch_key(order_branches(bs, d)[i], d) == branch_key(
            order_branches(bs, d)[j],
            d,
        ) implies pos[i] < pos[j] by {
        assert(sort_keyed(k)[i] == k[pos[i]]);
        assert(sort_keyed(k)[j] == k[pos[j]]);
    }
}

// ---------------------------------------------------------------------------

proof fn lemma_rank_of(d: Seq<Seq<char>>, name: Seq<char>, k: int)
    requires
        0 <= k <= d.len(),
        forall|i: int| 0 <= i < k ==> d[i] != name,
        k == d.len() || d[k] == name,
    ensures
        rank_of(d, name) == (if k < d.len() {
            Some(k)
        } else {
            None::<int>
        }),
    decreases d.len(),
{
    if d.len() > 0 && d[0] != name {
        lemma_rank_of(d.drop_first(), name, k - 1);
    }
}

/// Parses git's `upstream:track,nobracket` field: `""`, `"gone"`,
/// `"ahead 2"`, `"behind 1"` or `"ahead 2, behind 1"`.
pub fn parse_track(track: &str) -> (res: (usize, usize, bool))
    ensures
        res == track_info(track@),
{
    let t = chars_of(track);
    let gone = chars_of("gone");
    if find_sub_of(&t, &gone).is_some() {
        return (0, 0, true);
    }
    let toks = words_of(&t);
    let ghost tv = views(toks@);
    if toks.len() < 2 {
        return (0, 0, false);
    }
    let ahead_w = chars_of("ahead");
    let behind_w = chars_of("behind");
    let mut ahead: usize = 0;
    let mut behind: usize = 0;
    let mut k: usize = 1;
    while k < toks.len()
        invariant
            1 <= k <= toks.len(),
            tv == views(toks@),
            ahead_w@ == "ahead"@,
            behind_w@ == "behind"@,
            (ahead, behind) == track_pairs(tv, (k - 1) as nat),
        decreases toks.len() - k,
    {
        let w = &toks[k];
        let mut e = w.len();
        assert(w@.subrange(0, w@.len() as int) =~= w@);
        while e > 0 && w[e - 1] == ','
            invariant
                e <= w.len(),
                strip_trailing(w@, ',') == strip_trailing(w@.subrange(0, e as int), ','),
            decreases e,
        {
            assert(w@.subrange(0, e as int).drop_last() =~= w@.subrange(0, e - 1));
            e = e - 1;
        }
        let digits = slice(w, 0, e);
        proof {
            if e > 0 {
                assert(w@.subrange(0, e as int).last() == w@[e - 1]);
            }
            assert(w@.subrange(0, w@.len() as int) =~= w@);
        }
        let n: usize = match parse_unsigned_of(&digits, usize::MAX as u64) {
            Some(x) => x as usize,
            None => 0,
        };
        if same_chars(&toks[k - 1], &ahead_w) {
            ahead = n;
        } else if same_chars(&toks[k - 1], &behind_w) {
            behind = n;
        }
        k = k + 1;
    }
    (ahead, behind, false)
}

/// Parses one line of `git for-each-ref` output written with
/// [`branch_format`].
pub fn parse_branch(line: &str) -> (res: Option<Branch>)
    ensures
        match res {
            Some(b) => branch_of_line(line@) == Some(b@),
            None => branch_of_line(line@) is None,
        },
{
    let v = chars_of(line);
    let f = splitn_of(&v, '\t', 7);
    let ghost fv = views(f@);
    proof {
        lemma_splitn_nonempty(v@, '\t', 7);
    }
    let name = string_of(&f[0]);
    if f[0].len() == 0 {
        return None;
    }
    let date = field(&f, 1);
    let author = field(&f, 2);
    let upstream = field(&f, 3);
    let track = field(&f, 4);
    let head = field(&f, 5);
    let subject = field(&f, 6);
    let last_commit = parse_unsigned_of(&trim_chars(&date), u64::MAX);
    let (ahead, behind, gone) = parse_track(string_of(&track).as_str());
    let head_t = trim_chars(&head);
    let star = chars_of("*");
    let is_head = same_chars(&head_t, &star);
    Some(
        Branch {
            name,
            last_commit,
            author: string_of(&author),
            subject: string_of(&subject),
            upstream: if upstream.len() == 0 {
                None
            } else {
                Some(string_of(&upstream))
            },
            ahead,
            behind,
            gone,
            is_head,
        },
    )
}

proof fn lemma_splitn_nonempty(s: Seq<char>, sep: char, n: nat)
    requires
        n >= 1,
    ensures
        crate::split::splitn(s, sep, n).len() >= 1,
{
}

fn field(f: &Vec<Vec<char>>, i: usize) -> (res: Vec<char>)
    ensures
        res@ == piece(views(f@), i as int),
{
    if i < f.len() {
        slice(&f[i], 0, f[i].len())
    } else {
        Vec::new()
    }
}

/// The sort key of `b` (see [`branch_key`]).
pub fn branch_sort_key(b: &Branch, defaults: &Vec<String>) -> (res: SortKey)
    ensures
        res@ == branch_key(b@, text_views(defaults@)),
{
    let ghost dv = text_views(defaults@);
    let mut i: usize = 0;
    while i < defaults.len() && defaults[i] != b.name
        invariant
            i <= defaults.len(),
            dv == text_views(defaults@),
            forall|k: int| 0 <= k < i ==> dv[k] != b.name@,
        decreases defaults.len() - i,
    {
        i = i + 1;
    }
    proof {
        lemma_rank_of(dv, b.name@, i as int);
    }
    let mut parts: Vec<KeyPart> = Vec::new();
    if i < defaults.len() {
        parts.push(KeyPart::Num(0));
        parts.push(KeyPart::Num(i as u64));
        parts.push(KeyPart::Num(0));
        parts.push(KeyPart::Num(0));
        parts.push(KeyPart::Text(Vec::new()));
    } else {
        parts.push(KeyPart::Num(1));
        parts.push(KeyPart::Num(0));
        match b.last_commit {
            Some(t) => {
                parts.push(KeyPart::Num(0));
                parts.push(KeyPart::Num(u64::MAX - t));
            },
            None => {
                parts.push(KeyPart::Num(1));
                parts.push(KeyPart::Num(0));
            },
        }
        let lower = to_lowercase(b.name.as_str());
        parts.push(KeyPart::Text(chars_of(lower.as_str())));
    }
    let key = SortKey { parts };
    assert(key@ =~= branch_key(b@, dv));
    key
}

/// Puts branches in listing order: default branches first (in the order of
/// `defaults`), then the most recently committed.
pub fn sort_branches(bs: Vec<Branch>, defaults: &Vec<String>) -> (res: Vec<Branch>)
    ensures
        branch_views(res@) == order_branches(branch_views(bs@), text_views(defaults@)),
{
    let ghost dv = text_views(defaults@);
    let ghost orig = bs@;
    let mut rest = bs;
    let mut keyed: Vec<(SortKey, Branch)> = Vec::new();
    let ghost want = Seq::new(orig.len(), |i: int| (branch_key(orig[i]@, dv), orig[i]));
    while rest.len() > 0
        invariant
            rest.len() <= orig.len(),
            rest@ == orig.subrange(0, rest.len() as int),
            keyed_views(keyed@) == want.subrange(rest.len() as int, orig.len() as int),
            dv == text_views(defaults@),
            want == Seq::new(orig.len(), |i: int| (branch_key(orig[i]@, dv), orig[i])),
        decreases rest.len(),
    {
        let ghost before = rest@;
        let b = rest.pop().unwrap();
        assert(b == orig[rest.len() as int]);
        let k = branch_sort_key(&b, defaults);
        let ghost kb = keyed@;
        keyed.insert(0, (k, b));
        proof {
            assert(want[rest.len() as int] == (k@, b));
            assert(keyed@ =~= seq![(k, b)] + kb);
            assert(keyed_views(keyed@) =~= seq![(k@, b)] + keyed_views(kb));
            assert(keyed_views(keyed@) =~= want.subrange(rest.len() as int, orig.len() as int));
        }
    }
    assert(want.subrange(0, orig.len() as int) =~= want);
    let mut sorted = sort_keyed_vec(keyed);
    let ghost sv = keyed_views(sorted@);
    let mut out: Vec<Branch> = Vec::new();
    while sorted.len() > 0
        invariant
            sorted.len() <= sv.len(),
            keyed_views(sorted@) == sv.subrange(0, sorted.len() as int),
            out@ == seconds(sv).subrange(sorted.len() as int, sv.len() as int),
        decreases sorted.len(),
    {
        let ghost before = sorted@;
        let (kk, b) = sorted.pop().unwrap();
        proof {
            assert(keyed_views(sorted@) =~= keyed_views(before).drop_last());
            assert(keyed_views(before)[sorted.len() as int] == (kk@, b));
            assert(sv[sorted.len() as int] == (kk@, b));
            assert(seconds(sv)[sorted.len() as int] == b);
        }
        let ghost ob = out@;
        out.insert(0, b);
        proof {
            assert(out@ =~= seconds(sv).subrange(sorted.len() as int, sv.len() as int));
        }
    }
    proof {
        assert(seconds(sv).subrange(0, sv.len() as int) =~= seconds(sv));
        let f = branch_view_fn();
        assert(map_items(want, f) =~= keyed_branches(branch_views(orig), dv));
        lemma_sort_keyed_map_items(want, f);
        lemma_seconds_map_items(sort_keyed(want), f);
        assert(branch_views(out@) =~= seconds(sv).map_values(f));
    }
    out
}

/// The tab-separated `git for-each-ref` format that [`parse_branch`] reads
/// (tabs keep author names, which may hold spaces, in one field).
pub open spec fn branch_format() -> Seq<char> {
    "%(refname:short)%09%(committerdate:unix)%09%(authorname)%09%(upstream:short)%09%(upstream:track,nobracket)%09%(HEAD)%09%(contents:subject)"@
}

/// The arguments of the `git for-each-ref` call that lists local branches,
/// most recent commit first.
pub fn branches_args() -> (res: Vec<String>)
    ensures
        text_views(res@) == seq![
            "for-each-ref"@,
            "--sort=-committerdate"@,
            "--format"@,
            branch_format(),
            "refs/heads"@,
        ],
{
    let v = vec![
        owned("for-each-ref"),
        owned("--sort=-committerdate"),
        owned("--format"),
        owned(
            "%(refname:short)%09%(committerdate:unix)%09%(authorname)%09%(upstream:short)%09%(upstream:track,nobracket)%09%(HEAD)%09%(contents:subject)",
        ),
        owned("refs/heads"),
    ];
    assert(text_views(v@) =~= seq![
        "for-each-ref"@,
        "--sort=-committerdate"@,
        "--format"@,
        branch_format(),
        "refs/heads"@,
    ]);
    v
}

/// The branches described by `git for-each-ref` output, in listing order.
pub fn parse_branches(out: &str, defaults: &Vec<String>) -> (res: Vec<Branch>)
    ensures
        branch_views(res@) == order_branches(
            branches_of_lines(lines(out@)),
            text_views(defaults@),
        ),
{
    let ls = lines_of(&chars_of(out));
    let ghost lv = views(ls@);
    let mut bs: Vec<Branch> = Vec::new();
    let mut i: usize = 0;
    while i < ls.len()
        invariant
            i <= ls.len(),
            lv == views(ls@),
            branch_views(bs@) == branches_of_lines(lv.take(i as int)),
        decreases ls.len() - i,
    {
        let ghost t = lv.take(i as int + 1);
        assert(t.drop_last() =~= lv.take(i as int));
        let line = string_of(&ls[i]);
        match parse_branch(line.as_str()) {
            Some(b) => {
                bs.push(b);
                assert(branch_views(bs@) =~= branches_of_lines(t));
            },
            None => {},
        }
        i = i + 1;
    }
    assert(lv.take(ls@.len() as int) =~= lv);
    sort_branches(bs, defaults)
}

} // verus!
