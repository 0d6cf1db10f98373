//! Gathering project snapshots: ordering them, collecting them from a
//! stream of scan results, and spreading work over a pool of workers.
use vstd::prelude::*;
use crate::repo::{Project, ProjectView};
use crate::sorting::{
    key_order, keyed_views, lemma_key_order_unfold, lemma_seconds_map_items,
    lemma_sort_keyed_from_input, lemma_sort_keyed_items, lemma_sort_keyed_map_items,
    lemma_sort_keyed_sorted, lemma_sort_keyed_stable, map_items, seconds, sort_keyed, sort_keyed_vec,
    sorted_positions, text_order, KeyAtom,
    KeyPart, SortKey,
};
use crate::text::{chars_of, lowercase, to_lowercase};

verus! {

broadcast use vstd::seq::group_seq_axioms;

/// Streamed scan results.
pub enum ScanMsg {
    Found(Box<Project>),
    Done,
}

pub open spec fn project_view_fn() -> spec_fn(Project) -> ProjectView {
    |p: Project| p@
}

pub open spec fn project_views(s: Seq<Project>) -> Seq<ProjectView> {
    s.map_values(project_view_fn())
}

/// The dashboard order: most recently committed first, projects without a
/// commit time last, ties by lowercased name.
pub open spec fn project_key(p: ProjectView) -> Seq<KeyAtom> {
    seq![
        KeyAtom::Num(
            if p.last_commit is Some {
                0
            } else {
                1
            },
        ),
        KeyAtom::Num(
            match p.last_commit {
                Some(t) => (u64::MAX - t) as nat,
                None => 0,
            },
        ),
        KeyAtom::Text(lowercase(p.name)),
    ]
}

pub open spec fn keyed_projects(ps: Seq<ProjectView>) -> Seq<(Seq<KeyAtom>, ProjectView)> {
    Seq::new(ps.len(), |i: int| (project_key(ps[i]), ps[i]))
}

/// `ps` in dashboard order (a stable sort by [`project_key`]).
pub open spec fn order_projects(ps: Seq<ProjectView>) -> Seq<ProjectView> {
    seconds(sort_keyed(keyed_projects(ps)))
}

/// Whether `x` may be listed above `y` on the dashboard: the more recent
/// commit first, projects without a commit time last, and on equal times
/// the lowercased names in order.
pub open spec fn dashboard_before(x: ProjectView, y: ProjectView) -> bool {
    let by_name = text_order(lowercase(x.name), lowercase(y.name)) <= 0;
    match (x.last_commit, y.last_commit) {
        (Some(a), Some(b)) => a > b || (a == b && by_name),
        (Some(_), None) => true,
        (None, Some(_)) => false,
        (None, None) => by_name,
    }
}

proof fn lemma_project_key_order(x: ProjectView, y: ProjectView)
    requires
        key_order(project_key(x), project_key(y)) <= 0,
    ensures
        dashboard_before(x, y),
{
    let a = project_key(x);
    let b = project_key(y);
    lemma_key_order_unfold(a, b);
    let a1 = a.drop_first();
    let b1 = b.drop_first();
    lemma_key_order_unfold(a1, b1);
    let a2 = a1.drop_first();
    let b2 = b1.drop_first();
    lemma_key_order_unfold(a2, b2);
    assert(a1[0] == a[1] && a2[0] == a[2]);
    assert(b1[0] == b[1] && b2[0] == b[2]);
    assert(a2.drop_first().len() == 0 && b2.drop_first().len() == 0);
}

/// The dashboard lists the most recently committed projects first, those
/// without a commit time last, equal times by lowercased name; no project
/// is lost or added.
pub proof fn lemma_order_projects_listed(ps: Seq<ProjectView>)
    ensures
        order_projects(ps).len() == ps.len(),
        forall|i: int, j: int|
            0 <= i < j < ps.len() ==> dashboard_before(
                #[trigger] order_projects(ps)[i],
                #[trigger] order_projects(ps)[j],
            ),
        order_projects(ps).to_multiset() == ps.to_multiset(),
{
    let k = keyed_projects(ps);
    let s = sort_keyed(k);
    lemma_sort_keyed_sorted(k);
    lemma_sort_keyed_from_input(k);
    assert forall|i: int| 0 <= i < s.len() implies #[trigger] s[i].0 == project_key(s[i].1) by {
        assert(k.contains(s[i]));
    }
    assert forall|i: int, j: int|
        0 <= i < j < ps.len() implies dashboard_before(
        #[trigger] order_projects(ps)[i],
        #[trigger] order_projects(ps)[j],
    ) by {
        assert(key_order(s[i].0, s[j].0) <= 0);
        lemma_project_key_order(s[i].1, s[j].1);
    }
    lemma_sort_keyed_items(k);
    assert(seconds(k) =~= ps);
}

/// The dashboard order is stable: each listed project is the scanned
/// project at its position in `sorted_positions(keyed_projects(ps))`, and
/// projects with equal sort keys keep the order they were found in.
pub proof fn lemma_order_projects_stable(ps: Seq<ProjectView>)
    ensures
        forall|i: int|
            0 <= i < ps.len() ==> 0 <= #[trigger] sorted_positions(keyed_projects(ps))[i]
                < ps.len() && order_projects(ps)[i] == ps[sorted_positions(keyed_projects(ps))[i]],
        forall|i: int, j: int|
            0 <= i < j < ps.len() && project_key(order_projects(ps)[i]) == project_key(
                order_projects(ps)[j],
            ) ==> sorted_positions(keyed_projects(ps))[i] < sorted_positions(keyed_projects(ps))[j],
{
    let k = keyed_projects(ps);
    lemma_sort_keyed_stable(k);
    lemma_sort_keyed_sorted(k);
    let pos = sorted_positions(k);
    assert forall|i: int| 0 <= i < ps.len() implies 0 <= #[trigger] pos[i] < ps.len()
        && order_projects(ps)[i] == ps[pos[i]] by {
        assert(sort_keyed(k)[i] == k[pos[i]]);
    }
    assert forall|i: int, j: int|
        0 <= i < j < ps.len() && project_key(order_projects(ps)[i]) == project_key(
            order_projects(ps)[j],
        ) implies pos[i] < pos[j] by {
        assert(sort_keyed(k)[i] == k[pos[i]]);
        assert(sort_keyed(k)[j] == k[pos[j]]);
    }
}

/// The sort key of `p` (see [`project_key`]).
pub fn project_sort_key(p: &Project) -> (res: SortKey)
    ensures
        res@ == project_key(p@),
{
    let mut parts: Vec<KeyPart> = Vec::new();
    match p.last_commit {
        Some(t) => {
            parts.push(KeyPart::Num(0));
            parts.push(KeyPart::Num(u64::MAX - t));
        },
        None => {
            parts.push(KeyPart::Num(1));
            parts.push(KeyPart::Num(0));
        },
    }
    let lower = to_lowercase(p.name.as_str());
    parts.push(KeyPart::Text(chars_of(lower.as_str())));
    let key = SortKey { parts };
    assert(key@ =~= project_key(p@));
    key
}

/// Sorts most-recently-committed first; repos without a commit date go last,
/// ties broken by case-insensitive name.
pub fn sort_projects(projects: &mut Vec<Project>)
    ensures
        project_views(final(projects)@) == order_projects(project_views(old(projects)@)),
{
    let ghost orig = projects@;
    let mut rest = crate::sorting::take_all(projects);
    let mut keyed: Vec<(SortKey, Project)> = Vec::new();
    let ghost want = Seq::new(orig.len(), |i: int| (project_key(orig[i]@), orig[i]));
    while rest.len() > 0
        invariant
            rest.len() <= orig.len(),
            rest@ == orig.subrange(0, rest.len() as int),
            keyed_views(keyed@) == want.subrange(rest.len() as int, orig.len() as int),
            want == Seq::new(orig.len(), |i: int| (project_key(orig[i]@), orig[i])),
        decreases rest.len(),
    {
        let p = rest.pop().unwrap();
        assert(p == orig[rest.len() as int]);
        let k = project_sort_key(&p);
        let ghost kb = keyed@;
        keyed.insert(0, (k, p));
        proof {
            assert(want[rest.len() as int] == (k@, p));
            assert(keyed@ =~= seq![(k, p)] + kb);
            assert(keyed_views(keyed@) =~= seq![(k@, p)] + keyed_views(kb));
            assert(keyed_views(keyed@) =~= want.subrange(rest.len() as int, orig.len() as int));
        }
    }
    assert(want.subrange(0, orig.len() as int) =~= want);
    let mut sorted = sort_keyed_vec(keyed);
    let ghost sv = keyed_views(sorted@);
    while sorted.len() > 0
        invariant
            sorted.len() <= sv.len(),
            keyed_views(sorted@) == sv.subrange(0, sorted.len() as int),
            projects@ == seconds(sv).subrange(sorted.len() as int, sv.len() as int),
        decreases sorted.len(),
    {
        let ghost before = sorted@;
        let (kk, p) = sorted.pop().unwrap();
        proof {
            assert(keyed_views(sorted@) =~= keyed_views(before).drop_last());
            assert(keyed_views(before)[sorted.len() as int] == (kk@, p));
            assert(seconds(sv)[sorted.len() as int] == p);
        }
        projects.insert(0, p);
        proof {
            assert(projects@ =~= seconds(sv).subrange(sorted.len() as int, sv.len() as int));
        }
    }
    proof {
        assert(seconds(sv).subrange(0, sv.len() as int) =~= seconds(sv));
        let f = project_view_fn();
        assert(map_items(want, f) =~= keyed_projects(project_views(orig)));
        lemma_sort_keyed_map_items(want, f);
        lemma_seconds_map_items(sort_keyed(want), f);
        assert(project_views(projects@) =~= seconds(sv).map_values(f));
    }
}

/// The projects found before the first `Done` of a stream of scan results.
pub open spec fn found_before_done(ms: Seq<ScanMsg>) -> Seq<ProjectView>
    decreases ms.len(),
{
    if ms.len() == 0 {
        seq![]
    } else {
        match ms[0] {
            ScanMsg::Found(p) => seq![(*p)@] + found_before_done(ms.drop_first()),
            ScanMsg::Done => seq![],
        }
    }
}

/// The projects received from a scan, up to its `Done`, in dashboard
/// order.
pub fn collect_scan(msgs: Vec<ScanMsg>) -> (res: Vec<Project>)
    ensures
        project_views(res@) == order_projects(found_before_done(msgs@)),
{
    let ghost orig = msgs@;
    let mut rest = msgs;
    let mut projects: Vec<Project> = Vec::new();
    assert(orig.subrange(0, orig.len() as int) =~= orig);
    while rest.len() > 0
        invariant
            rest.len() <= orig.len(),
            orig == msgs@,
            rest@ == orig.subrange(orig.len() - rest.len(), orig.len() as int),
            found_before_done(orig) == project_views(projects@) + found_before_done(rest@),
        decreases rest.len(),
    {
        let ghost r = rest@;
        let m = rest.remove(0);
        assert(rest@ =~= r.drop_first());
        assert(rest@ =~= orig.subrange(orig.len() - rest.len(), orig.len() as int));
        match m {
            ScanMsg::Found(p) => {
                let ghost before = projects@;
                projects.push(*p);
                assert(project_views(projects@) =~= project_views(before).push((*p)@));
                assert(found_before_done(orig) =~= project_views(projects@) + found_before_done(
                    rest@,
                ));
            },
            ScanMsg::Done => {
                assert(r[0] is Done);
                assert(found_before_done(r) =~= Seq::<ProjectView>::empty());
                assert(found_before_done(orig) =~= project_views(projects@));
                let mut out = projects;
                sort_projects(&mut out);
                return out;
            },
        }
    }
    assert(found_before_done(orig) =~= project_views(projects@));
    let mut out = projects;
    sort_projects(&mut out);
    out
}

// ---------------------------------------------------------------------------
// Spreading work over workers
// ---------------------------------------------------------------------------

/// How many workers share `n` jobs when at most `max` may run: between 1
/// and `max`, and no more than there are jobs.
pub fn worker_count(n: usize, max: usize) -> (res: usize)
    requires
        max >= 1,
    ensures
        res == (if n < 1 {
            1
        } else if n > max {
            max
        } else {
            n
        }),
{
    if n < 1 {
        1
    } else if n > max {
        max
    } else {
        n
    }
}

/// The items of `s` at positions `k`, `k + w`, `k + 2w`, … in order.
pub open spec fn strided<T>(s: Seq<T>, w: nat, k: nat) -> Seq<T>
    decreases s.len(),
{
    if s.len() == 0 {
        seq![]
    } else if (s.len() - 1) % (w as int) == k {
        strided(s.drop_last(), w, k).push(s.last())
    } else {
        strided(s.drop_last(), w, k)
    }
}

/// The total length of the first `m` strides.
pub open spec fn strided_total<T>(s: Seq<T>, w: nat, m: nat) -> nat
    decreases m,
{
    if m == 0 {
        0
    } else {
        strided_total(s, w, (m - 1) as nat) + strided(s, w, (m - 1) as nat).len()
    }
}

proof fn lemma_strided_total_step<T>(s: Seq<T>, w: nat, m: nat)
    requires
        s.len() > 0,
        w > 0,
        m <= w,
    ensures
        strided_total(s, w, m) == strided_total(s.drop_last(), w, m) + if (s.len() - 1) % (
        w as int) < m {
            1nat
        } else {
            0nat
        },
    decreases m,
{
    if m > 0 {
        lemma_strided_total_step(s, w, (m - 1) as nat);
    }
}

/// Dealing loses and repeats nothing: the strides of all workers together
/// hold as many items as there are.
pub proof fn lemma_strides_cover<T>(s: Seq<T>, w: nat)
    requires
        w > 0,
    ensures
        strided_total(s, w, w) == s.len(),
    decreases s.len(),
{
    if s.len() > 0 {
        lemma_strides_cover(s.drop_last(), w);
        lemma_strided_total_step(s, w, w);
        assert(0 <= (s.len() - 1) % (w as int) < w);
    } else {
        lemma_strided_empty(s, w, w);
    }
}

proof fn lemma_strided_empty<T>(s: Seq<T>, w: nat, m: nat)
    requires
        s.len() == 0,
    ensures
        strided_total(s, w, m) == 0,
    decreases m,
{
    if m > 0 {
        lemma_strided_empty(s, w, (m - 1) as nat);
    }
}

/// Deals `items` out to `workers` workers in turn: worker `k` gets the
/// items at positions `k`, `k + workers`, … in their original order.
pub fn deal<T>(items: Vec<T>, workers: usize) -> (res: Vec<Vec<T>>)
    requires
        workers >= 1,
    ensures
        res@.len() == workers,
        forall|k: int| 0 <= k < workers ==> #[trigger] res@[k]@ == strided(items@, workers as nat, k as nat),
{
    let ghost orig = items@;
    let n = items.len();
    let mut chunks: Vec<Vec<T>> = Vec::new();
    let mut w: usize = 0;
    while w < workers
        invariant
            w <= workers,
            chunks@.len() == w,
            forall|k: int| 0 <= k < w ==> (#[trigger] chunks@[k])@.len() == 0,
        decreases workers - w,
    {
        chunks.push(Vec::new());
        w = w + 1;
    }
    let mut rest = items;
    let mut done: usize = 0;
    while rest.len() > 0
        invariant
            done + rest.len() == orig.len(),
            orig.len() == n,
            rest@ == orig.subrange(done as int, orig.len() as int),
            chunks@.len() == workers,
            workers >= 1,
            forall|k: int|
                0 <= k < workers ==> #[trigger] chunks@[k]@ == strided(
                    orig.take(done as int),
                    workers as nat,
                    k as nat,
                ),
        decreases rest.len(),
    {
        let item = rest.remove(0);
        let slot = done % workers;
        let ghost before = chunks@;
        chunks[slot].push(item);
        proof {
            let t = orig.take(done as int + 1);
            assert(t.drop_last() =~= orig.take(done as int));
            assert(t.last() == item);
            assert forall|k: int| 0 <= k < workers implies #[trigger] chunks@[k]@ == strided(
                t,
                workers as nat,
                k as nat,
            ) by {
                if k == slot {
                } else {
                    assert(chunks@[k] == before[k]);
                }
            }
            assert(rest@ =~= orig.subrange(done + 1, orig.len() as int));
        }
        done = done + 1;
    }
    assert(orig.take(orig.len() as int) =~= orig);
    chunks
}

} // verus!
