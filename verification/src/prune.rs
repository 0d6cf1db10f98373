//! Finding branches whose upstream is gone (deleted on the remote, so
//! merged) and deleting them.
//!
//! Collecting the candidates of one repository is a sequence of `git` calls
//! whose results decide what comes next; [`PruneScan`] holds where the scan
//! stands and [`PruneScan::advance`] takes each result.
use vstd::prelude::*;
use crate::branches::{branch_views, branches_args, branches_of_lines, order_branches, parse_branches, Branch, BranchView, branch_format};
use crate::gitio::{first_line, first_line_text, GitOutput};
use crate::numbers::{parse_unsigned, parse_unsigned_of};
use crate::split::{find_sub, find_sub_of, lines, lemma_find_sub_occurs, occurs_at};
use crate::text::{
    chars_of, find_char, lemma_find_char, owned, push_str, slice, string_of, text_views, trim,
    trim_chars,
};
use crate::update::{git_out, GitOut};

verus! {

broadcast use vstd::seq::group_seq_axioms;

/// A local branch whose upstream is gone (deleted on the remote ⇒ merged),
/// and therefore a candidate for deletion.
pub struct PruneCandidate {
    pub project: String,
    /// Where the repository lives.
    pub path: String,
    pub branch: String,
    pub last_commit: Option<u64>,
    /// Commits on this branch not reachable from the default branch. `0` means
    /// fully contained (a normal merge); `>0` is expected for squash-merges but
    /// also flags genuinely un-merged work worth a second look.
    pub unique_commits: usize,
}

pub struct CandidateView {
    pub project: Seq<char>,
    pub path: Seq<char>,
    pub branch: Seq<char>,
    pub last_commit: Option<u64>,
    pub unique_commits: usize,
}

impl View for PruneCandidate {
    type V = CandidateView;

    open spec fn view(&self) -> CandidateView {
        CandidateView {
            project: self.project@,
            path: self.path@,
            branch: self.branch@,
            last_commit: self.last_commit,
            unique_commits: self.unique_commits,
        }
    }
}

pub open spec fn candidate_views(s: Seq<PruneCandidate>) -> Seq<CandidateView> {
    s.map_values(|c: PruneCandidate| c@)
}

/// Candidates streamed while many repositories are scanned.
pub enum PruneScanMsg {
    Found(Box<PruneCandidate>),
    Done,
}

/// The outcome of deleting one branch.
pub struct DeleteResult {
    pub ok: bool,
    /// The tip SHA, so the branch is recoverable from the reflog.
    pub sha: Option<String>,
    pub message: String,
}

pub struct DeleteView {
    pub ok: bool,
    pub sha: Option<Seq<char>>,
    pub message: Seq<char>,
}

impl View for DeleteResult {
    type V = DeleteView;

    open spec fn view(&self) -> DeleteView {
        DeleteView {
            ok: self.ok,
            sha: match self.sha {
                Some(s) => Some(s@),
                None => None,
            },
            message: self.message@,
        }
    }
}

/// The tip SHA that `git branch -D` reports as `(was <sha>)`, trimmed.
pub open spec fn reported_sha(out: Seq<char>) -> Option<Seq<char>> {
    let p = "(was "@;
    match find_sub(out, p) {
        Some(i) => {
            let rest = out.skip(i + p.len());
            Some(trim(rest.take(find_char(rest, ')'))))
        },
        None => None,
    }
}

/// What deleting a branch reports, from the result of `git branch -D`: the
/// SHA it mentions, and the first line of its output (of its error output
/// when it failed).
pub open spec fn delete_report(o: GitOut) -> DeleteView {
    DeleteView {
        ok: o.ok,
        sha: reported_sha(o.stdout),
        message: first_line_text(
            if o.ok {
                o.stdout
            } else {
                o.stderr
            },
        ),
    }
}

/// The arguments that delete `branch` with `git branch -D`. Force is
/// required because squash-merged branches are not recognised as merged by
/// `-d`; the reflog keeps the tip recoverable.
pub fn delete_args(branch: &str) -> (res: Vec<String>)
    ensures
        text_views(res@) == seq!["branch"@, "-D"@, branch@],
{
    let v = vec![owned("branch"), owned("-D"), owned(branch)];
    assert(text_views(v@) =~= seq!["branch"@, "-D"@, branch@]);
    v
}

/// Reads the result of `git branch -D <branch>` (see [`delete_args`]),
/// surfacing the deleted tip's SHA.
pub fn delete_branch(out: &GitOutput) -> (res: DeleteResult)
    ensures
        res@ == delete_report(git_out(*out)),
{
    let o = chars_of(out.stdout.as_str());
    let p = chars_of("(was ");
    let sha = match find_sub_of(&o, &p) {
        Some(i) => {
            let ol = o.len();
            let pl = p.len();
            proof {
                lemma_find_sub_occurs(o@, p@);
                assert(occurs_at(o@, p@, i as int));
            }
            let rest = slice(&o, i + pl, ol);
            assert(rest@ =~= o@.skip(i + p@.len()));
            let mut j: usize = 0;
            while j < rest.len() && rest[j] != ')'
                invariant
                    j <= rest.len(),
                    forall|k: int| 0 <= k < j ==> rest@[k] != ')',
                decreases rest.len() - j,
            {
                j = j + 1;
            }
            proof {
                lemma_find_char(rest@, ')', j as int);
            }
            let head = slice(&rest, 0, j);
            assert(head@ =~= rest@.take(j as int));
            Some(string_of(&trim_chars(&head)))
        },
        None => None,
    };
    let message = if out.ok {
        first_line(out.stdout.as_str())
    } else {
        first_line(out.stderr.as_str())
    };
    DeleteResult { ok: out.ok, sha, message }
}

// ---------------------------------------------------------------------------
// Collecting the candidates of one repository
// ---------------------------------------------------------------------------

/// The branches that may be pruned: upstream gone, not checked out, and not
/// the default branch.
pub open spec fn prunable(bs: Seq<BranchView>, default: Option<Seq<char>>) -> Seq<BranchView>
    decreases bs.len(),
{
    if bs.len() == 0 {
        seq![]
    } else {
        let rest = prunable(bs.drop_last(), default);
        let b = bs.last();
        if b.gone && !b.is_head && default != Some(b.name) {
            rest.push(b)
        } else {
            rest
        }
    }
}

/// `git rev-list --count <default>..<branch>`: commits on the branch that
/// the default branch lacks.
pub open spec fn count_args(default: Seq<char>, branch: Seq<char>) -> Seq<Seq<char>> {
    seq!["rev-list"@, "--count"@, default + ".."@ + branch]
}

/// The count read from `git rev-list --count` (0 when it failed or said
/// something else).
pub open spec fn count_of(o: GitOut) -> usize {
    if o.ok {
        match parse_unsigned(trim(o.stdout), usize::MAX as nat) {
            Some(n) => n as usize,
            None => 0,
        }
    } else {
        0
    }
}

/// Where a scan stands, waiting for the result of the call it asked for.
pub enum ScanPhase {
    /// `git fetch --all --prune`, so that `gone` is accurate (its failure is
    /// ignored: offline, the known refs are used).
    Fetching,
    /// Does the default branch candidate at `index` exist locally?
    Probing { index: usize },
    /// Listing local branches.
    Listing { known_default: Option<String> },
    /// Counting the unique commits of `gone[found.len()]`.
    Counting { default: String, gone: Vec<Branch>, found: Vec<PruneCandidate> },
    /// Nothing is waiting; the scan has ended.
    Finished,
}

pub enum ScanPhaseView {
    Fetching,
    Probing { index: int },
    Listing { known_default: Option<Seq<char>> },
    Counting { default: Seq<char>, gone: Seq<BranchView>, found: Seq<CandidateView> },
    Finished,
}

impl View for ScanPhase {
    type V = ScanPhaseView;

    open spec fn view(&self) -> ScanPhaseView {
        match self {
            ScanPhase::Fetching => ScanPhaseView::Fetching,
            ScanPhase::Probing { index } => ScanPhaseView::Probing { index: *index as int },
            ScanPhase::Listing { known_default } => ScanPhaseView::Listing {
                known_default: match known_default {
                    Some(d) => Some(d@),
                    None => None,
                },
            },
            ScanPhase::Counting { default, gone, found } => ScanPhaseView::Counting {
                default: default@,
                gone: branch_views(gone@),
                found: candidate_views(found@),
            },
            ScanPhase::Finished => ScanPhaseView::Finished,
        }
    }
}

/// What the scan does next: run `git` with these arguments, or stop with
/// these candidates.
pub enum ScanStep {
    Run(Vec<String>),
    Finish(Vec<PruneCandidate>),
}

pub enum ScanStepView {
    Run(Seq<Seq<char>>),
    Finish(Seq<CandidateView>),
}

impl View for ScanStep {
    type V = ScanStepView;

    open spec fn view(&self) -> ScanStepView {
        match self {
            ScanStep::Run(a) => ScanStepView::Run(text_views(a@)),
            ScanStep::Finish(c) => ScanStepView::Finish(candidate_views(c@)),
        }
    }
}

/// One repository's prune scan in progress.
pub struct PruneScan {
    /// The project's name, reported in each candidate.
    pub name: String,
    /// Where the repository lives.
    pub path: String,
    /// Branch names that count as the default branch, in priority order.
    pub defaults: Vec<String>,
    pub phase: ScanPhase,
}

pub open spec fn probe_args(branch: Seq<char>) -> Seq<Seq<char>> {
    seq!["rev-parse"@, "--verify"@, "--quiet"@, "refs/heads/"@ + branch]
}

pub open spec fn list_args() -> Seq<Seq<char>> {
    seq!["for-each-ref"@, "--sort=-committerdate"@, "--format"@, branch_format(), "refs/heads"@]
}

/// The candidate for branch `b` of project `name` at `path`.
pub open spec fn candidate_for(
    name: Seq<char>,
    path: Seq<char>,
    b: BranchView,
    unique: usize,
) -> CandidateView {
    CandidateView {
        project: name,
        path,
        branch: b.name,
        last_commit: b.last_commit,
        unique_commits: unique,
    }
}

/// Candidates for `gone[k..]` with no default branch to count against.
pub open spec fn uncounted(name: Seq<char>, path: Seq<char>, gone: Seq<BranchView>) -> Seq<
    CandidateView,
> {
    Seq::new(gone.len(), |i: int| candidate_for(name, path, gone[i], 0))
}

/// Count the next gone branch, or finish when all are counted.
pub open spec fn count_next(
    name: Seq<char>,
    path: Seq<char>,
    default: Seq<char>,
    gone: Seq<BranchView>,
    found: Seq<CandidateView>,
) -> (ScanPhaseView, ScanStepView) {
    if found.len() < gone.len() {
        (
            ScanPhaseView::Counting { default, gone, found },
            ScanStepView::Run(count_args(default, gone[found.len() as int].name)),
        )
    } else {
        (ScanPhaseView::Finished, ScanStepView::Finish(found))
    }
}

/// After the default branch is known (or known missing): list branches.
pub open spec fn to_listing(default: Option<Seq<char>>) -> (ScanPhaseView, ScanStepView) {
    (ScanPhaseView::Listing { known_default: default }, ScanStepView::Run(list_args()))
}

pub open spec fn scan_probe_from(defaults: Seq<Seq<char>>, i: int) -> (ScanPhaseView, ScanStepView) {
    if 0 <= i < defaults.len() {
        (ScanPhaseView::Probing { index: i }, ScanStepView::Run(probe_args(defaults[i])))
    } else {
        to_listing(None)
    }
}

/// The next phase and step of a scan of project `name` at `path` in phase
/// `p` whose last call returned `o`.
pub open spec fn scan_next(
    name: Seq<char>,
    path: Seq<char>,
    defaults: Seq<Seq<char>>,
    p: ScanPhaseView,
    o: GitOut,
) -> (ScanPhaseView, ScanStepView) {
    match p {
        ScanPhaseView::Fetching => scan_probe_from(defaults, 0),
        ScanPhaseView::Probing { index } => if o.ok {
            to_listing(Some(defaults[index]))
        } else {
            scan_probe_from(defaults, index + 1)
        },
        ScanPhaseView::Listing { known_default } => {
            let default = known_default;
            let bs = if o.ok {
                order_branches(branches_of_lines(lines(o.stdout)), defaults)
            } else {
                seq![]
            };
            let gone = prunable(bs, default);
            match default {
                Some(d) => count_next(name, path, d, gone, seq![]),
                None => (ScanPhaseView::Finished, ScanStepView::Finish(uncounted(name, path, gone))),
            }
        },
        ScanPhaseView::Counting { default, gone, found } => count_next(
            name,
            path,
            default,
            gone,
            found.push(candidate_for(name, path, gone[found.len() as int], count_of(o))),
        ),
        ScanPhaseView::Finished => (ScanPhaseView::Finished, ScanStepView::Run(seq![])),
    }
}

/// A phase that belongs to a scan with these defaults.
pub open spec fn scan_phase_fits(defaults: Seq<Seq<char>>, p: ScanPhaseView) -> bool {
    match p {
        ScanPhaseView::Probing { index } => 0 <= index < defaults.len(),
        ScanPhaseView::Counting { default, gone, found } => found.len() < gone.len(),
        _ => true,
    }
}

// ---------------------------------------------------------------------------
// Laws of the prune scan
// ---------------------------------------------------------------------------

/// A branch may be pruned: its upstream is gone, it is not checked out, and
/// it is not the default branch.
pub open spec fn may_prune(b: BranchView, default: Option<Seq<char>>) -> bool {
    b.gone && !b.is_head && default != Some(b.name)
}

/// [`prunable`] keeps, in order, exactly the branches that may be pruned.
pub proof fn lemma_prunable(bs: Seq<BranchView>, default: Option<Seq<char>>)
    ensures
        forall|i: int|
            0 <= i < prunable(bs, default).len() ==> may_prune(
                #[trigger] prunable(bs, default)[i],
                default,
            ) && bs.contains(prunable(bs, default)[i]),
        forall|b: BranchView| bs.contains(b) && may_prune(b, default) ==> #[trigger] prunable(
            bs,
            default,
        ).contains(b),
        prunable(bs, default).len() <= bs.len(),
    decreases bs.len(),
{
    if bs.len() > 0 {
        let init = bs.drop_last();
        lemma_prunable(init, default);
        let r = prunable(init, default);
        assert forall|i: int| 0 <= i < prunable(bs, default).len() implies may_prune(
            #[trigger] prunable(bs, default)[i],
            default,
        ) && bs.contains(prunable(bs, default)[i]) by {
            if i < r.len() {
                assert(prunable(bs, default)[i] == r[i]);
                let j = choose|j: int| 0 <= j < init.len() && init[j] == r[i];
                assert(bs[j] == init[j]);
            } else {
                assert(bs[bs.len() - 1] == bs.last());
            }
        }
        assert forall|b: BranchView| bs.contains(b) && may_prune(b, default) implies #[trigger] prunable(
            bs,
            default,
        ).contains(b) by {
            let j = choose|j: int| 0 <= j < bs.len() && bs[j] == b;
            if j < bs.len() - 1 {
                assert(init[j] == b);
                assert(r.contains(b));
                let k = choose|k: int| 0 <= k < r.len() && r[k] == b;
                assert(prunable(bs, default)[k] == b);
            } else {
                assert(prunable(bs, default).last() == b);
                assert(prunable(bs, default)[prunable(bs, default).len() - 1] == b);
            }
        }
    }
}

/// The default branch a scan in phase `p` prunes against.
pub open spec fn scan_default(p: ScanPhaseView) -> Option<Seq<char>> {
    match p {
        ScanPhaseView::Listing { known_default } => known_default,
        ScanPhaseView::Counting { default, .. } => Some(default),
        _ => None,
    }
}

/// What a scan in progress has gathered is sound: the branches it still
/// counts may all be pruned, and each candidate found so far names the
/// branch at its position.
pub open spec fn scan_inv(p: ScanPhaseView) -> bool {
    match p {
        ScanPhaseView::Counting { default, gone, found } => {
            &&& forall|i: int| 0 <= i < gone.len() ==> may_prune(#[trigger] gone[i], Some(default))
            &&& found.len() <= gone.len()
            &&& forall|i: int| 0 <= i < found.len() ==> #[trigger] found[i].branch == gone[i].name
        },
        _ => true,
    }
}

/// A scan only ever proposes branches that may be pruned: every candidate
/// it ends with names a branch whose upstream is gone, that is not checked
/// out, and that is not the default branch it found.
pub proof fn lemma_scan_only_prunable(
    name: Seq<char>,
    path: Seq<char>,
    defaults: Seq<Seq<char>>,
    p: ScanPhaseView,
    o: GitOut,
)
    requires
        scan_inv(p),
        scan_phase_fits(defaults, p),
        !(p is Finished),
    ensures
        scan_inv(scan_next(name, path, defaults, p, o).0),
        scan_next(name, path, defaults, p, o).1 matches ScanStepView::Finish(c) ==> forall|i: int|
            0 <= i < c.len() ==> exists|b: BranchView|
                may_prune(b, scan_default(p)) && #[trigger] c[i].branch == b.name,
{
    match p {
        ScanPhaseView::Listing { known_default } => {
            let bs = if o.ok {
                order_branches(branches_of_lines(lines(o.stdout)), defaults)
            } else {
                seq![]
            };
            lemma_prunable(bs, known_default);
            let gone = prunable(bs, known_default);
            match known_default {
                Some(d) => {},
                None => {
                    let c = uncounted(name, path, gone);
                    assert forall|i: int| 0 <= i < c.len() implies exists|b: BranchView|
                        may_prune(b, scan_default(p)) && #[trigger] c[i].branch == b.name by {
                        assert(may_prune(gone[i], None));
                    }
                },
            }
        },
        ScanPhaseView::Counting { default, gone, found } => {
            let f2 = found.push(candidate_for(name, path, gone[found.len() as int], count_of(o)));
            assert forall|i: int| 0 <= i < f2.len() implies #[trigger] f2[i].branch == gone[i].name by {
                if i < found.len() {
                    assert(f2[i] == found[i]);
                }
            }
            if f2.len() >= gone.len() {
                assert forall|i: int| 0 <= i < f2.len() implies exists|b: BranchView|
                    may_prune(b, scan_default(p)) && #[trigger] f2[i].branch == b.name by {
                    assert(may_prune(gone[i], Some(default)));
                }
            }
        },
        _ => {},
    }
}

/// The phases and requests of a scan of `name` at `path` that starts in
/// phase `p` and is handed the answers `outs`, one per request, in order:
/// entry `k` is what the scan does with answer `k`.
pub open spec fn scan_run(
    name: Seq<char>,
    path: Seq<char>,
    defaults: Seq<Seq<char>>,
    p: ScanPhaseView,
    outs: Seq<GitOut>,
) -> Seq<(ScanPhaseView, ScanStepView)>
    decreases outs.len(),
{
    if outs.len() == 0 {
        seq![]
    } else {
        let prev = scan_run(name, path, defaults, p, outs.drop_last());
        let cur = if prev.len() == 0 {
            p
        } else {
            prev.last().0
        };
        prev.push(scan_next(name, path, defaults, cur, outs.last()))
    }
}

/// The requests `rev-list --count` that a step asks for.
pub open spec fn is_count_request(st: ScanStepView) -> bool {
    st is Run && st->Run_0.len() == 3 && st->Run_0[0] == "rev-list"@ && st->Run_0[1]
        == "--count"@
}

/// The request `rev-parse --verify --quiet refs/heads/x` answered with success.
pub open spec fn confirmed_probe(
    r: Seq<(ScanPhaseView, ScanStepView)>,
    outs: Seq<GitOut>,
    j: int,
    x: Seq<char>,
) -> bool {
    r[j].1 == ScanStepView::Run(probe_args(x)) && outs[j + 1].ok
}

proof fn lemma_scan_step_facts(
    name: Seq<char>,
    path: Seq<char>,
    defaults: Seq<Seq<char>>,
    q: ScanPhaseView,
    o: GitOut,
)
    ensures
        scan_next(name, path, defaults, q, o).0 is Probing ==> scan_next(name, path, defaults, q, o).1
            == ScanStepView::Run(probe_args(defaults[scan_next(name, path, defaults, q, o).0->index])),
        scan_default(scan_next(name, path, defaults, q, o).0) is Some ==> ((q is Probing && o.ok
            && scan_default(scan_next(name, path, defaults, q, o).0)->0 == defaults[q->index])
            || scan_default(q) == scan_default(scan_next(name, path, defaults, q, o).0)),
        is_count_request(scan_next(name, path, defaults, q, o).1) ==> (scan_default(q) is Some
            && exists|b: Seq<char>|
            scan_next(name, path, defaults, q, o).1->Run_0 == count_args(scan_default(q)->0, b)),
{
    reveal_strlit("rev-list");
    reveal_strlit("rev-parse");
    reveal_strlit("for-each-ref");
    assert("rev-parse"@[4] != "rev-list"@[4]);
    assert("for-each-ref"@[0] != "rev-list"@[0]);
    let st = scan_next(name, path, defaults, q, o).1;
    match q {
        ScanPhaseView::Listing { known_default } => {
            if let Some(d) = known_default {
                let bs = if o.ok {
                    order_branches(branches_of_lines(lines(o.stdout)), defaults)
                } else {
                    seq![]
                };
                let gone = prunable(bs, known_default);
                if gone.len() > 0 {
                    assert(st == ScanStepView::Run(count_args(d, gone[0].name)));
                    assert(st->Run_0 == count_args(scan_default(q)->0, gone[0].name));
                }
            }
        },
        ScanPhaseView::Counting { default, gone, found } => {
            let f2 = found.push(candidate_for(name, path, gone[found.len() as int], count_of(o)));
            if f2.len() < gone.len() {
                assert(st == ScanStepView::Run(count_args(default, gone[f2.len() as int].name)));
                assert(st->Run_0 == count_args(scan_default(q)->0, gone[f2.len() as int].name));
            }
        },
        _ => {},
    }
}

proof fn lemma_scan_run_facts(
    name: Seq<char>,
    path: Seq<char>,
    defaults: Seq<Seq<char>>,
    outs: Seq<GitOut>,
)
    ensures
        scan_run(name, path, defaults, ScanPhaseView::Fetching, outs).len() == outs.len(),
        forall|k: int|
            0 <= k < outs.len() && (#[trigger] scan_run(
                name,
                path,
                defaults,
                ScanPhaseView::Fetching,
                outs,
            )[k]).0 is Probing ==> scan_run(name, path, defaults, ScanPhaseView::Fetching, outs)[k].1
                == ScanStepView::Run(
                probe_args(
                    defaults[scan_run(name, path, defaults, ScanPhaseView::Fetching, outs)[k].0->index],
                ),
            ),
        forall|k: int|
            0 <= k < outs.len() && scan_default(
                (#[trigger] scan_run(name, path, defaults, ScanPhaseView::Fetching, outs)[k]).0,
            ) is Some ==> exists|j: int|
                0 <= j < k && confirmed_probe(
                    scan_run(name, path, defaults, ScanPhaseView::Fetching, outs),
                    outs,
                    j,
                    scan_default(scan_run(name, path, defaults, ScanPhaseView::Fetching, outs)[k].0)->0,
                ),
        forall|k: int|
            0 <= k < outs.len() && is_count_request(
                (#[trigger] scan_run(name, path, defaults, ScanPhaseView::Fetching, outs)[k]).1,
            ) ==> exists|j: int, x: Seq<char>, b: Seq<char>|
                0 <= j < k && confirmed_probe(
                    scan_run(name, path, defaults, ScanPhaseView::Fetching, outs),
                    outs,
                    j,
                    x,
                ) && scan_run(name, path, defaults, ScanPhaseView::Fetching, outs)[k].1->Run_0
                    == count_args(x, b),
    decreases outs.len(),
{
    let r = scan_run(name, path, defaults, ScanPhaseView::Fetching, outs);
    if outs.len() > 0 {
        let init = outs.drop_last();
        lemma_scan_run_facts(name, path, defaults, init);
        let r0 = scan_run(name, path, defaults, ScanPhaseView::Fetching, init);
        let n = outs.len() - 1;
        let cur = if r0.len() == 0 {
            ScanPhaseView::Fetching
        } else {
            r0.last().0
        };
        lemma_scan_step_facts(name, path, defaults, cur, outs.last());
        assert(r == r0.push(scan_next(name, path, defaults, cur, outs.last())));
        assert forall|k: int| 0 <= k < n implies #[trigger] r[k] == r0[k] by {}
        assert forall|j: int, x: Seq<char>|
            0 <= j < n - 1 && #[trigger] confirmed_probe(r0, init, j, x) implies confirmed_probe(
            r,
            outs,
            j,
            x,
        ) by {
            assert(r[j] == r0[j]);
            assert(outs[j + 1] == init[j + 1]);
        }
        if n > 0 {
            assert(cur == r0[n - 1].0);
        }
        assert forall|k: int| 0 <= k < outs.len() && scan_default((#[trigger] r[k]).0) is Some implies exists|j: int|
            0 <= j < k && confirmed_probe(r, outs, j, scan_default(r[k].0)->0) by {
            let x = scan_default(r[k].0)->0;
            if k < n {
                assert(r0[k] == r[k]);
                let j = choose|j: int| 0 <= j < k && confirmed_probe(r0, init, j, x);
                assert(confirmed_probe(r, outs, j, x));
            } else if cur is Probing && outs.last().ok && x == defaults[cur->index] {
                assert(n > 0);
                assert(r[n - 1] == r0[n - 1]);
                assert(outs[n] == outs.last());
                assert(confirmed_probe(r, outs, n - 1, x));
            } else {
                assert(n > 0);
                assert(scan_default(r0[n - 1].0) == Some(x));
                let j = choose|j: int| 0 <= j < n - 1 && confirmed_probe(r0, init, j, x);
                assert(confirmed_probe(r, outs, j, x));
            }
        }
        assert forall|k: int| 0 <= k < outs.len() && is_count_request((#[trigger] r[k]).1) implies exists|
            j: int,
            x: Seq<char>,
            b: Seq<char>,
        | 0 <= j < k && confirmed_probe(r, outs, j, x) && r[k].1->Run_0 == count_args(x, b) by {
            if k < n {
                assert(r0[k] == r[k]);
                let (j, x, b) = choose|j: int, x: Seq<char>, b: Seq<char>|
                    0 <= j < k && confirmed_probe(r0, init, j, x) && r0[k].1->Run_0 == count_args(x, b);
                assert(confirmed_probe(r, outs, j, x));
            } else {
                let x = scan_default(cur)->0;
                let b = choose|b: Seq<char>| r[k].1->Run_0 == count_args(x, b);
                assert(n > 0);
                assert(scan_default(r0[n - 1].0) == Some(x));
                let j = choose|j: int| 0 <= j < n - 1 && confirmed_probe(r0, init, j, x);
                assert(confirmed_probe(r, outs, j, x));
            }
        }
    }
}

/// A scan counts a branch's commits (`git rev-list --count X..b`) only
/// against a default branch `X` whose existence git has confirmed: an
/// earlier request `git rev-parse --verify --quiet refs/heads/X` was
/// answered with success. So with `[main, master]` as defaults on a
/// repository that only has `master`, branches are counted against
/// `master`.
pub proof fn lemma_counts_against_confirmed_default(
    name: Seq<char>,
    path: Seq<char>,
    defaults: Seq<Seq<char>>,
    outs: Seq<GitOut>,
)
    ensures
        forall|k: int|
            0 <= k < outs.len() && is_count_request(
                (#[trigger] scan_run(name, path, defaults, ScanPhaseView::Fetching, outs)[k]).1,
            ) ==> exists|j: int, x: Seq<char>, b: Seq<char>|
                0 <= j < k && scan_run(name, path, defaults, ScanPhaseView::Fetching, outs)[j].1
                    == ScanStepView::Run(probe_args(x)) && outs[j + 1].ok && scan_run(
                    name,
                    path,
                    defaults,
                    ScanPhaseView::Fetching,
                    outs,
                )[k].1->Run_0 == count_args(x, b),
{
    lemma_scan_run_facts(name, path, defaults, outs);
}

// ---------------------------------------------------------------------------

fn copy_branch(b: &Branch) -> (res: Branch)
    ensures
        res@ == b@,
{
    Branch {
        name: b.name.clone(),
        last_commit: b.last_commit,
        author: b.author.clone(),
        subject: b.subject.clone(),
        upstream: match &b.upstream {
            Some(u) => Some(u.clone()),
            None => None,
        },
        ahead: b.ahead,
        behind: b.behind,
        gone: b.gone,
        is_head: b.is_head,
    }
}

/// The branches of `bs` that may be pruned (see [`prunable`]).
pub fn prunable_branches(bs: &Vec<Branch>, default: &Option<String>) -> (res: Vec<Branch>)
    ensures
        branch_views(res@) == prunable(
            branch_views(bs@),
            match default {
                Some(d) => Some(d@),
                None => None,
            },
        ),
{
    let ghost dv: Option<Seq<char>> = match default {
        Some(d) => Some(d@),
        None => None,
    };
    let ghost all = branch_views(bs@);
    let mut out: Vec<Branch> = Vec::new();
    let mut i: usize = 0;
    while i < bs.len()
        invariant
            i <= bs.len(),
            all == branch_views(bs@),
            dv == (match default {
                Some(d) => Some(d@),
                None => None::<Seq<char>>,
            }),
            branch_views(out@) == prunable(all.take(i as int), dv),
        decreases bs.len() - i,
    {
        let b = &bs[i];
        let ghost t = all.take(i as int + 1);
        assert(t.drop_last() =~= all.take(i as int));
        assert(t.last() == b@);
        let is_default = match default {
            Some(d) => *d == b.name,
            None => false,
        };
        if b.gone && !b.is_head && !is_default {
            let c = copy_branch(b);
            out.push(c);
            assert(branch_views(out@) =~= prunable(t, dv));
        } else {
            assert(branch_views(out@) =~= prunable(t, dv));
        }
        i = i + 1;
    }
    assert(all.take(bs@.len() as int) =~= all);
    out
}

fn candidate_of(name: &String, path: &String, b: &Branch, unique: usize) -> (res: PruneCandidate)
    ensures
        res@ == candidate_for(name@, path@, b@, unique),
{
    PruneCandidate {
        project: name.clone(),
        path: path.clone(),
        branch: b.name.clone(),
        last_commit: b.last_commit,
        unique_commits: unique,
    }
}

fn scan_probe_from_exec(defaults: &Vec<String>, i: usize) -> (res: (ScanPhase, ScanStep))
    ensures
        (res.0@, res.1@) == scan_probe_from(text_views(defaults@), i as int),
{
    if i < defaults.len() {
        let mut target = chars_of("refs/heads/");
        push_str(&mut target, defaults[i].as_str());
        let args = vec![owned("rev-parse"), owned("--verify"), owned("--quiet"), string_of(&target)];
        assert(text_views(args@) =~= probe_args(text_views(defaults@)[i as int]));
        (ScanPhase::Probing { index: i }, ScanStep::Run(args))
    } else {
        to_listing_exec(None)
    }
}

fn to_listing_exec(default: Option<String>) -> (res: (ScanPhase, ScanStep))
    ensures
        (res.0@, res.1@) == to_listing(
            match default {
                Some(d) => Some(d@),
                None => None,
            },
        ),
{
    let args = branches_args();
    (ScanPhase::Listing { known_default: default }, ScanStep::Run(args))
}

fn count_next_exec(
    name: &String,
    path: &String,
    default: String,
    gone: Vec<Branch>,
    found: Vec<PruneCandidate>,
) -> (res: (ScanPhase, ScanStep))
    ensures
        (res.0@, res.1@) == count_next(
            name@,
            path@,
            default@,
            branch_views(gone@),
            candidate_views(found@),
        ),
{
    if found.len() < gone.len() {
        let mut range = chars_of(default.as_str());
        push_str(&mut range, "..");
        push_str(&mut range, gone[found.len()].name.as_str());
        let args = vec![owned("rev-list"), owned("--count"), string_of(&range)];
        assert(text_views(args@) =~= count_args(
            default@,
            branch_views(gone@)[found@.len() as int].name,
        ));
        (ScanPhase::Counting { default, gone, found }, ScanStep::Run(args))
    } else {
        (ScanPhase::Finished, ScanStep::Finish(found))
    }
}

fn uncounted_exec(name: &String, path: &String, gone: &Vec<Branch>) -> (res: Vec<PruneCandidate>)
    ensures
        candidate_views(res@) == uncounted(name@, path@, branch_views(gone@)),
{
    let mut out: Vec<PruneCandidate> = Vec::new();
    let mut i: usize = 0;
    while i < gone.len()
        invariant
            i <= gone.len(),
            candidate_views(out@) == uncounted(name@, path@, branch_views(gone@)).take(i as int),
        decreases gone.len() - i,
    {
        let c = candidate_of(name, path, &gone[i], 0);
        let ghost before = out@;
        out.push(c);
        assert(candidate_views(out@) =~= candidate_views(before).push(c@));
        assert(branch_views(gone@)[i as int] == gone@[i as int]@);
        i = i + 1;
        assert(candidate_views(out@) =~= uncounted(name@, path@, branch_views(gone@)).take(
            i as int,
        ));
    }
    assert(uncounted(name@, path@, branch_views(gone@)).take(i as int) =~= uncounted(
        name@,
        path@,
        branch_views(gone@),
    ));
    out
}

fn count_from(o: &GitOutput) -> (res: usize)
    ensures
        res == count_of(git_out(*o)),
{
    if o.ok {
        match parse_unsigned_of(&trim_chars(&chars_of(o.stdout.as_str())), usize::MAX as u64) {
            Some(n) => n as usize,
            None => 0,
        }
    } else {
        0
    }
}

impl PruneScan {
    /// The scan is waiting for the result of a call it asked for.
    pub open spec fn ready(&self) -> bool {
        !(self.phase@ is Finished) && scan_phase_fits(text_views(self.defaults@), self.phase@)
    }

    /// Whether the scan is waiting for a call's result (see
    /// [`PruneScan::ready`]); after [`PruneScan::begin`] or a step that asks
    /// for a call it always is.
    pub fn can_advance(&self) -> (res: bool)
        ensures
            res == self.ready(),
    {
        match &self.phase {
            ScanPhase::Finished => false,
            ScanPhase::Probing { index } => *index < self.defaults.len(),
            ScanPhase::Counting { gone, found, .. } => found.len() < gone.len(),
            _ => true,
        }
    }

    /// Starts scanning the repository called `name` at `path`: the first call
    /// refreshes remotes so that `gone` is accurate.
    pub fn begin(name: String, path: String, defaults: Vec<String>) -> (res: (PruneScan, ScanStep))
        ensures
            res.0.name@ == name@,
            res.0.path@ == path@,
            res.0.defaults@ == defaults@,
            res.0.phase@ == ScanPhaseView::Fetching,
            res.1@ == ScanStepView::Run(seq!["fetch"@, "--all"@, "--prune"@]),
            res.0.ready(),
    {
        let args = vec![owned("fetch"), owned("--all"), owned("--prune")];
        assert(text_views(args@) =~= seq!["fetch"@, "--all"@, "--prune"@]);
        (PruneScan { name, path, defaults, phase: ScanPhase::Fetching }, ScanStep::Run(args))
    }

    /// Takes the result of the call the scan asked for and moves on: the next
    /// call to make, or the candidates found.
    pub fn advance(&mut self, out: &GitOutput) -> (res: ScanStep)
        requires
            !(old(self).phase@ is Finished),
            scan_phase_fits(text_views(old(self).defaults@), old(self).phase@),
        ensures
            (final(self).phase@, res@) == scan_next(
                old(self).name@,
                old(self).path@,
                text_views(old(self).defaults@),
                old(self).phase@,
                git_out(*out),
            ),
            final(self).name == old(self).name,
            final(self).path == old(self).path,
            final(self).defaults == old(self).defaults,
            scan_phase_fits(text_views(final(self).defaults@), final(self).phase@),
            res is Run ==> final(self).ready(),
    {
        let ghost p0 = self.phase@;
        let ghost dv = text_views(self.defaults@);
        let ghost o = git_out(*out);
        let mut phase = ScanPhase::Finished;
        std::mem::swap(&mut phase, &mut self.phase);
        assert(phase@ == p0);
        let (next, step) = match phase {
            ScanPhase::Fetching => scan_probe_from_exec(&self.defaults, 0),
            ScanPhase::Probing { index } => {
                let n = self.defaults.len();
                assert(index < n);
                if out.ok {
                    assert(text_views(self.defaults@)[index as int] == self.defaults@[index as int]@);
                    to_listing_exec(Some(self.defaults[index].clone()))
                } else {
                    scan_probe_from_exec(&self.defaults, index + 1)
                }
            },
            ScanPhase::Listing { known_default } => {
                let default = known_default;
                let bs = if out.ok {
                    parse_branches(out.stdout.as_str(), &self.defaults)
                } else {
                    let v: Vec<Branch> = Vec::new();
                    assert(branch_views(v@) =~= Seq::<BranchView>::empty());
                    v
                };
                let gone = prunable_branches(&bs, &default);
                let ghost gv = branch_views(gone@);
                match default {
                    Some(d) => {
                        let e: Vec<PruneCandidate> = Vec::new();
                        assert(candidate_views(e@) =~= Seq::<CandidateView>::empty());
                        let r = count_next_exec(&self.name, &self.path, d, gone, e);
                        assert((r.0@, r.1@) == scan_next(self.name@, self.path@, dv, p0, o));
                        r
                    },
                    None => {
                        let found = uncounted_exec(&self.name, &self.path, &gone);
                        (ScanPhase::Finished, ScanStep::Finish(found))
                    },
                }
            },
            ScanPhase::Counting { default, gone, mut found } => {
                assert(p0 == ScanPhaseView::Counting { default: default@, gone: branch_views(gone@), found: candidate_views(found@) });
                let unique = count_from(out);
                let c = candidate_of(&self.name, &self.path, &gone[found.len()], unique);
                let ghost before = found@;
                assert(branch_views(gone@)[found@.len() as int] == gone@[found@.len() as int]@);
                found.push(c);
                assert(candidate_views(found@) =~= candidate_views(before).push(c@));
                count_next_exec(&self.name, &self.path, default, gone, found)
            },
            ScanPhase::Finished => (ScanPhase::Finished, ScanStep::Run(Vec::new())),
        };
        self.phase = next;
        step
    }
}

} // verus!
