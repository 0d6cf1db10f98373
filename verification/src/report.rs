//! The headless commands' logic: choosing target projects, and summarising
//! and ordering what updates and prunes report.
use vstd::prelude::*;
use crate::numbers::{decimal, decimal_of};
use crate::prune::{candidate_views, CandidateView, DeleteResult, PruneCandidate};
use crate::states::{deletion_views, Deletion};
use crate::repo::{Project, ProjectView};
use crate::scan::project_views;
use crate::sorting::{
    key_views, seconds, sort_keyed, sort_with_keys, zip_keys, KeyAtom, KeyPart, SortKey,
};
use crate::text::{chars_of, lowercase, owned, push_chars, push_str, string_of, to_lowercase};
use crate::update::{OutcomeView, UpdateOutcome, UpdateStatus};

verus! {

broadcast use vstd::seq::group_seq_axioms;

/// A project to act on: its name and where it lives.
pub open spec fn target_views(v: Seq<(String, String)>) -> Seq<(Seq<char>, Seq<char>)> {
    v.map_values(|t: (String, String)| (t.0@, t.1@))
}

/// The targets of some projects: each one's name and path, in order.
pub open spec fn targets_of(ps: Seq<ProjectView>) -> Seq<(Seq<char>, Seq<char>)> {
    ps.map_values(|p: ProjectView| (p.name, p.path))
}

/// The targets named `name`, in order.
pub open spec fn named(ts: Seq<(Seq<char>, Seq<char>)>, name: Seq<char>) -> Seq<
    (Seq<char>, Seq<char>),
>
    decreases ts.len(),
{
    if ts.len() == 0 {
        seq![]
    } else if ts.last().0 == name {
        named(ts.drop_last(), name).push(ts.last())
    } else {
        named(ts.drop_last(), name)
    }
}

/// Why no targets could be chosen.
pub enum TargetError {
    /// No project has the requested name.
    NoSuchProject(String),
}

impl TargetError {
    /// A sentence describing the error.
    pub fn message(&self) -> (res: String)
        ensures
            match self {
                TargetError::NoSuchProject(n) => res@ == "no project named '"@ + n@
                    + "' under the configured roots"@,
            },
    {
        match self {
            TargetError::NoSuchProject(n) => {
                let mut v = chars_of("no project named '");
                push_str(&mut v, n.as_str());
                push_str(&mut v, "' under the configured roots");
                string_of(&v)
            },
        }
    }
}

fn target_of(p: &Project) -> (res: (String, String))
    ensures
        (res.0@, res.1@) == (p@.name, p@.path),
{
    (p.name.clone(), p.path.clone())
}

/// The `(name, path)` targets of the discovered projects, in order.
pub fn project_targets(projects: &Vec<Project>) -> (res: Vec<(String, String)>)
    ensures
        target_views(res@) == targets_of(project_views(projects@)),
{
    let ghost want = targets_of(project_views(projects@));
    let mut out: Vec<(String, String)> = Vec::new();
    let mut i: usize = 0;
    while i < projects.len()
        invariant
            i <= projects.len(),
            want == targets_of(project_views(projects@)),
            target_views(out@) == want.take(i as int),
        decreases projects.len() - i,
    {
        let t = target_of(&projects[i]);
        let ghost before = out@;
        out.push(t);
        assert(target_views(out@) =~= target_views(before).push((t.0@, t.1@)));
        assert(project_views(projects@)[i as int] == projects@[i as int]@);
        assert(want[i as int] == (t.0@, t.1@));
        assert(want.take(i as int + 1) =~= want.take(i as int).push(want[i as int]));
        i = i + 1;
    }
    assert(want.take(i as int) =~= want);
    out
}

/// Resolves discovered projects to `(name, path)` targets, optionally
/// filtered to the projects called `project`; naming a project that does
/// not exist is an error.
pub fn resolve_targets(projects: &Vec<Project>, project: Option<String>) -> (res: Result<
    Vec<(String, String)>,
    TargetError,
>)
    ensures
        match project {
            None => res matches Ok(ts) && target_views(ts@) == targets_of(
                project_views(projects@),
            ),
            Some(n) => {
                let chosen = named(targets_of(project_views(projects@)), n@);
                if chosen.len() == 0 {
                    res matches Err(TargetError::NoSuchProject(m)) && m@ == n@
                } else {
                    res matches Ok(ts) && target_views(ts@) == chosen
                }
            },
        },
{
    let all = project_targets(projects);
    match project {
        None => Ok(all),
        Some(name) => {
            let ghost tv = target_views(all@);
            let mut kept: Vec<(String, String)> = Vec::new();
            let mut i: usize = 0;
            while i < all.len()
                invariant
                    i <= all.len(),
                    tv == target_views(all@),
                    target_views(kept@) == named(tv.take(i as int), name@),
                decreases all.len() - i,
            {
                let ghost t = tv.take(i as int + 1);
                assert(t.drop_last() =~= tv.take(i as int));
                assert(t.last() == (all@[i as int].0@, all@[i as int].1@));
                if all[i].0 == name {
                    let c = (all[i].0.clone(), all[i].1.clone());
                    kept.push(c);
                    assert(target_views(kept@) =~= named(t, name@));
                }
                i = i + 1;
            }
            assert(tv.take(i as int) =~= tv);
            if kept.len() == 0 {
                Err(TargetError::NoSuchProject(name))
            } else {
                Ok(kept)
            }
        },
    }
}

// ---------------------------------------------------------------------------

/// `s` cut to at most `max` characters, an ellipsis marking a cut.
pub open spec fn truncated(s: Seq<char>, max: nat) -> Seq<char> {
    if s.len() <= max {
        s
    } else {
        s.take(if max >= 1 {
            max - 1
        } else {
            0
        }) + seq!['…']
    }
}

/// Truncates `s` to at most `max` characters, adding an ellipsis when cut.
pub fn truncate(s: &str, max: usize) -> (res: String)
    ensures
        res@ == truncated(s@, max as nat),
{
    let v = chars_of(s);
    if v.len() <= max {
        return string_of(&v);
    }
    let keep = if max >= 1 {
        max - 1
    } else {
        0
    };
    let mut t = crate::text::slice(&v, 0, keep);
    t.push('…');
    assert(t@ =~= v@.take(keep as int) + seq!['…']);
    string_of(&t)
}

/// A truncated text never runs past its width (one column at least, for the
/// ellipsis), and what is kept is the start of the text.
pub proof fn lemma_truncated_fits(s: Seq<char>, max: nat)
    ensures
        truncated(s, max).len() <= if max >= 1 {
            max
        } else {
            1
        },
        s.len() <= max ==> truncated(s, max) == s,
        s.len() > max ==> truncated(s, max).drop_last() == s.take(truncated(s, max).len() - 1),
{
    if s.len() > max {
        let k: int = if max >= 1 {
            max - 1
        } else {
            0
        };
        assert(truncated(s, max).drop_last() =~= s.take(k));
    }
}

/// What `pelper prune` does with the candidates it found.
#[derive(Clone, Copy, Debug, PartialEq, Eq, Structural)]
pub enum PruneAction {
    /// Nothing to prune.
    NothingFound,
    /// List what would be deleted (the default).
    DryRun,
    /// Delete the candidates (only with `--yes`).
    Delete,
}

/// The action for `found` candidates: branches are deleted only when
/// `yes` was given.
pub fn prune_action(found: usize, yes: bool) -> (res: PruneAction)
    ensures
        res == (if found == 0 {
            PruneAction::NothingFound
        } else if !yes {
            PruneAction::DryRun
        } else {
            PruneAction::Delete
        }),
        res == PruneAction::Delete ==> yes,
{
    if found == 0 {
        PruneAction::NothingFound
    } else if !yes {
        PruneAction::DryRun
    } else {
        PruneAction::Delete
    }
}

/// The deletions that `pelper prune` makes of the candidates it listed:
/// with `--yes`, every candidate in listing order, each once; without it,
/// none.
pub open spec fn planned_deletions(cs: Seq<CandidateView>, yes: bool) -> Seq<
    (usize, Seq<char>, Seq<char>),
> {
    if yes {
        Seq::new(cs.len(), |i: int| (i as usize, cs[i].path, cs[i].branch))
    } else {
        seq![]
    }
}

/// The branches to delete, each with its position among the listed
/// candidates (see [`planned_deletions`]).
pub fn deletion_plan(cs: &Vec<PruneCandidate>, yes: bool) -> (res: Vec<Deletion>)
    ensures
        deletion_views(res@) == planned_deletions(candidate_views(cs@), yes),
{
    let ghost want = planned_deletions(candidate_views(cs@), yes);
    let mut out: Vec<Deletion> = Vec::new();
    if !yes {
        assert(deletion_views(out@) =~= want);
        return out;
    }
    let mut i: usize = 0;
    while i < cs.len()
        invariant
            yes,
            i <= cs.len(),
            want == planned_deletions(candidate_views(cs@), yes),
            deletion_views(out@) == want.take(i as int),
        decreases cs.len() - i,
    {
        let d = Deletion { index: i, path: cs[i].path.clone(), branch: cs[i].branch.clone() };
        let ghost before = out@;
        out.push(d);
        assert(deletion_views(out@) =~= deletion_views(before).push((i, cs@[i as int].path@, cs@[i as int].branch@)));
        assert(want.take(i as int + 1) =~= want.take(i as int).push(want[i as int]));
        i = i + 1;
    }
    assert(want.take(i as int) =~= want);
    out
}

/// The one-character mark of each update status.
pub open spec fn icon_text(status: UpdateStatus) -> Seq<char> {
    match status {
        UpdateStatus::Updated => "✓"@,
        UpdateStatus::UpToDate => "="@,
        UpdateStatus::Warning => "⚠"@,
        UpdateStatus::Failed => "✗"@,
        UpdateStatus::Skipped => "⊘"@,
    }
}

pub fn status_icon(status: UpdateStatus) -> (res: &'static str)
    ensures
        res@ == icon_text(status),
{
    match status {
        UpdateStatus::Updated => "✓",
        UpdateStatus::UpToDate => "=",
        UpdateStatus::Warning => "⚠",
        UpdateStatus::Failed => "✗",
        UpdateStatus::Skipped => "⊘",
    }
}

/// How many of `s` are `st`.
pub open spec fn count_status(s: Seq<UpdateStatus>, st: UpdateStatus) -> nat
    decreases s.len(),
{
    if s.len() == 0 {
        0
    } else {
        count_status(s.drop_last(), st) + if s.last() == st {
            1nat
        } else {
            0nat
        }
    }
}

/// How many updates ended each way.
pub struct UpdateTally {
    pub updated: usize,
    pub current: usize,
    pub warning: usize,
    pub failed: usize,
    pub skipped: usize,
}

pub open spec fn tally_matches(t: UpdateTally, s: Seq<UpdateStatus>) -> bool {
    &&& t.updated == count_status(s, UpdateStatus::Updated)
    &&& t.current == count_status(s, UpdateStatus::UpToDate)
    &&& t.warning == count_status(s, UpdateStatus::Warning)
    &&& t.failed == count_status(s, UpdateStatus::Failed)
    &&& t.skipped == count_status(s, UpdateStatus::Skipped)
}

proof fn lemma_count_le(s: Seq<UpdateStatus>, st: UpdateStatus)
    ensures
        count_status(s, st) <= s.len(),
    decreases s.len(),
{
    if s.len() > 0 {
        lemma_count_le(s.drop_last(), st);
    }
}

/// Counts the statuses.
pub fn tally(statuses: &Vec<UpdateStatus>) -> (res: UpdateTally)
    ensures
        tally_matches(res, statuses@),
{
    let mut t = UpdateTally { updated: 0, current: 0, warning: 0, failed: 0, skipped: 0 };
    let mut i: usize = 0;
    while i < statuses.len()
        invariant
            i <= statuses.len(),
            tally_matches(t, statuses@.take(i as int)),
        decreases statuses.len() - i,
    {
        let ghost s = statuses@.take(i as int + 1);
        assert(s.drop_last() =~= statuses@.take(i as int));
        proof {
            lemma_count_le(s.drop_last(), statuses@[i as int]);
        }
        match statuses[i] {
            UpdateStatus::Updated => t.updated = t.updated + 1,
            UpdateStatus::UpToDate => t.current = t.current + 1,
            UpdateStatus::Warning => t.warning = t.warning + 1,
            UpdateStatus::Failed => t.failed = t.failed + 1,
            UpdateStatus::Skipped => t.skipped = t.skipped + 1,
        }
        i = i + 1;
    }
    assert(statuses@.take(i as int) =~= statuses@);
    t
}

/// The statuses of some outcomes.
pub fn outcome_statuses(os: &Vec<UpdateOutcome>) -> (res: Vec<UpdateStatus>)
    ensures
        res@ == os@.map_values(|o: UpdateOutcome| o.status),
{
    let mut out: Vec<UpdateStatus> = Vec::new();
    let mut i: usize = 0;
    while i < os.len()
        invariant
            i <= os.len(),
            out@ == os@.map_values(|o: UpdateOutcome| o.status).take(i as int),
        decreases os.len() - i,
    {
        out.push(os[i].status);
        i = i + 1;
        assert(out@ =~= os@.map_values(|o: UpdateOutcome| o.status).take(i as int));
    }
    assert(os@.map_values(|o: UpdateOutcome| o.status).take(i as int) =~= os@.map_values(
        |o: UpdateOutcome| o.status,
    ));
    out
}

/// The sync column of `pelper scan`: `ok` when level with the upstream,
/// `+A -B` otherwise, `-` without an upstream.
pub open spec fn sync_text(upstream: Option<(usize, usize)>) -> Seq<char> {
    match upstream {
        Some((a, b)) => if a == 0 && b == 0 {
            "ok"@
        } else {
            "+"@ + decimal(a as nat) + " -"@ + decimal(b as nat)
        },
        None => "-"@,
    }
}

pub fn sync_summary(upstream: Option<(usize, usize)>) -> (res: String)
    ensures
        res@ == sync_text(upstream),
{
    match upstream {
        Some((a, b)) => if a == 0 && b == 0 {
            owned("ok")
        } else {
            let mut v = chars_of("+");
            push_chars(&mut v, &decimal_of(a as u64));
            push_str(&mut v, " -");
            push_chars(&mut v, &decimal_of(b as u64));
            string_of(&v)
        },
        None => owned("-"),
    }
}

/// What a prune candidate is listed as: `merged` when the default branch
/// contains it, else how many commits it has of its own.
pub open spec fn prune_status_text(unique: usize) -> Seq<char> {
    if unique == 0 {
        "merged"@
    } else {
        decimal(unique as nat) + " ahead"@
    }
}

pub fn prune_status(unique: usize) -> (res: String)
    ensures
        res@ == prune_status_text(unique),
{
    if unique == 0 {
        owned("merged")
    } else {
        let mut v = decimal_of(unique as u64);
        push_str(&mut v, " ahead");
        string_of(&v)
    }
}

/// How many of the deletions succeeded and how many failed.
pub open spec fn delete_counts(rs: Seq<bool>) -> (nat, nat)
    decreases rs.len(),
{
    if rs.len() == 0 {
        (0, 0)
    } else {
        let (d, f) = delete_counts(rs.drop_last());
        if rs.last() {
            (d + 1, f)
        } else {
            (d, f + 1)
        }
    }
}

proof fn lemma_delete_counts_sum(rs: Seq<bool>)
    ensures
        delete_counts(rs).0 + delete_counts(rs).1 == rs.len(),
    decreases rs.len(),
{
    if rs.len() > 0 {
        lemma_delete_counts_sum(rs.drop_last());
    }
}

/// Counts deleted and failed branches.
pub fn count_deletions(results: &Vec<DeleteResult>) -> (res: (usize, usize))
    ensures
        (res.0 as nat, res.1 as nat) == delete_counts(results@.map_values(|r: DeleteResult| r.ok)),
{
    let ghost oks = results@.map_values(|r: DeleteResult| r.ok);
    let mut d: usize = 0;
    let mut f: usize = 0;
    let mut i: usize = 0;
    while i < results.len()
        invariant
            i <= results.len(),
            oks == results@.map_values(|r: DeleteResult| r.ok),
            (d as nat, f as nat) == delete_counts(oks.take(i as int)),
        decreases results.len() - i,
    {
        let ghost s = oks.take(i as int + 1);
        assert(s.drop_last() =~= oks.take(i as int));
        proof {
            lemma_delete_counts_sum(s.drop_last());
        }
        if results[i].ok {
            d = d + 1;
        } else {
            f = f + 1;
        }
        i = i + 1;
    }
    assert(oks.take(i as int) =~= oks);
    (d, f)
}

// ---------------------------------------------------------------------------

/// Outcomes are listed by lowercased project name.
pub open spec fn outcome_key(o: OutcomeView) -> Seq<KeyAtom> {
    seq![KeyAtom::Text(lowercase(o.name))]
}

pub open spec fn outcome_keys(s: Seq<UpdateOutcome>) -> Seq<Seq<KeyAtom>> {
    s.map_values(|o: UpdateOutcome| outcome_key(o@))
}

/// Sorts update outcomes by lowercased project name.
pub fn sort_outcomes(os: Vec<UpdateOutcome>) -> (res: Vec<UpdateOutcome>)
    ensures
        res@ == seconds(sort_keyed(zip_keys(
            outcome_keys(os@),
            os@,
        ))),
{
    let mut keys: Vec<SortKey> = Vec::new();
    let mut i: usize = 0;
    while i < os.len()
        invariant
            i <= os.len(),
            key_views(keys@) == outcome_keys(os@).take(i as int),
        decreases os.len() - i,
    {
        let lower = to_lowercase(os[i].name.as_str());
        let mut parts: Vec<KeyPart> = Vec::new();
        parts.push(KeyPart::Text(chars_of(lower.as_str())));
        let k = SortKey { parts };
        assert(k@ =~= outcome_key(os@[i as int]@));
        let ghost before = keys@;
        keys.push(k);
        assert(key_views(keys@) =~= key_views(before).push(k@));
        assert(outcome_keys(os@).take(i as int + 1) =~= outcome_keys(os@).take(i as int).push(
            outcome_key(os@[i as int]@),
        ));
        i = i + 1;
    }
    assert(outcome_keys(os@).take(i as int) =~= outcome_keys(os@));
    sort_with_keys(os, keys)
}

/// Prune candidates are listed by lowercased project name, then branch.
pub open spec fn candidate_key(c: CandidateView) -> Seq<KeyAtom> {
    seq![KeyAtom::Text(lowercase(c.project)), KeyAtom::Text(c.branch)]
}

pub open spec fn candidate_keys(s: Seq<PruneCandidate>) -> Seq<Seq<KeyAtom>> {
    s.map_values(|c: PruneCandidate| candidate_key(c@))
}

/// Sorts prune candidates by lowercased project name, then branch name.
pub fn sort_candidates(cs: Vec<PruneCandidate>) -> (res: Vec<PruneCandidate>)
    ensures
        res@ == seconds(sort_keyed(zip_keys(
            candidate_keys(cs@),
            cs@,
        ))),
{
    let mut keys: Vec<SortKey> = Vec::new();
    let mut i: usize = 0;
    while i < cs.len()
        invariant
            i <= cs.len(),
            key_views(keys@) == candidate_keys(cs@).take(
                i as int,
            ),
        decreases cs.len() - i,
    {
        let lower = to_lowercase(cs[i].project.as_str());
        let mut parts: Vec<KeyPart> = Vec::new();
        parts.push(KeyPart::Text(chars_of(lower.as_str())));
        parts.push(KeyPart::Text(chars_of(cs[i].branch.as_str())));
        let k = SortKey { parts };
        assert(k@ =~= candidate_key(cs@[i as int]@));
        let ghost before = keys@;
        keys.push(k);
        assert(key_views(keys@) =~= key_views(before).push(k@));
        assert(candidate_keys(cs@).take(i as int + 1) =~= candidate_keys(cs@).take(i as int).push(
            candidate_key(cs@[i as int]@),
        ));
        i = i + 1;
    }
    assert(candidate_keys(cs@).take(i as int) =~= candidate_keys(cs@));
    sort_with_keys(cs, keys)
}

} // verus!
