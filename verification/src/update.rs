//! Updating one repository: fetch, then fast-forward its default branch,
//! stashing and restoring local changes and returning to the original
//! branch.
//!
//! The update is a sequence of `git` calls whose results decide what comes
//! next. [`UpdateRun`] holds where the update stands; [`UpdateRun::advance`]
//! takes the result of the last call and says which call to make next, or
//! how the update ended.
use vstd::prelude::*;
use crate::gitio::{first_line, first_line_text, GitOutput};
use crate::split::contains_sub;
use crate::text::{
    blank, chars_of, is_blank, lowercase, owned, push_str, string_of, text_views,
    to_lowercase, trim, trim_chars,
};

verus! {

broadcast use vstd::seq::group_seq_axioms;

#[derive(Clone, Copy, Debug, PartialEq, Eq, Structural)]
pub enum UpdateStatus {
    /// The default branch was fast-forwarded.
    Updated,
    /// Already current — nothing to do.
    UpToDate,
    /// Intentionally not touched (detached HEAD, no default branch, …).
    Skipped,
    /// Partially done — needs the user's attention (not-ff, stash left behind).
    Warning,
    /// The update failed outright.
    Failed,
}

pub struct UpdateOutcome {
    pub name: String,
    pub status: UpdateStatus,
    pub message: String,
}

pub struct OutcomeView {
    pub name: Seq<char>,
    pub status: UpdateStatus,
    pub message: Seq<char>,
}

impl View for UpdateOutcome {
    type V = OutcomeView;

    open spec fn view(&self) -> OutcomeView {
        OutcomeView { name: self.name@, status: self.status, message: self.message@ }
    }
}

/// Progress reported while many repositories update.
pub enum UpdateMsg {
    Started(String),
    Done(Box<UpdateOutcome>),
    AllDone,
}

/// The contents of a [`GitOutput`].
pub struct GitOut {
    pub ok: bool,
    pub stdout: Seq<char>,
    pub stderr: Seq<char>,
}

pub open spec fn git_out(o: GitOutput) -> GitOut {
    GitOut { ok: o.ok, stdout: o.stdout@, stderr: o.stderr@ }
}

/// How a `git pull --ff-only` went, given its output in lower case: a
/// failure means the branch could not be fast-forwarded; otherwise git
/// either had nothing to do or moved the branch.
pub open spec fn pull_verdict(ok: bool, lowered: Seq<char>, stderr: Seq<char>) -> (
    UpdateStatus,
    Seq<char>,
) {
    if !ok {
        (UpdateStatus::Warning, "not fast-forwardable: "@ + first_line_text(stderr))
    } else if contains_sub(lowered, "already up to date"@) {
        (UpdateStatus::UpToDate, "already up to date"@)
    } else {
        (UpdateStatus::Updated, "fast-forwarded"@)
    }
}

/// How a `git pull --ff-only` went, from its raw output.
pub open spec fn pull_result(ok: bool, stdout: Seq<char>, stderr: Seq<char>) -> (
    UpdateStatus,
    Seq<char>,
) {
    pull_verdict(ok, lowercase(stdout), stderr)
}

/// The verdict on a `git pull --ff-only` whose standard output, in lower
/// case, is `lowered`.
pub fn pull_outcome(ok: bool, lowered: &str, stderr: &str) -> (res: (UpdateStatus, String))
    ensures
        (res.0, res.1@) == pull_verdict(ok, lowered@, stderr@),
{
    if !ok {
        let mut m = chars_of("not fast-forwardable: ");
        push_str(&mut m, first_line(stderr).as_str());
        return (UpdateStatus::Warning, string_of(&m));
    }
    let hay = chars_of(lowered);
    let pat = chars_of("already up to date");
    if crate::split::find_sub_of(&hay, &pat).is_some() {
        (UpdateStatus::UpToDate, owned("already up to date"))
    } else {
        (UpdateStatus::Updated, owned("fast-forwarded"))
    }
}

/// Classifies the result of `git pull --ff-only`.
pub fn classify_pull(ok: bool, stdout: &str, stderr: &str) -> (res: (UpdateStatus, String))
    ensures
        (res.0, res.1@) == pull_result(ok, stdout@, stderr@),
{
    if !ok {
        return pull_outcome(false, stdout, stderr);
    }
    let lower = to_lowercase(stdout);
    pull_outcome(true, lower.as_str(), stderr)
}

// ---------------------------------------------------------------------------
// The update as a sequence of git calls
// ---------------------------------------------------------------------------

/// Where an update stands, waiting for the result of the call it asked for.
pub enum UpdatePhase {
    /// `git fetch --all --prune`.
    Fetching,
    /// Does the default branch candidate at `index` exist locally?
    Probing { index: usize },
    /// Which branch is checked out?
    ReadingHead { default: String },
    /// Are there local changes?
    CheckingDirty { default: String, current: String },
    /// Stashing local changes.
    Stashing { default: String, current: String },
    /// Checking out the default branch.
    SwitchingToDefault { default: String, current: String, stashed: bool },
    /// Restoring the stash after the checkout failed; the update has failed
    /// with `message`.
    RestoringAfterFailedSwitch { message: String },
    /// `git pull --ff-only` on the default branch.
    Pulling { default: String, current: String, stashed: bool },
    /// Checking out the original branch again after the pull.
    SwitchingBack {
        default: String,
        current: String,
        stashed: bool,
        status: UpdateStatus,
        message: String,
    },
    /// Reapplying the stash after the pull.
    Unstashing { default: String, status: UpdateStatus, message: String },
    /// Nothing is waiting; the update has ended.
    Finished,
}

/// The contents of an [`UpdatePhase`].
pub enum PhaseView {
    Fetching,
    Probing { index: int },
    ReadingHead { default: Seq<char> },
    CheckingDirty { default: Seq<char>, current: Seq<char> },
    Stashing { default: Seq<char>, current: Seq<char> },
    SwitchingToDefault { default: Seq<char>, current: Seq<char>, stashed: bool },
    RestoringAfterFailedSwitch { message: Seq<char> },
    Pulling { default: Seq<char>, current: Seq<char>, stashed: bool },
    SwitchingBack {
        default: Seq<char>,
        current: Seq<char>,
        stashed: bool,
        status: UpdateStatus,
        message: Seq<char>,
    },
    Unstashing { default: Seq<char>, status: UpdateStatus, message: Seq<char> },
    Finished,
}

impl View for UpdatePhase {
    type V = PhaseView;

    open spec fn view(&self) -> PhaseView {
        match self {
            UpdatePhase::Fetching => PhaseView::Fetching,
            UpdatePhase::Probing { index } => PhaseView::Probing { index: *index as int },
            UpdatePhase::ReadingHead { default } => PhaseView::ReadingHead { default: default@ },
            UpdatePhase::CheckingDirty { default, current } => PhaseView::CheckingDirty {
                default: default@,
                current: current@,
            },
            UpdatePhase::Stashing { default, current } => PhaseView::Stashing {
                default: default@,
                current: current@,
            },
            UpdatePhase::SwitchingToDefault { default, current, stashed } =>
                PhaseView::SwitchingToDefault {
                default: default@,
                current: current@,
                stashed: *stashed,
            },
            UpdatePhase::RestoringAfterFailedSwitch { message } =>
                PhaseView::RestoringAfterFailedSwitch { message: message@ },
            UpdatePhase::Pulling { default, current, stashed } => PhaseView::Pulling {
                default: default@,
                current: current@,
                stashed: *stashed,
            },
            UpdatePhase::SwitchingBack { default, current, stashed, status, message } =>
                PhaseView::SwitchingBack {
                default: default@,
                current: current@,
                stashed: *stashed,
                status: *status,
                message: message@,
            },
            UpdatePhase::Unstashing { default, status, message } => PhaseView::Unstashing {
                default: default@,
                status: *status,
                message: message@,
            },
            UpdatePhase::Finished => PhaseView::Finished,
        }
    }
}

/// What the update does next: run `git` with these arguments, or stop with
/// this outcome.
pub enum UpdateStep {
    Run(Vec<String>),
    Finish(UpdateOutcome),
}

pub enum StepView {
    Run(Seq<Seq<char>>),
    Finish(UpdateStatus, Seq<char>),
}

impl View for UpdateStep {
    type V = StepView;

    open spec fn view(&self) -> StepView {
        match self {
            UpdateStep::Run(args) => StepView::Run(text_views(args@)),
            UpdateStep::Finish(o) => StepView::Finish(o.status, o.message@),
        }
    }
}

/// One repository's update in progress.
pub struct UpdateRun {
    /// The project's name, reported in the outcome.
    pub name: String,
    /// Branch names that count as the default branch, in priority order.
    pub defaults: Vec<String>,
    pub phase: UpdatePhase,
}

pub open spec fn fetch_args() -> Seq<Seq<char>> {
    seq!["fetch"@, "--all"@, "--prune"@]
}

pub open spec fn probe_args(branch: Seq<char>) -> Seq<Seq<char>> {
    seq!["rev-parse"@, "--verify"@, "--quiet"@, "refs/heads/"@ + branch]
}

pub open spec fn head_args() -> Seq<Seq<char>> {
    seq!["symbolic-ref"@, "--quiet"@, "--short"@, "HEAD"@]
}

pub open spec fn dirty_args() -> Seq<Seq<char>> {
    seq!["status"@, "--porcelain"@]
}

pub open spec fn stash_args() -> Seq<Seq<char>> {
    seq!["stash"@, "push"@, "--include-untracked"@, "-m"@, "pelper-autostash"@]
}

pub open spec fn pop_args() -> Seq<Seq<char>> {
    seq!["stash"@, "pop"@]
}

pub open spec fn checkout_args(branch: Seq<char>) -> Seq<Seq<char>> {
    seq!["checkout"@, branch]
}

pub open spec fn pull_args() -> Seq<Seq<char>> {
    seq!["pull"@, "--ff-only"@]
}

/// Try the default branch candidates from `i` on; with none left the update
/// is skipped (the fetch has happened).
pub open spec fn probe_from(defaults: Seq<Seq<char>>, i: int) -> (PhaseView, StepView) {
    if 0 <= i < defaults.len() {
        (PhaseView::Probing { index: i }, StepView::Run(probe_args(defaults[i])))
    } else {
        (
            PhaseView::Finished,
            StepView::Finish(UpdateStatus::Skipped, "no main/master branch (fetched only)"@),
        )
    }
}

/// After any stash: switch to the default branch if another is checked out,
/// else pull.
pub open spec fn switch_or_pull(d: Seq<char>, c: Seq<char>, stashed: bool) -> (
    PhaseView,
    StepView,
) {
    if c != d {
        (
            PhaseView::SwitchingToDefault { default: d, current: c, stashed },
            StepView::Run(checkout_args(d)),
        )
    } else {
        (PhaseView::Pulling { default: d, current: c, stashed }, StepView::Run(pull_args()))
    }
}

/// After returning to the original branch: reapply a stash, else finish
/// with the pull's outcome.
pub open spec fn unstash_or_finish(
    d: Seq<char>,
    stashed: bool,
    status: UpdateStatus,
    m: Seq<char>,
) -> (PhaseView, StepView) {
    if stashed {
        (PhaseView::Unstashing { default: d, status, message: m }, StepView::Run(pop_args()))
    } else {
        (PhaseView::Finished, StepView::Finish(status, d + ": "@ + m))
    }
}

/// The next phase and step of an update in phase `p` whose last call
/// returned `o`.
pub open spec fn update_next(defaults: Seq<Seq<char>>, p: PhaseView, o: GitOut) -> (
    PhaseView,
    StepView,
) {
    match p {
        PhaseView::Fetching => if !o.ok {
            (
                PhaseView::Finished,
                StepView::Finish(UpdateStatus::Failed, "fetch failed: "@ + first_line_text(o.stderr)),
            )
        } else {
            probe_from(defaults, 0)
        },
        PhaseView::Probing { index } => if o.ok {
            (PhaseView::ReadingHead { default: defaults[index] }, StepView::Run(head_args()))
        } else {
            probe_from(defaults, index + 1)
        },
        PhaseView::ReadingHead { default } => if o.ok {
            (
                PhaseView::CheckingDirty { default, current: trim(o.stdout) },
                StepView::Run(dirty_args()),
            )
        } else {
            (
                PhaseView::Finished,
                StepView::Finish(UpdateStatus::Skipped, "detached HEAD (fetched only)"@),
            )
        },
        PhaseView::CheckingDirty { default, current } => if !is_blank(o.stdout) {
            (PhaseView::Stashing { default, current }, StepView::Run(stash_args()))
        } else {
            switch_or_pull(default, current, false)
        },
        PhaseView::Stashing { default, current } => if !o.ok {
            (
                PhaseView::Finished,
                StepView::Finish(UpdateStatus::Failed, "could not stash: "@ + first_line_text(o.stderr)),
            )
        } else {
            switch_or_pull(default, current, true)
        },
        PhaseView::SwitchingToDefault { default, current, stashed } => if !o.ok {
            let m = "checkout "@ + default + " failed: "@ + first_line_text(o.stderr);
            if stashed {
                (PhaseView::RestoringAfterFailedSwitch { message: m }, StepView::Run(pop_args()))
            } else {
                (PhaseView::Finished, StepView::Finish(UpdateStatus::Failed, m))
            }
        } else {
            (PhaseView::Pulling { default, current, stashed }, StepView::Run(pull_args()))
        },
        PhaseView::RestoringAfterFailedSwitch { message } => (
            PhaseView::Finished,
            StepView::Finish(UpdateStatus::Failed, message),
        ),
        PhaseView::Pulling { default, current, stashed } => {
            let (st, m) = pull_result(o.ok, o.stdout, o.stderr);
            if current != default {
                (
                    PhaseView::SwitchingBack { default, current, stashed, status: st, message: m },
                    StepView::Run(checkout_args(current)),
                )
            } else {
                unstash_or_finish(default, stashed, st, m)
            }
        },
        PhaseView::SwitchingBack { default, current, stashed, status, message } => if !o.ok {
            (
                PhaseView::Finished,
                StepView::Finish(
                    UpdateStatus::Warning,
                    default + " "@ + message + ", but failed to return to "@ + current + ": "@
                        + first_line_text(o.stderr),
                ),
            )
        } else {
            unstash_or_finish(default, stashed, status, message)
        },
        PhaseView::Unstashing { default, status, message } => if !o.ok {
            (
                PhaseView::Finished,
                StepView::Finish(
                    UpdateStatus::Warning,
                    default + " "@ + message
                        + "; stashed changes NOT reapplied (conflict) — safe in `git stash`: "@
                        + first_line_text(o.stderr),
                ),
            )
        } else {
            (PhaseView::Finished, StepView::Finish(status, default + ": "@ + message))
        },
        PhaseView::Finished => (PhaseView::Finished, StepView::Run(Seq::empty())),
    }
}

/// A phase that belongs to a run with these defaults.
pub open spec fn phase_fits(defaults: Seq<Seq<char>>, p: PhaseView) -> bool {
    match p {
        PhaseView::Probing { index } => 0 <= index < defaults.len(),
        _ => true,
    }
}

// ---------------------------------------------------------------------------

pub open spec fn strs_view(v: Seq<&str>) -> Seq<Seq<char>> {
    v.map_values(|s: &str| s@)
}

fn args_of(parts: Vec<&str>) -> (res: Vec<String>)
    ensures
        text_views(res@) == strs_view(parts@),
{
    let mut res: Vec<String> = Vec::new();
    let mut i: usize = 0;
    while i < parts.len()
        invariant
            i <= parts.len(),
            text_views(res@) == strs_view(parts@).take(i as int),
        decreases parts.len() - i,
    {
        let ghost before = res@;
        let item = owned(parts[i]);
        res.push(item);
        assert(text_views(res@) =~= text_views(before).push(parts@[i as int]@));
        assert(strs_view(parts@).take(i as int + 1) =~= strs_view(parts@).take(i as int).push(
            parts@[i as int]@,
        ));
        i = i + 1;
    }
    assert(strs_view(parts@).take(i as int) =~= strs_view(parts@));
    res
}

fn run_args(parts: Vec<&str>) -> (res: UpdateStep)
    ensures
        res@ == StepView::Run(strs_view(parts@)),
{
    UpdateStep::Run(args_of(parts))
}

fn joined(parts: Vec<&str>) -> (res: String)
    ensures
        res@ == parts@.fold_left(Seq::<char>::empty(), |acc: Seq<char>, s: &str| acc + s@),
{
    let mut v: Vec<char> = Vec::new();
    let mut i: usize = 0;
    while i < parts.len()
        invariant
            i <= parts.len(),
            v@ == parts@.take(i as int).fold_left(
                Seq::<char>::empty(),
                |acc: Seq<char>, s: &str| acc + s@,
            ),
        decreases parts.len() - i,
    {
        proof {
            let t = parts@.take(i as int + 1);
            assert(t.drop_last() =~= parts@.take(i as int));
        }
        push_str(&mut v, parts[i]);
        i = i + 1;
    }
    assert(parts@.take(parts@.len() as int) =~= parts@);
    string_of(&v)
}

impl UpdateRun {
    /// The update is waiting for the result of a call it asked for.
    pub open spec fn ready(&self) -> bool {
        !(self.phase@ is Finished) && phase_fits(text_views(self.defaults@), self.phase@)
    }

    /// Whether the update is waiting for a call's result (see
    /// [`UpdateRun::ready`]); after [`UpdateRun::begin`] or a step that asks
    /// for a call it always is.
    pub fn can_advance(&self) -> (res: bool)
        ensures
            res == self.ready(),
    {
        match &self.phase {
            UpdatePhase::Finished => false,
            UpdatePhase::Probing { index } => *index < self.defaults.len(),
            _ => true,
        }
    }

    /// Starts updating the repository called `name`: the first call fetches
    /// from all remotes, pruning deleted branches.
    pub fn begin(name: String, defaults: Vec<String>) -> (res: (UpdateRun, UpdateStep))
        ensures
            res.0.name@ == name@,
            res.0.defaults@ == defaults@,
            res.0.phase@ == PhaseView::Fetching,
            res.1@ == StepView::Run(fetch_args()),
            res.0.ready(),
    {
        let parts = vec!["fetch", "--all", "--prune"];
        assert(strs_view(parts@) =~= fetch_args());
        let step = run_args(parts);
        (UpdateRun { name, defaults, phase: UpdatePhase::Fetching }, step)
    }
}

fn finish(name: &String, status: UpdateStatus, message: Vec<char>) -> (res: UpdateStep)
    ensures
        res@ == StepView::Finish(status, message@),
        res matches UpdateStep::Finish(o) && o.name@ == name@,
{
    UpdateStep::Finish(UpdateOutcome { name: name.clone(), status, message: string_of(&message) })
}

fn text(s: &str) -> (res: Vec<char>)
    ensures
        res@ == s@,
{
    chars_of(s)
}

fn probe_from_exec(name: &String, defaults: &Vec<String>, i: usize) -> (res: (
    UpdatePhase,
    UpdateStep,
))
    ensures
        (res.0@, res.1@) == probe_from(text_views(defaults@), i as int),
        res.1 matches UpdateStep::Finish(o) ==> o.name@ == name@,
{
    if i < defaults.len() {
        let mut target = text("refs/heads/");
        push_str(&mut target, defaults[i].as_str());
        let args = vec![owned("rev-parse"), owned("--verify"), owned("--quiet"), string_of(&target)];
        assert(text_views(args@) =~= probe_args(text_views(defaults@)[i as int]));
        (UpdatePhase::Probing { index: i }, UpdateStep::Run(args))
    } else {
        (
            UpdatePhase::Finished,
            finish(name, UpdateStatus::Skipped, text("no main/master branch (fetched only)")),
        )
    }
}

fn switch_or_pull_exec(d: String, c: String, stashed: bool) -> (res: (UpdatePhase, UpdateStep))
    ensures
        (res.0@, res.1@) == switch_or_pull(d@, c@, stashed),
        res.1 is Run,
{
    if c != d {
        let args = vec![owned("checkout"), d.clone()];
        assert(text_views(args@) =~= checkout_args(d@));
        (UpdatePhase::SwitchingToDefault { default: d, current: c, stashed }, UpdateStep::Run(args))
    } else {
        let args = vec![owned("pull"), owned("--ff-only")];
        assert(text_views(args@) =~= pull_args());
        (UpdatePhase::Pulling { default: d, current: c, stashed }, UpdateStep::Run(args))
    }
}

fn unstash_or_finish_exec(
    name: &String,
    d: String,
    stashed: bool,
    status: UpdateStatus,
    m: String,
) -> (res: (UpdatePhase, UpdateStep))
    ensures
        (res.0@, res.1@) == unstash_or_finish(d@, stashed, status, m@),
        res.1 matches UpdateStep::Finish(o) ==> o.name@ == name@,
{
    if stashed {
        let args = vec![owned("stash"), owned("pop")];
        assert(text_views(args@) =~= pop_args());
        (UpdatePhase::Unstashing { default: d, status, message: m }, UpdateStep::Run(args))
    } else {
        let mut msg = chars_of(d.as_str());
        push_str(&mut msg, ": ");
        push_str(&mut msg, m.as_str());
        (UpdatePhase::Finished, finish(name, status, msg))
    }
}

impl UpdateRun {
    /// Takes the result of the call the update asked for and moves on: the
    /// next call to make, or how the update ended.
    pub fn advance(&mut self, out: &GitOutput) -> (res: UpdateStep)
        requires
            !(old(self).phase@ is Finished),
            phase_fits(text_views(old(self).defaults@), old(self).phase@),
        ensures
            (final(self).phase@, res@) == update_next(
                text_views(old(self).defaults@),
                old(self).phase@,
                git_out(*out),
            ),
            final(self).name == old(self).name,
            final(self).defaults == old(self).defaults,
            phase_fits(text_views(final(self).defaults@), final(self).phase@),
            res matches UpdateStep::Finish(o) ==> o.name@ == old(self).name@,
            res is Run ==> final(self).ready(),
    {
        let ghost dv = text_views(self.defaults@);
        let (phase, step) = match &self.phase {
            UpdatePhase::Fetching => {
                if !out.ok {
                    let mut m = text("fetch failed: ");
                    push_str(&mut m, first_line(out.stderr.as_str()).as_str());
                    (UpdatePhase::Finished, finish(&self.name, UpdateStatus::Failed, m))
                } else {
                    probe_from_exec(&self.name, &self.defaults, 0)
                }
            },
            UpdatePhase::Probing { index } => {
                let i = *index;
                let n = self.defaults.len();
                assert(i < n);
                if out.ok {
                    let args = vec![
                        owned("symbolic-ref"),
                        owned("--quiet"),
                        owned("--short"),
                        owned("HEAD"),
                    ];
                    assert(text_views(args@) =~= head_args());
                    (
                        UpdatePhase::ReadingHead { default: self.defaults[i].clone() },
                        UpdateStep::Run(args),
                    )
                } else {
                    probe_from_exec(&self.name, &self.defaults, i + 1)
                }
            },
            UpdatePhase::ReadingHead { default } => {
                if out.ok {
                    let current = string_of(&trim_chars(&chars_of(out.stdout.as_str())));
                    let args = vec![owned("status"), owned("--porcelain")];
                    assert(text_views(args@) =~= dirty_args());
                    (
                        UpdatePhase::CheckingDirty { default: default.clone(), current },
                        UpdateStep::Run(args),
                    )
                } else {
                    (
                        UpdatePhase::Finished,
                        finish(
                            &self.name,
                            UpdateStatus::Skipped,
                            text("detached HEAD (fetched only)"),
                        ),
                    )
                }
            },
            UpdatePhase::CheckingDirty { default, current } => {
                if !blank(&chars_of(out.stdout.as_str())) {
                    let args = vec![
                        owned("stash"),
                        owned("push"),
                        owned("--include-untracked"),
                        owned("-m"),
                        owned("pelper-autostash"),
                    ];
                    assert(text_views(args@) =~= stash_args());
                    (
                        UpdatePhase::Stashing { default: default.clone(), current: current.clone() },
                        UpdateStep::Run(args),
                    )
                } else {
                    switch_or_pull_exec(default.clone(), current.clone(), false)
                }
            },
            UpdatePhase::Stashing { default, current } => {
                if !out.ok {
                    let mut m = text("could not stash: ");
                    push_str(&mut m, first_line(out.stderr.as_str()).as_str());
                    (UpdatePhase::Finished, finish(&self.name, UpdateStatus::Failed, m))
                } else {
                    switch_or_pull_exec(default.clone(), current.clone(), true)
                }
            },
            UpdatePhase::SwitchingToDefault { default, current, stashed } => {
                if !out.ok {
                    let mut m = text("checkout ");
                    push_str(&mut m, default.as_str());
                    push_str(&mut m, " failed: ");
                    push_str(&mut m, first_line(out.stderr.as_str()).as_str());
                    if *stashed {
                        let args = vec![owned("stash"), owned("pop")];
                        assert(text_views(args@) =~= pop_args());
                        (
                            UpdatePhase::RestoringAfterFailedSwitch { message: string_of(&m) },
                            UpdateStep::Run(args),
                        )
                    } else {
                        (UpdatePhase::Finished, finish(&self.name, UpdateStatus::Failed, m))
                    }
                } else {
                    let args = vec![owned("pull"), owned("--ff-only")];
                    assert(text_views(args@) =~= pull_args());
                    (
                        UpdatePhase::Pulling {
                            default: default.clone(),
                            current: current.clone(),
                            stashed: *stashed,
                        },
                        UpdateStep::Run(args),
                    )
                }
            },
            UpdatePhase::RestoringAfterFailedSwitch { message } => {
                (
                    UpdatePhase::Finished,
                    finish(&self.name, UpdateStatus::Failed, chars_of(message.as_str())),
                )
            },
            UpdatePhase::Pulling { default, current, stashed } => {
                let (st, m) = classify_pull(out.ok, out.stdout.as_str(), out.stderr.as_str());
                if *current != *default {
                    let args = vec![owned("checkout"), current.clone()];
                    assert(text_views(args@) =~= checkout_args(current@));
                    (
                        UpdatePhase::SwitchingBack {
                            default: default.clone(),
                            current: current.clone(),
                            stashed: *stashed,
                            status: st,
                            message: m,
                        },
                        UpdateStep::Run(args),
                    )
                } else {
                    unstash_or_finish_exec(&self.name, default.clone(), *stashed, st, m)
                }
            },
            UpdatePhase::SwitchingBack { default, current, stashed, status, message } => {
                if !out.ok {
                    let mut m = chars_of(default.as_str());
                    push_str(&mut m, " ");
                    push_str(&mut m, message.as_str());
                    push_str(&mut m, ", but failed to return to ");
                    push_str(&mut m, current.as_str());
                    push_str(&mut m, ": ");
                    push_str(&mut m, first_line(out.stderr.as_str()).as_str());
                    (UpdatePhase::Finished, finish(&self.name, UpdateStatus::Warning, m))
                } else {
                    unstash_or_finish_exec(
                        &self.name,
                        default.clone(),
                        *stashed,
                        *status,
                        message.clone(),
                    )
                }
            },
            UpdatePhase::Unstashing { default, status, message } => {
                if !out.ok {
                    let mut m = chars_of(default.as_str());
                    push_str(&mut m, " ");
                    push_str(&mut m, message.as_str());
                    push_str(
                        &mut m,
                        "; stashed changes NOT reapplied (conflict) — safe in `git stash`: ",
                    );
                    push_str(&mut m, first_line(out.stderr.as_str()).as_str());
                    (UpdatePhase::Finished, finish(&self.name, UpdateStatus::Warning, m))
                } else {
                    let mut m = chars_of(default.as_str());
                    push_str(&mut m, ": ");
                    push_str(&mut m, message.as_str());
                    (UpdatePhase::Finished, finish(&self.name, *status, m))
                }
            },
            UpdatePhase::Finished => (UpdatePhase::Finished, UpdateStep::Run(Vec::new())),
        };
        self.phase = phase;
        step
    }
}

// ---------------------------------------------------------------------------
// Laws of the update
// ---------------------------------------------------------------------------

/// The git calls an update makes after fetching: probing a default branch,
/// reading HEAD, checking for changes, stashing and restoring them,
/// checking out the default branch or the branch it started on, and
/// `pull --ff-only`.
pub open spec fn update_call_allowed(defaults: Seq<Seq<char>>, p: PhaseView, args: Seq<Seq<char>>) -> bool {
    ||| exists|i: int| 0 <= i < defaults.len() && args == probe_args(defaults[i])
    ||| args == head_args()
    ||| args == dirty_args()
    ||| args == stash_args()
    ||| args == pop_args()
    ||| args == pull_args()
    ||| match p {
        PhaseView::CheckingDirty { default, current } => args == checkout_args(default),
        PhaseView::Stashing { default, current } => args == checkout_args(default),
        PhaseView::Pulling { default, current, stashed } => args == checkout_args(current),
        _ => false,
    }
}

/// Every call an update asks for is one of [`update_call_allowed`]; in
/// particular a pull is always `git pull --ff-only`, so an update only ever
/// fast-forwards, and it only checks out the default branch or the branch
/// it started on.
pub proof fn lemma_update_calls_allowed(defaults: Seq<Seq<char>>, p: PhaseView, o: GitOut)
    requires
        phase_fits(defaults, p),
        !(p is Finished),
    ensures
        update_next(defaults, p, o).1 matches StepView::Run(args) ==> update_call_allowed(
            defaults,
            p,
            args,
        ),
        update_next(defaults, p, o).1 matches StepView::Run(args) ==> (args.len() > 0 && args[0]
            == "pull"@ ==> args == pull_args()),
{
    match p {
        PhaseView::Fetching => {
            if o.ok && defaults.len() > 0 {
                assert(probe_args(defaults[0]) == probe_args(defaults[0]));
            }
        },
        PhaseView::Probing { index } => {
            if !o.ok && index + 1 < defaults.len() {
                assert(probe_args(defaults[index + 1]) == probe_args(defaults[index + 1]));
            }
        },
        _ => {},
    }
    reveal_strlit("pull");
    reveal_strlit("rev-parse");
    reveal_strlit("symbolic-ref");
    reveal_strlit("status");
    reveal_strlit("stash");
    reveal_strlit("checkout");
    assert("rev-parse"@[0] != "pull"@[0]);
    assert("symbolic-ref"@[0] != "pull"@[0]);
    assert("rev-parse"@ != "pull"@);
    assert("symbolic-ref"@ != "pull"@);
    assert("status"@ != "pull"@);
    assert("stash"@ != "pull"@);
    assert("checkout"@ != "pull"@);
}

/// The update holds a stash of local changes that it has not yet asked git
/// to reapply.
pub open spec fn stash_held(p: PhaseView) -> bool {
    match p {
        PhaseView::SwitchingToDefault { stashed, .. } => stashed,
        PhaseView::Pulling { stashed, .. } => stashed,
        PhaseView::SwitchingBack { stashed, .. } => stashed,
        PhaseView::Unstashing { .. } => true,
        PhaseView::RestoringAfterFailedSwitch { .. } => true,
        _ => false,
    }
}

/// The update has left the branch it started on and not yet gone back.
pub open spec fn away_from_start(p: PhaseView) -> bool {
    match p {
        PhaseView::Pulling { default, current, .. } => current != default,
        PhaseView::SwitchingBack { .. } => true,
        _ => false,
    }
}

/// An update that ends updated, up to date or skipped leaves nothing behind:
/// a stash it held was just reapplied successfully, and if it had left the
/// starting branch it has just checked it out again (with no stash left to
/// reapply).
pub proof fn lemma_clean_finish(defaults: Seq<Seq<char>>, p: PhaseView, o: GitOut)
    requires
        phase_fits(defaults, p),
        !(p is Finished),
    ensures
        update_next(defaults, p, o).1 matches StepView::Finish(st, _) ==> (st
            == UpdateStatus::Updated || st == UpdateStatus::UpToDate || st
            == UpdateStatus::Skipped) ==> {
            &&& stash_held(p) ==> (p is Unstashing && o.ok)
            &&& away_from_start(p) ==> (p is SwitchingBack && o.ok && !stash_held(p))
        },
{
    match p {
        PhaseView::Pulling { default, current, stashed } => {
            let (st, m) = pull_result(o.ok, o.stdout, o.stderr);
        },
        _ => {},
    }
}

/// While an update holds a stash it keeps holding it until it asks git to
/// reapply it (or ends); it leaves its starting branch only by checking out
/// the default branch, and stays away until it asks to check out the
/// starting branch again (or ends).
pub proof fn lemma_obligations_kept(defaults: Seq<Seq<char>>, p: PhaseView, o: GitOut)
    requires
        phase_fits(defaults, p),
        !(p is Finished),
    ensures
        update_next(defaults, p, o).1 matches StepView::Run(args) ==> {
            let q = update_next(defaults, p, o).0;
            &&& stash_held(p) ==> (stash_held(q) || args == pop_args())
            &&& away_from_start(p) ==> (away_from_start(q) || args == pop_args() || (
            p matches PhaseView::Pulling { current, .. } && args == checkout_args(current)))
            &&& !away_from_start(p) && away_from_start(q) ==> p is SwitchingToDefault && o.ok
        },
{
}

/// An update asks git to reapply a stash (`git stash pop`) only while it
/// holds a stash of its own, and it comes to hold one only through a
/// successful `git stash push`. A run that never stashed (a clean working
/// tree) therefore never touches the user's stashes.
pub proof fn lemma_pop_only_own_stash(defaults: Seq<Seq<char>>, p: PhaseView, o: GitOut)
    ensures
        update_next(defaults, p, o).1 == StepView::Run(pop_args()) ==> stash_held(p),
        stash_held(update_next(defaults, p, o).0) && !stash_held(p) ==> (p is Stashing && o.ok),
        update_next(defaults, p, o).0 is Stashing ==> update_next(defaults, p, o).1
            == StepView::Run(stash_args()),
        update_next(defaults, p, o).1 == StepView::Run(stash_args()) ==> (p is CheckingDirty
            && !is_blank(o.stdout)),
        update_next(defaults, p, o).0 is CheckingDirty ==> update_next(defaults, p, o).1
            == StepView::Run(dirty_args()),
{
    reveal_strlit("stash");
    reveal_strlit("checkout");
    reveal_strlit("pull");
    reveal_strlit("status");
    assert("checkout"@[1] != "stash"@[1]);
    assert("checkout"@ != "stash"@);
    assert("pull"@ != "stash"@);
    assert("status"@[3] != "stash"@[3]);
    assert("status"@ != "stash"@);
    assert(dirty_args()[0] != pop_args()[0]);
    assert(head_args().len() != pop_args().len());
    assert(stash_args().len() != pop_args().len());
    assert(forall|x: Seq<char>| #[trigger] probe_args(x).len() != pop_args().len());
    let r = update_next(defaults, p, o);
    if r.1 == StepView::Run(pop_args()) {
        match p {
            PhaseView::SwitchingToDefault { default, current, stashed } => {
                if o.ok {
                    assert(pull_args()[0] != pop_args()[0]);
                }
            },
            PhaseView::Pulling { default, current, stashed } => {
                if current != default {
                    assert(checkout_args(current)[0] != pop_args()[0]);
                }
            },
            PhaseView::CheckingDirty { default, current } => {
                if is_blank(o.stdout) {
                    if current != default {
                        assert(checkout_args(default)[0] != pop_args()[0]);
                    } else {
                        assert(pull_args()[0] != pop_args()[0]);
                    }
                }
            },
            PhaseView::Stashing { default, current } => {
                if current != default {
                    assert(checkout_args(default)[0] != pop_args()[0]);
                } else {
                    assert(pull_args()[0] != pop_args()[0]);
                }
            },
            _ => {},
        }
    }
}

/// The phases and requests of an update that starts in phase `p` and is
/// handed the answers `outs`, one per request, in order: entry `k` is what
/// the update does with answer `k`.
pub open spec fn update_run(defaults: Seq<Seq<char>>, p: PhaseView, outs: Seq<GitOut>) -> Seq<
    (PhaseView, StepView),
>
    decreases outs.len(),
{
    if outs.len() == 0 {
        seq![]
    } else {
        let prev = update_run(defaults, p, outs.drop_last());
        let cur = if prev.len() == 0 {
            p
        } else {
            prev.last().0
        };
        prev.push(update_next(defaults, cur, outs.last()))
    }
}

/// Request `j` of a run was `git stash push …` and git answered it with
/// success.
pub open spec fn stashed_at(r: Seq<(PhaseView, StepView)>, outs: Seq<GitOut>, j: int) -> bool {
    r[j].1 == StepView::Run(stash_args()) && outs[j + 1].ok
}

proof fn lemma_update_run_facts(defaults: Seq<Seq<char>>, outs: Seq<GitOut>)
    ensures
        update_run(defaults, PhaseView::Fetching, outs).len() == outs.len(),
        forall|k: int|
            0 <= k < outs.len() && (#[trigger] update_run(defaults, PhaseView::Fetching, outs)[k]).0 is Stashing
                ==> update_run(defaults, PhaseView::Fetching, outs)[k].1 == StepView::Run(stash_args()),
        forall|k: int|
            0 <= k < outs.len() && stash_held(
                (#[trigger] update_run(defaults, PhaseView::Fetching, outs)[k]).0,
            ) ==> exists|j: int|
                0 <= j < k && stashed_at(update_run(defaults, PhaseView::Fetching, outs), outs, j),
        forall|k: int|
            0 <= k < outs.len() && (#[trigger] update_run(defaults, PhaseView::Fetching, outs)[k]).1
                == StepView::Run(pop_args()) ==> exists|j: int|
                0 <= j < k && stashed_at(update_run(defaults, PhaseView::Fetching, outs), outs, j),
    decreases outs.len(),
{
    let r = update_run(defaults, PhaseView::Fetching, outs);
    if outs.len() > 0 {
        let init = outs.drop_last();
        lemma_update_run_facts(defaults, init);
        let r0 = update_run(defaults, PhaseView::Fetching, init);
        let n = outs.len() - 1;
        let cur = if r0.len() == 0 {
            PhaseView::Fetching
        } else {
            r0.last().0
        };
        lemma_pop_only_own_stash(defaults, cur, outs.last());
        assert(r == r0.push(update_next(defaults, cur, outs.last())));
        assert forall|k: int| 0 <= k < n implies #[trigger] r[k] == r0[k] by {}
        assert forall|j: int| 0 <= j < n - 1 && #[trigger] stashed_at(r0, init, j) implies stashed_at(
            r,
            outs,
            j,
        ) by {
            assert(r[j] == r0[j]);
            assert(outs[j + 1] == init[j + 1]);
        }
        if n > 0 {
            assert(cur == r0[n - 1].0);
        }
        assert forall|k: int| 0 <= k < outs.len() && stash_held((#[trigger] r[k]).0) implies exists|j: int|
            0 <= j < k && stashed_at(r, outs, j) by {
            if k < n {
                assert(r0[k] == r[k]);
                let j = choose|j: int| 0 <= j < k && stashed_at(r0, init, j);
                assert(stashed_at(r, outs, j));
            } else if stash_held(cur) {
                assert(n > 0);
                let j = choose|j: int| 0 <= j < n - 1 && stashed_at(r0, init, j);
                assert(stashed_at(r, outs, j));
            } else {
                assert(n > 0);
                assert(r[n - 1] == r0[n - 1]);
                assert(outs[n] == outs.last());
                assert(stashed_at(r, outs, n - 1));
            }
        }
        assert forall|k: int| 0 <= k < outs.len() && (#[trigger] r[k]).1 == StepView::Run(pop_args()) implies exists|j: int|
            0 <= j < k && stashed_at(r, outs, j) by {
            if k < n {
                assert(r0[k] == r[k]);
                let j = choose|j: int| 0 <= j < k && stashed_at(r0, init, j);
                assert(stashed_at(r, outs, j));
            } else {
                assert(n > 0);
                let j = choose|j: int| 0 <= j < n - 1 && stashed_at(r0, init, j);
                assert(stashed_at(r, outs, j));
            }
        }
    }
}

/// An update asks git to reapply a stash (`git stash pop`) only after it
/// asked git to stash the local changes (`git stash push …`) and git did
/// so: an update of a clean working tree never pops the user's own stashes.
pub proof fn lemma_no_pop_without_own_stash(defaults: Seq<Seq<char>>, outs: Seq<GitOut>)
    ensures
        forall|k: int|
            0 <= k < outs.len() && (#[trigger] update_run(defaults, PhaseView::Fetching, outs)[k]).1
                == StepView::Run(pop_args()) ==> exists|j: int|
                0 <= j < k && update_run(defaults, PhaseView::Fetching, outs)[j].1 == StepView::Run(
                    stash_args(),
                ) && outs[j + 1].ok,
{
    lemma_update_run_facts(defaults, outs);
}

/// An update stashes local changes (`git stash push …`) only right after
/// `git status --porcelain` reported some: the request before it was that
/// status call and its answer was not blank.
pub proof fn lemma_stash_only_when_dirty(defaults: Seq<Seq<char>>, outs: Seq<GitOut>)
    ensures
        forall|k: int|
            0 <= k < outs.len() && (#[trigger] update_run(defaults, PhaseView::Fetching, outs)[k]).1
                == StepView::Run(stash_args()) ==> k > 0 && update_run(
                defaults,
                PhaseView::Fetching,
                outs,
            )[k - 1].1 == StepView::Run(dirty_args()) && !is_blank(outs[k].stdout),
    decreases outs.len(),
{
    lemma_update_run_facts(defaults, outs);
    let r = update_run(defaults, PhaseView::Fetching, outs);
    if outs.len() > 0 {
        let init = outs.drop_last();
        lemma_stash_only_when_dirty(defaults, init);
        lemma_update_run_facts(defaults, init);
        let r0 = update_run(defaults, PhaseView::Fetching, init);
        let n = outs.len() - 1;
        let cur = if r0.len() == 0 {
            PhaseView::Fetching
        } else {
            r0.last().0
        };
        lemma_pop_only_own_stash(defaults, cur, outs.last());
        assert(r == r0.push(update_next(defaults, cur, outs.last())));
        assert forall|k: int|
            0 <= k < outs.len() && (#[trigger] r[k]).1 == StepView::Run(stash_args()) implies k > 0
            && r[k - 1].1 == StepView::Run(dirty_args()) && !is_blank(outs[k].stdout) by {
            if k < n {
                assert(r[k] == r0[k]);
                assert(r[k - 1] == r0[k - 1]);
                assert(outs[k] == init[k]);
            } else {
                assert(n > 0);
                assert(cur == r0[n - 1].0);
                assert(r[n - 1] == r0[n - 1]);
                let p0 = if n - 1 == 0 { PhaseView::Fetching } else { r0[n - 2].0 };
                lemma_pop_only_own_stash(defaults, p0, init.last());
                if n - 1 > 0 {
                    assert(r0 == update_run(defaults, PhaseView::Fetching, init.drop_last()).push(
                        update_next(defaults, p0, init.last()),
                    ));
                }
            }
        }
    }
}

/// A measure that every step of an update decreases: an update makes at
/// most `defaults.len() + 9` calls.
pub open spec fn phase_measure(defaults: Seq<Seq<char>>, p: PhaseView) -> int {
    match p {
        PhaseView::Fetching => defaults.len() as int + 9,
        PhaseView::Probing { index } => defaults.len() - index + 8,
        PhaseView::ReadingHead { .. } => 8,
        PhaseView::CheckingDirty { .. } => 7,
        PhaseView::Stashing { .. } => 6,
        PhaseView::SwitchingToDefault { .. } => 5,
        PhaseView::Pulling { .. } => 4,
        PhaseView::SwitchingBack { .. } => 3,
        PhaseView::Unstashing { .. } => 2,
        PhaseView::RestoringAfterFailedSwitch { .. } => 2,
        PhaseView::Finished => 0,
    }
}

/// Every step of an update brings it closer to its end.
pub proof fn lemma_update_terminates(defaults: Seq<Seq<char>>, p: PhaseView, o: GitOut)
    requires
        phase_fits(defaults, p),
        !(p is Finished),
    ensures
        0 <= phase_measure(defaults, update_next(defaults, p, o).0) < phase_measure(defaults, p),
        phase_fits(defaults, update_next(defaults, p, o).0),
        update_next(defaults, p, o).0 is Finished <==> update_next(defaults, p, o).1 is Finish,
{
}

} // verus!
