//! The interactive interface's state machine: which screen is shown, and
//! what each key press and each tick of the clock does.
//!
//! Work that needs the outside world (scanning, reading a project's
//! branches, updating, pruning, deleting) is not done here: a key press
//! hands back an [`Effect`] naming the work, and its results come back
//! through [`App::show_detail`], [`App::record_deletion`] and
//! [`App::on_tick`].
use vstd::prelude::*;
use crate::branches::{branches_of_lines, order_branches, parse_branches};
use crate::split::lines;
use crate::config::Config;
use crate::numbers::{decimal, decimal_of};
use crate::prune::{DeleteResult, DeleteView, PruneScanMsg};
use crate::repo::{Project, ProjectView};
use crate::report::{project_targets, target_views, targets_of};
use crate::scan::ScanMsg;
use crate::states::{
    all_ticked, deletion_views, features, prune_drained, projects_drained, sel_next, sel_prev,
    ticked, ticked_deletions, update_drained, CandidateRow, Deletion, DetailState, DetailView,
    HomeState, ProjectsState, ProjectsView, PrunePhase, PruneState, PruneView, RowStateView,
    RowView, Screen, UpdateState, UpdateView,
};
use crate::text::{
    chars_of, copy_texts, push_chars, push_str, same_chars, string_of, text_views,
};
use crate::update::UpdateMsg;

verus! {

broadcast use vstd::seq::group_seq_axioms;

/// A key press, as far as the interface tells keys apart.
#[derive(Clone, Copy, Debug, PartialEq, Eq, Structural)]
pub enum Key {
    Char(char),
    Esc,
    Enter,
    Up,
    Down,
    /// Ctrl-C.
    Interrupt,
    Other,
}

/// Work that a key press asks for.
pub enum Effect {
    Nothing,
    /// Scan the configured roots for projects.
    Scan,
    /// Read this project's branches and show its detail panel
    /// ([`App::show_detail`]).
    LoadDetail(Project),
    /// Update these `(name, path)` targets.
    Update(Vec<(String, String)>),
    /// Look for prunable branches in these `(name, path)` targets.
    Prune(Vec<(String, String)>),
    /// Delete these branches ([`App::record_deletion`] takes each result).
    Delete(Vec<Deletion>),
}

pub enum EffectView {
    Nothing,
    Scan,
    LoadDetail(ProjectView),
    Update(Seq<(Seq<char>, Seq<char>)>),
    Prune(Seq<(Seq<char>, Seq<char>)>),
    Delete(Seq<(usize, Seq<char>, Seq<char>)>),
}

impl View for Effect {
    type V = EffectView;

    open spec fn view(&self) -> EffectView {
        match self {
            Effect::Nothing => EffectView::Nothing,
            Effect::Scan => EffectView::Scan,
            Effect::LoadDetail(p) => EffectView::LoadDetail(p@),
            Effect::Update(t) => EffectView::Update(target_views(t@)),
            Effect::Prune(t) => EffectView::Prune(target_views(t@)),
            Effect::Delete(d) => EffectView::Delete(deletion_views(d@)),
        }
    }
}

/// Where the background check for a newer release stands at a tick.
pub enum ReleasePoll {
    /// The check has answered: a newer version, or none.
    Ready(Option<String>),
    /// No answer yet.
    Pending,
    /// The check went away without answering.
    Gone,
}

pub struct App {
    pub cfg: Config,
    pub screen: Screen,
    pub should_quit: bool,
    /// Monotonic frame counter, used to animate spinners.
    pub tick: u64,
    pub home: HomeState,
    pub projects: ProjectsState,
    pub detail: Option<DetailState>,
    pub update: Option<UpdateState>,
    pub prune: Option<PruneState>,
    pub show_help: bool,
    pub update_available: Option<String>,
    /// The release check has not answered yet.
    pub awaiting_release: bool,
}

pub struct AppView {
    pub roots: Seq<Seq<char>>,
    pub defaults: Seq<Seq<char>>,
    pub screen: Screen,
    pub should_quit: bool,
    pub tick: u64,
    pub home: usize,
    pub projects: ProjectsView,
    pub detail: Option<DetailView>,
    pub update: Option<UpdateView>,
    pub prune: Option<PruneView>,
    pub show_help: bool,
    pub update_available: Option<Seq<char>>,
    pub awaiting_release: bool,
}

impl View for App {
    type V = AppView;

    open spec fn view(&self) -> AppView {
        AppView {
            roots: text_views(self.cfg.roots@),
            defaults: text_views(self.cfg.default_branches@),
            screen: self.screen,
            should_quit: self.should_quit,
            tick: self.tick,
            home: self.home.selected,
            projects: self.projects@,
            detail: match self.detail {
                Some(d) => Some(d@),
                None => None,
            },
            update: match self.update {
                Some(u) => Some(u@),
                None => None,
            },
            prune: match self.prune {
                Some(p) => Some(p@),
                None => None,
            },
            show_help: self.show_help,
            update_available: match self.update_available {
                Some(s) => Some(s@),
                None => None,
            },
            awaiting_release: self.awaiting_release,
        }
    }
}

// ---------------------------------------------------------------------------
// What each action does
// ---------------------------------------------------------------------------

pub open spec fn quit(a: AppView) -> (AppView, EffectView) {
    (AppView { should_quit: true, ..a }, EffectView::Nothing)
}

pub open spec fn unchanged(a: AppView) -> (AppView, EffectView) {
    (a, EffectView::Nothing)
}

pub open spec fn scan_started(p: ProjectsView) -> ProjectsView {
    ProjectsView { projects: seq![], selected: None, scanning: true, receiving: true, started: true }
}

/// Open the highlighted feature: Projects, scanning the first time it is
/// opened.
pub open spec fn open_feature(a: AppView) -> (AppView, EffectView) {
    if a.home == 0 {
        if a.projects.projects.len() == 0 && !a.projects.receiving && !a.projects.started {
            (
                AppView { screen: Screen::Projects, projects: scan_started(a.projects), ..a },
                EffectView::Scan,
            )
        } else {
            (AppView { screen: Screen::Projects, ..a }, EffectView::Nothing)
        }
    } else {
        unchanged(a)
    }
}

/// Open the highlighted project's detail panel (once its branches are read).
pub open spec fn open_project(a: AppView) -> (AppView, EffectView) {
    match a.projects.selected {
        Some(i) if i < a.projects.projects.len() => (
            a,
            EffectView::LoadDetail(a.projects.projects[i as int]),
        ),
        _ => unchanged(a),
    }
}

/// The progress screen of a fresh update of `targets`.
pub open spec fn update_started(
    title: Seq<char>,
    targets: Seq<(Seq<char>, Seq<char>)>,
    origin: Screen,
) -> UpdateView {
    UpdateView {
        title,
        rows: targets.map_values(
            |t: (Seq<char>, Seq<char>)| RowView { name: t.0, state: RowStateView::Pending },
        ),
        selected: Some(0usize),
        origin,
        running: true,
        receiving: true,
    }
}

/// The checklist of a fresh prune scan.
pub open spec fn prune_started(title: Seq<char>, origin: Screen) -> PruneView {
    PruneView {
        title,
        phase: PrunePhase::Collecting,
        candidates: seq![],
        selected: None,
        origin,
        confirm: false,
        receiving: true,
    }
}

/// Update every listed project (nothing when none is listed).
pub open spec fn update_all(a: AppView) -> (AppView, EffectView) {
    let ts = targets_of(a.projects.projects);
    if ts.len() == 0 {
        unchanged(a)
    } else {
        (
            AppView {
                update: Some(
                    update_started(
                        "Updating "@ + decimal(ts.len()) + " projects"@,
                        ts,
                        Screen::Projects,
                    ),
                ),
                screen: Screen::Update,
                ..a
            },
            EffectView::Update(ts),
        )
    }
}

/// Update the project whose detail is open.
pub open spec fn update_current(a: AppView) -> (AppView, EffectView) {
    match a.detail {
        Some(d) => {
            let t = (d.project.name, d.project.path);
            (
                AppView {
                    update: Some(
                        update_started("Updating "@ + t.0, seq![t], Screen::ProjectDetail),
                    ),
                    screen: Screen::Update,
                    ..a
                },
                EffectView::Update(seq![t]),
            )
        },
        None => unchanged(a),
    }
}

/// Look for prunable branches in every listed project.
pub open spec fn prune_all(a: AppView) -> (AppView, EffectView) {
    let ts = targets_of(a.projects.projects);
    if ts.len() == 0 {
        unchanged(a)
    } else {
        (
            AppView {
                prune: Some(
                    prune_started(
                        "Prune merged · "@ + decimal(ts.len()) + " projects"@,
                        Screen::Projects,
                    ),
                ),
                screen: Screen::Prune,
                ..a
            },
            EffectView::Prune(ts),
        )
    }
}

/// Look for prunable branches in the project whose detail is open.
pub open spec fn prune_current(a: AppView) -> (AppView, EffectView) {
    match a.detail {
        Some(d) => {
            let t = (d.project.name, d.project.path);
            (
                AppView {
                    prune: Some(prune_started("Prune merged · "@ + t.0, Screen::ProjectDetail)),
                    screen: Screen::Prune,
                    ..a
                },
                EffectView::Prune(seq![t]),
            )
        },
        None => unchanged(a),
    }
}

/// Go back to `origin` (the dashboard when there is none), refreshing what
/// it shows when `refresh` is set.
pub open spec fn return_to(a: AppView, target: Option<(Screen, bool)>) -> (AppView, EffectView) {
    match target {
        None => (AppView { screen: Screen::Projects, ..a }, EffectView::Nothing),
        Some((origin, refresh)) => if origin == Screen::ProjectDetail {
            let b = AppView { screen: Screen::ProjectDetail, ..a };
            match a.detail {
                Some(d) if refresh => (b, EffectView::LoadDetail(d.project)),
                _ => (b, EffectView::Nothing),
            }
        } else {
            let b = AppView { screen: Screen::Projects, ..a };
            if refresh {
                (AppView { projects: scan_started(a.projects), ..b }, EffectView::Scan)
            } else {
                (b, EffectView::Nothing)
            }
        },
    }
}

/// Leave the update screen; the origin is refreshed if the update had
/// finished.
pub open spec fn finish_update(a: AppView) -> (AppView, EffectView) {
    let b = AppView { update: None, ..a };
    return_to(
        b,
        match a.update {
            Some(u) => Some((u.origin, !u.running)),
            None => None,
        },
    )
}

/// Leave the prune screen; branches may have changed, so the origin is
/// always refreshed.
pub open spec fn finish_prune(a: AppView) -> (AppView, EffectView) {
    let b = AppView { prune: None, ..a };
    return_to(
        b,
        match a.prune {
            Some(p) => Some((p.origin, true)),
            None => None,
        },
    )
}

pub open spec fn with_prune(a: AppView, p: PruneView) -> (AppView, EffectView) {
    (AppView { prune: Some(p), ..a }, EffectView::Nothing)
}

/// A key press on the prune screen.
pub open spec fn prune_key(a: AppView, k: Key) -> (AppView, EffectView) {
    match a.prune {
        None => unchanged(a),
        Some(p) => {
            let review = p.phase == PrunePhase::Review && !p.confirm;
            if k == Key::Char('q') {
                quit(a)
            } else if k == Key::Up || k == Key::Char('k') {
                with_prune(a, PruneView { selected: sel_prev(p.selected, p.candidates.len()), ..p })
            } else if k == Key::Down || k == Key::Char('j') {
                with_prune(a, PruneView { selected: sel_next(p.selected, p.candidates.len()), ..p })
            } else if k == Key::Char(' ') && review {
                with_prune(
                    a,
                    match p.selected {
                        Some(i) if i < p.candidates.len() => PruneView {
                            candidates: p.candidates.update(
                                i as int,
                                CandidateRow {
                                    selected: !p.candidates[i as int].selected,
                                    ..p.candidates[i as int]
                                },
                            ),
                            ..p
                        },
                        _ => p,
                    },
                )
            } else if k == Key::Char('a') && review {
                with_prune(
                    a,
                    PruneView {
                        candidates: all_ticked(
                            p.candidates,
                            !(forall|i: int|
                                0 <= i < p.candidates.len() ==> #[trigger] p.candidates[i].selected),
                        ),
                        ..p
                    },
                )
            } else if (k == Key::Char('d') || k == Key::Enter) && review {
                if ticked(p.candidates) > 0 {
                    with_prune(a, PruneView { confirm: true, ..p })
                } else {
                    with_prune(a, p)
                }
            } else if (k == Key::Char('y') || k == Key::Enter) && p.confirm {
                (
                    AppView {
                        prune: Some(PruneView { confirm: false, phase: PrunePhase::Done, ..p }),
                        ..a
                    },
                    EffectView::Delete(ticked_deletions(p.candidates, p.candidates.len() as int)),
                )
            } else if k == Key::Char('n') && p.confirm {
                with_prune(a, PruneView { confirm: false, ..p })
            } else if k == Key::Esc {
                if p.confirm {
                    with_prune(a, PruneView { confirm: false, ..p })
                } else {
                    finish_prune(a)
                }
            } else {
                unchanged(a)
            }
        },
    }
}

/// What a key press does.
pub open spec fn app_key(a: AppView, k: Key) -> (AppView, EffectView) {
    if k == Key::Interrupt {
        quit(a)
    } else if k == Key::Char('?') {
        (AppView { show_help: !a.show_help, ..a }, EffectView::Nothing)
    } else if a.show_help {
        if k == Key::Esc {
            (AppView { show_help: false, ..a }, EffectView::Nothing)
        } else if k == Key::Char('q') {
            quit(a)
        } else {
            unchanged(a)
        }
    } else {
        match a.screen {
            Screen::Home => if k == Key::Char('q') || k == Key::Esc {
                quit(a)
            } else if k == Key::Up || k == Key::Char('k') {
                (AppView { home: sel_prev(Some(a.home), 1).unwrap(), ..a }, EffectView::Nothing)
            } else if k == Key::Down || k == Key::Char('j') {
                (AppView { home: sel_next(Some(a.home), 1).unwrap(), ..a }, EffectView::Nothing)
            } else if k == Key::Enter {
                open_feature(a)
            } else {
                unchanged(a)
            },
            Screen::Projects => if k == Key::Char('q') {
                quit(a)
            } else if k == Key::Esc {
                (AppView { screen: Screen::Home, ..a }, EffectView::Nothing)
            } else if k == Key::Up || k == Key::Char('k') {
                (
                    AppView {
                        projects: ProjectsView {
                            selected: sel_prev(a.projects.selected, a.projects.projects.len()),
                            ..a.projects
                        },
                        ..a
                    },
                    EffectView::Nothing,
                )
            } else if k == Key::Down || k == Key::Char('j') {
                (
                    AppView {
                        projects: ProjectsView {
                            selected: sel_next(a.projects.selected, a.projects.projects.len()),
                            ..a.projects
                        },
                        ..a
                    },
                    EffectView::Nothing,
                )
            } else if k == Key::Enter {
                open_project(a)
            } else if k == Key::Char('r') {
                (AppView { projects: scan_started(a.projects), ..a }, EffectView::Scan)
            } else if k == Key::Char('u') {
                update_all(a)
            } else if k == Key::Char('p') {
                prune_all(a)
            } else {
                unchanged(a)
            },
            Screen::ProjectDetail => if k == Key::Char('q') {
                quit(a)
            } else if k == Key::Esc {
                (AppView { screen: Screen::Projects, detail: None, ..a }, EffectView::Nothing)
            } else if k == Key::Up || k == Key::Char('k') {
                (
                    AppView {
                        detail: match a.detail {
                            Some(d) => Some(
                                DetailView { selected: sel_prev(d.selected, d.branches.len()), ..d },
                            ),
                            None => None,
                        },
                        ..a
                    },
                    EffectView::Nothing,
                )
            } else if k == Key::Down || k == Key::Char('j') {
                (
                    AppView {
                        detail: match a.detail {
                            Some(d) => Some(
                                DetailView { selected: sel_next(d.selected, d.branches.len()), ..d },
                            ),
                            None => None,
                        },
                        ..a
                    },
                    EffectView::Nothing,
                )
            } else if k == Key::Char('u') {
                update_current(a)
            } else if k == Key::Char('p') {
                prune_current(a)
            } else {
                unchanged(a)
            },
            Screen::Update => if k == Key::Char('q') {
                quit(a)
            } else if k == Key::Esc {
                finish_update(a)
            } else if k == Key::Up || k == Key::Char('k') {
                (
                    AppView {
                        update: match a.update {
                            Some(u) => Some(
                                UpdateView { selected: sel_prev(u.selected, u.rows.len()), ..u },
                            ),
                            None => None,
                        },
                        ..a
                    },
                    EffectView::Nothing,
                )
            } else if k == Key::Down || k == Key::Char('j') {
                (
                    AppView {
                        update: match a.update {
                            Some(u) => Some(
                                UpdateView { selected: sel_next(u.selected, u.rows.len()), ..u },
                            ),
                            None => None,
                        },
                        ..a
                    },
                    EffectView::Nothing,
                )
            } else {
                unchanged(a)
            },
            Screen::Prune => prune_key(a, k),
        }
    }
}

/// The detail panel of `project`, with the branches that a listing of
/// `git for-each-ref` (see [`crate::branches::branches_args`]) names, in
/// listing order.
pub open spec fn detail_shown(a: AppView, project: ProjectView, listing: Seq<char>) -> AppView {
    let bs = order_branches(branches_of_lines(lines(listing)), a.defaults);
    AppView {
        detail: Some(
            DetailView {
                project,
                branches: bs,
                selected: if bs.len() > 0 {
                    Some(0usize)
                } else {
                    None
                },
                defaults: a.defaults,
            },
        ),
        screen: Screen::ProjectDetail,
        ..a
    }
}

/// The prune checklist after deleting candidate `index` gave `r`. Results
/// are only taken once the deletion has been confirmed (the checklist is
/// done), and only for a ticked candidate.
pub open spec fn deletion_recorded(a: AppView, index: usize, r: DeleteView) -> AppView {
    match a.prune {
        Some(p) => if p.phase == PrunePhase::Done && index < p.candidates.len()
            && p.candidates[index as int].selected {
            AppView {
                prune: Some(
                    PruneView {
                        candidates: p.candidates.update(
                            index as int,
                            CandidateRow { result: Some(r), ..p.candidates[index as int] },
                        ),
                        ..p
                    },
                ),
                ..a
            }
        } else {
            a
        },
        None => a,
    }
}

/// The frame counter after one more frame (it wraps around).
pub open spec fn next_tick(t: u64) -> u64 {
    if t == u64::MAX {
        0
    } else {
        (t + 1) as u64
    }
}

/// What the release check's answer makes of `(update_available,
/// awaiting_release)`.
pub open spec fn release_seen(
    avail: Option<Seq<char>>,
    awaiting: bool,
    poll: ReleasePoll,
) -> (Option<Seq<char>>, bool) {
    if !awaiting {
        (avail, false)
    } else {
        match poll {
            ReleasePoll::Ready(r) => (
                match r {
                    Some(v) => Some(v@),
                    None => None,
                },
                false,
            ),
            ReleasePoll::Pending => (avail, true),
            ReleasePoll::Gone => (avail, false),
        }
    }
}

/// One tick of the clock: the frame counter moves on, and every screen
/// takes what its background work has sent since the last tick.
pub open spec fn app_tick(
    a: AppView,
    scan: Seq<ScanMsg>,
    upd: Seq<UpdateMsg>,
    prune: Seq<PruneScanMsg>,
    poll: ReleasePoll,
) -> AppView {
    let r = release_seen(a.update_available, a.awaiting_release, poll);
    AppView {
        tick: next_tick(a.tick),
        projects: projects_drained(a.projects, scan),
        update: match a.update {
            Some(u) => Some(update_drained(u, upd)),
            None => None,
        },
        prune: match a.prune {
            Some(p) => Some(prune_drained(p, prune)),
            None => None,
        },
        update_available: r.0,
        awaiting_release: r.1,
        ..a
    }
}

// ---------------------------------------------------------------------------
// Laws of the key map
// ---------------------------------------------------------------------------

/// Ctrl-C quits from every screen and state, and asks for no work.
pub proof fn lemma_interrupt_quits(a: AppView)
    ensures
        app_key(a, Key::Interrupt) == quit(a),
{
}

/// `?` toggles the help overlay and changes nothing else; pressed twice it
/// leaves the interface as it was.
pub proof fn lemma_help_toggles(a: AppView)
    ensures
        app_key(a, Key::Char('?')) == (
        AppView { show_help: !a.show_help, ..a },
        EffectView::Nothing,
        ),
        app_key(app_key(a, Key::Char('?')).0, Key::Char('?')).0 == a,
{
}

/// While the help overlay is open it swallows every key but Esc, `q`, `?`
/// and Ctrl-C: nothing happens behind it.
pub proof fn lemma_help_swallows_keys(a: AppView, k: Key)
    requires
        a.show_help,
        k != Key::Esc,
        k != Key::Char('q'),
        k != Key::Char('?'),
        k != Key::Interrupt,
    ensures
        app_key(a, k) == unchanged(a),
{
}

/// No key press takes back a request to quit.
pub proof fn lemma_quit_is_final(a: AppView, k: Key)
    requires
        a.should_quit,
    ensures
        app_key(a, k).0.should_quit,
{
}

/// Branches are deleted only from the prune screen, after the deletion was
/// confirmed, with `y` or Enter, and then exactly the ticked candidates.
pub proof fn lemma_delete_needs_confirmation(a: AppView, k: Key)
    requires
        app_key(a, k).1 is Delete,
    ensures
        a.screen == Screen::Prune,
        !a.show_help,
        k == Key::Char('y') || k == Key::Enter,
        a.prune matches Some(p) && p.confirm && app_key(a, k).1 == EffectView::Delete(
            ticked_deletions(p.candidates, p.candidates.len() as int),
        ),
{
}

/// The checklist reaches its done state, the only state in which deletion
/// results are taken ([`deletion_recorded`]), only from the confirmation
/// step, with `y` or Enter.
pub proof fn lemma_done_needs_confirmation(a: AppView, k: Key)
    requires
        !(a.prune matches Some(p) && p.phase == PrunePhase::Done),
        app_key(a, k).0.prune matches Some(q) && q.phase == PrunePhase::Done,
    ensures
        a.screen == Screen::Prune,
        k == Key::Char('y') || k == Key::Enter,
        a.prune matches Some(p) && p.confirm,
{
}

/// No key press records a deletion result: results are only taken through
/// [`App::record_deletion`].
pub proof fn lemma_keys_keep_results(a: AppView, k: Key)
    requires
        a.prune is Some,
        app_key(a, k).0.prune is Some,
    ensures
        ({
            let p = a.prune->0;
            let q = app_key(a, k).0.prune->0;
            forall|i: int|
                0 <= i < p.candidates.len() && i < q.candidates.len() ==> #[trigger] q.candidates[i].result
                    == p.candidates[i].result
        }),
{
    let p = a.prune->0;
    let q = app_key(a, k).0.prune->0;
    assert forall|i: int|
        0 <= i < p.candidates.len() && i < q.candidates.len() implies #[trigger] q.candidates[i].result
        == p.candidates[i].result by {
    }
}

/// A tick of the clock never completes a deletion checklist.
pub proof fn lemma_tick_never_confirms(
    a: AppView,
    scan: Seq<ScanMsg>,
    upd: Seq<UpdateMsg>,
    prune: Seq<PruneScanMsg>,
    poll: ReleasePoll,
)
    requires
        app_tick(a, scan, upd, prune, poll).prune matches Some(q) && q.phase == PrunePhase::Done,
    ensures
        a.prune matches Some(p) && p.phase == PrunePhase::Done,
{
}

/// Taking a deletion result changes nothing unless the checklist is done
/// and the candidate ticked.
pub proof fn lemma_results_need_done(a: AppView, index: usize, r: DeleteView)
    requires
        deletion_recorded(a, index, r) != a,
    ensures
        a.prune matches Some(p) && p.phase == PrunePhase::Done && index < p.candidates.len()
            && p.candidates[index as int].selected,
{
}

/// The deletion is put to the user only when at least one candidate is
/// ticked.
pub proof fn lemma_confirm_needs_ticked(a: AppView, k: Key)
    requires
        app_key(a, k).0.prune matches Some(q) && q.confirm,
        !(a.prune matches Some(p) && p.confirm),
    ensures
        a.prune matches Some(p) && ticked(p.candidates) > 0,
{
}

// ---------------------------------------------------------------------------

fn titled(prefix: &str, middle: &Vec<char>, suffix: &str) -> (res: String)
    ensures
        res@ == prefix@ + middle@ + suffix@,
{
    let mut v = chars_of(prefix);
    push_chars(&mut v, middle);
    push_str(&mut v, suffix);
    string_of(&v)
}

impl App {
    pub fn new(cfg: Config) -> (res: App)
        ensures
            res.cfg == cfg,
            res@.screen == Screen::Home,
            !res@.should_quit,
            res@.tick == 0,
            res@.home == 0,
            res@.projects == (ProjectsView {
                projects: seq![],
                selected: None,
                scanning: false,
                receiving: false,
                started: false,
            }),
            res@.detail is None,
            res@.update is None,
            res@.prune is None,
            !res@.show_help,
            res@.update_available is None,
            res@.awaiting_release,
    {
        App {
            cfg,
            screen: Screen::Home,
            should_quit: false,
            tick: 0,
            home: HomeState::new(),
            projects: ProjectsState::new(),
            detail: None,
            update: None,
            prune: None,
            show_help: false,
            update_available: None,
            awaiting_release: true,
        }
    }

    fn open_selected_feature(&mut self) -> (res: Effect)
        ensures
            (final(self)@, res@) == open_feature(old(self)@),
            final(self).cfg == old(self).cfg,
    {
        let fs = features();
        if self.home.selected < fs.len() {
            let key = chars_of(fs[self.home.selected].key);
            if same_chars(&key, &chars_of("projects")) {
                self.screen = Screen::Projects;
                if self.projects.is_empty() {
                    self.projects.start_scan();
                    return Effect::Scan;
                }
            }
        }
        Effect::Nothing
    }

    fn open_selected_project(&self) -> (res: Effect)
        ensures
            (self@, res@) == open_project(self@),
    {
        match self.projects.selected {
            Some(i) => {
                if i < self.projects.projects.len() {
                    Effect::LoadDetail(self.projects.projects[i].duplicate())
                } else {
                    Effect::Nothing
                }
            },
            None => Effect::Nothing,
        }
    }

    fn start_update_all(&mut self) -> (res: Effect)
        ensures
            (final(self)@, res@) == update_all(old(self)@),
            final(self).cfg == old(self).cfg,
    {
        let targets = project_targets(&self.projects.projects);
        if targets.len() == 0 {
            return Effect::Nothing;
        }
        let title = titled("Updating ", &decimal_of(targets.len() as u64), " projects");
        let state = UpdateState::start(title, &targets, Screen::Projects);
        self.update = Some(state);
        self.screen = Screen::Update;
        Effect::Update(targets)
    }

    fn current_target(&self) -> (res: Option<(String, String)>)
        ensures
            match self@.detail {
                Some(d) => res matches Some(t) && (t.0@, t.1@) == (d.project.name, d.project.path),
                None => res is None,
            },
    {
        match &self.detail {
            Some(d) => Some((d.project.name.clone(), d.project.path.clone())),
            None => None,
        }
    }

    fn start_update_current(&mut self) -> (res: Effect)
        ensures
            (final(self)@, res@) == update_current(old(self)@),
            final(self).cfg == old(self).cfg,
    {
        match self.current_target() {
            Some(t) => {
                let title = titled("Updating ", &chars_of(t.0.as_str()), "");
                proof {
                    reveal_strlit("");
                }
                let targets = vec![t];
                let state = UpdateState::start(title, &targets, Screen::ProjectDetail);
                assert(target_views(targets@) =~= seq![(t.0@, t.1@)]);
                self.update = Some(state);
                self.screen = Screen::Update;
                proof {
                    assert(self@.update->0.title =~= "Updating "@ + t.0@);
                }
                Effect::Update(targets)
            },
            None => Effect::Nothing,
        }
    }

    fn start_prune_all(&mut self) -> (res: Effect)
        ensures
            (final(self)@, res@) == prune_all(old(self)@),
            final(self).cfg == old(self).cfg,
    {
        let targets = project_targets(&self.projects.projects);
        if targets.len() == 0 {
            return Effect::Nothing;
        }
        let title = titled("Prune merged · ", &decimal_of(targets.len() as u64), " projects");
        self.prune = Some(PruneState::start(title, Screen::Projects));
        self.screen = Screen::Prune;
        Effect::Prune(targets)
    }

    fn start_prune_current(&mut self) -> (res: Effect)
        ensures
            (final(self)@, res@) == prune_current(old(self)@),
            final(self).cfg == old(self).cfg,
    {
        match self.current_target() {
            Some(t) => {
                let title = titled("Prune merged · ", &chars_of(t.0.as_str()), "");
                proof {
                    reveal_strlit("");
                }
                assert(title@ =~= "Prune merged · "@ + t.0@);
                self.prune = Some(PruneState::start(title, Screen::ProjectDetail));
                self.screen = Screen::Prune;
                let targets = vec![t];
                assert(target_views(targets@) =~= seq![(t.0@, t.1@)]);
                Effect::Prune(targets)
            },
            None => Effect::Nothing,
        }
    }

    fn return_to(&mut self, target: Option<(Screen, bool)>) -> (res: Effect)
        ensures
            (final(self)@, res@) == return_to(old(self)@, target),
            final(self).cfg == old(self).cfg,
    {
        match target {
            None => {
                self.screen = Screen::Projects;
                Effect::Nothing
            },
            Some((origin, refresh)) => {
                if origin == Screen::ProjectDetail {
                    self.screen = Screen::ProjectDetail;
                    if refresh {
                        match &self.detail {
                            Some(d) => Effect::LoadDetail(d.project.duplicate()),
                            None => Effect::Nothing,
                        }
                    } else {
                        Effect::Nothing
                    }
                } else {
                    self.screen = Screen::Projects;
                    if refresh {
                        self.projects.start_scan();
                        Effect::Scan
                    } else {
                        Effect::Nothing
                    }
                }
            },
        }
    }

    fn finish_update(&mut self) -> (res: Effect)
        ensures
            (final(self)@, res@) == finish_update(old(self)@),
            final(self).cfg == old(self).cfg,
    {
        let info = match &self.update {
            Some(u) => Some((u.origin, !u.running)),
            None => None,
        };
        self.update = None;
        self.return_to(info)
    }

    fn finish_prune(&mut self) -> (res: Effect)
        ensures
            (final(self)@, res@) == finish_prune(old(self)@),
            final(self).cfg == old(self).cfg,
    {
        let origin = match &self.prune {
            Some(p) => Some((p.origin, true)),
            None => None,
        };
        self.prune = None;
        self.return_to(origin)
    }

    fn on_prune_key(&mut self, key: Key) -> (res: Effect)
        ensures
            (final(self)@, res@) == prune_key(old(self)@, key),
            final(self).cfg == old(self).cfg,
            res@ is Delete ==> (key == Key::Char('y') || key == Key::Enter)
                && (old(self)@.prune matches Some(p) && p.confirm),
            old(self)@.prune is Some && final(self)@.prune is Some ==> forall|i: int|
                0 <= i < old(self)@.prune->0.candidates.len()
                    && i < final(self)@.prune->0.candidates.len()
                    ==> #[trigger] final(self)@.prune->0.candidates[i].result
                    == old(self)@.prune->0.candidates[i].result,
    {
        let (phase, confirm) = match &self.prune {
            Some(p) => (p.phase, p.confirm),
            None => {
                return Effect::Nothing;
            },
        };
        let review = phase == PrunePhase::Review && !confirm;
        if key == Key::Char('q') {
            self.should_quit = true;
            return Effect::Nothing;
        }
        let mut p = self.prune.take().unwrap();
        let mut effect = Effect::Nothing;
        let mut finish = false;
        if key == Key::Up || key == Key::Char('k') {
            p.prev();
        } else if key == Key::Down || key == Key::Char('j') {
            p.next();
        } else if key == Key::Char(' ') && review {
            p.toggle_selected();
        } else if key == Key::Char('a') && review {
            p.toggle_all();
        } else if (key == Key::Char('d') || key == Key::Enter) && review {
            if p.selected_count() > 0 {
                p.confirm = true;
            }
        } else if (key == Key::Char('y') || key == Key::Enter) && confirm {
            effect = Effect::Delete(p.execute());
        } else if key == Key::Char('n') && confirm {
            p.confirm = false;
        } else if key == Key::Esc {
            if confirm {
                p.confirm = false;
            } else {
                finish = true;
            }
        }
        self.prune = Some(p);
        if finish {
            return self.finish_prune();
        }
        effect
    }

    /// Shows the detail panel of `project`, whose branches `listing` (the
    /// output of `git for-each-ref`, empty when it failed) names.
    pub fn show_detail(&mut self, project: Project, listing: &str)
        ensures
            final(self)@ == detail_shown(old(self)@, project@, listing@),
            final(self).cfg == old(self).cfg,
    {
        let branches = parse_branches(listing, &self.cfg.default_branches);
        let defaults = copy_texts(&self.cfg.default_branches);
        self.detail = Some(DetailState::new(project, branches, defaults));
        self.screen = Screen::ProjectDetail;
    }

    /// Records how deleting the prune candidate at `index` went.
    pub fn record_deletion(&mut self, index: usize, result: DeleteResult)
        ensures
            final(self)@ == deletion_recorded(old(self)@, index, result@),
            final(self).cfg == old(self).cfg,
    {
        match self.prune.as_mut() {
            Some(p) => {
                if p.phase == PrunePhase::Done && index < p.candidates.len()
                    && p.candidates[index].selected {
                    p.record_result(index, result);
                }
            },
            None => {},
        }
    }

    /// One tick of the clock (see [`app_tick`]): `scan`, `upd` and `prune`
    /// are what the background scan, update and prune scan have sent since
    /// the last tick, and `poll` is where the release check stands.
    pub fn on_tick(
        &mut self,
        scan: Vec<ScanMsg>,
        upd: Vec<UpdateMsg>,
        prune: Vec<PruneScanMsg>,
        poll: ReleasePoll,
    )
        ensures
            final(self)@ == app_tick(old(self)@, scan@, upd@, prune@, poll),
            final(self).cfg == old(self).cfg,
    {
        self.tick = if self.tick == u64::MAX {
            0
        } else {
            self.tick + 1
        };
        self.projects.drain(scan);
        match self.update.as_mut() {
            Some(u) => u.drain(upd),
            None => {},
        }
        match self.prune.as_mut() {
            Some(p) => p.drain(prune),
            None => {},
        }
        if self.awaiting_release {
            match poll {
                ReleasePoll::Ready(r) => {
                    self.update_available = r;
                    self.awaiting_release = false;
                },
                ReleasePoll::Pending => {},
                ReleasePoll::Gone => {
                    self.awaiting_release = false;
                },
            }
        }
    }

    /// What a key press does (see [`app_key`]). Branches are only handed
    /// out for deletion from the prune screen's confirmation step, with `y`
    /// or Enter, and then exactly the ticked ones; no key press records a
    /// deletion result.
    pub fn on_key(&mut self, key: Key) -> (res: Effect)
        ensures
            (final(self)@, res@) == app_key(old(self)@, key),
            final(self).cfg == old(self).cfg,
            res@ is Delete ==> {
                &&& old(self)@.screen == Screen::Prune
                &&& key == Key::Char('y') || key == Key::Enter
                &&& old(self)@.prune matches Some(p) && p.confirm && res@ == EffectView::Delete(
                    ticked_deletions(p.candidates, p.candidates.len() as int),
                )
            },
            old(self)@.prune is Some && final(self)@.prune is Some ==> forall|i: int|
                0 <= i < old(self)@.prune->0.candidates.len()
                    && i < final(self)@.prune->0.candidates.len()
                    ==> #[trigger] final(self)@.prune->0.candidates[i].result
                    == old(self)@.prune->0.candidates[i].result,
    {
        if key == Key::Interrupt {
            self.should_quit = true;
            return Effect::Nothing;
        }
        if key == Key::Char('?') {
            self.show_help = !self.show_help;
            return Effect::Nothing;
        }
        if self.show_help {
            if key == Key::Esc {
                self.show_help = false;
            } else if key == Key::Char('q') {
                self.should_quit = true;
            }
            return Effect::Nothing;
        }
        match self.screen {
            Screen::Home => {
                if key == Key::Char('q') || key == Key::Esc {
                    self.should_quit = true;
                } else if key == Key::Up || key == Key::Char('k') {
                    self.home.prev();
                } else if key == Key::Down || key == Key::Char('j') {
                    self.home.next();
                } else if key == Key::Enter {
                    return self.open_selected_feature();
                }
                Effect::Nothing
            },
            Screen::Projects => {
                if key == Key::Char('q') {
                    self.should_quit = true;
                } else if key == Key::Esc {
                    self.screen = Screen::Home;
                } else if key == Key::Up || key == Key::Char('k') {
                    self.projects.prev();
                } else if key == Key::Down || key == Key::Char('j') {
                    self.projects.next();
                } else if key == Key::Enter {
                    return self.open_selected_project();
                } else if key == Key::Char('r') {
                    self.projects.start_scan();
                    return Effect::Scan;
                } else if key == Key::Char('u') {
                    return self.start_update_all();
                } else if key == Key::Char('p') {
                    return self.start_prune_all();
                }
                Effect::Nothing
            },
            Screen::ProjectDetail => {
                if key == Key::Char('q') {
                    self.should_quit = true;
                } else if key == Key::Esc {
                    self.screen = Screen::Projects;
                    self.detail = None;
                } else if key == Key::Up || key == Key::Char('k') {
                    match self.detail.as_mut() {
                        Some(d) => d.prev(),
                        None => {},
                    }
                } else if key == Key::Down || key == Key::Char('j') {
                    match self.detail.as_mut() {
                        Some(d) => d.next(),
                        None => {},
                    }
                } else if key == Key::Char('u') {
                    return self.start_update_current();
                } else if key == Key::Char('p') {
                    return self.start_prune_current();
                }
                Effect::Nothing
            },
            Screen::Update => {
                if key == Key::Char('q') {
                    self.should_quit = true;
                } else if key == Key::Esc {
                    return self.finish_update();
                } else if key == Key::Up || key == Key::Char('k') {
                    match self.update.as_mut() {
                        Some(u) => u.prev(),
                        None => {},
                    }
                } else if key == Key::Down || key == Key::Char('j') {
                    match self.update.as_mut() {
                        Some(u) => u.next(),
                        None => {},
                    }
                }
                Effect::Nothing
            },
            Screen::Prune => self.on_prune_key(key),
        }
    }
}

} // verus!
