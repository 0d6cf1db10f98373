//! The state behind each screen of the interactive interface: lists with a
//! highlighted row, and what each screen has gathered.
use vstd::prelude::*;
use crate::branches::{branch_views, Branch, BranchView};
use crate::prune::{DeleteResult, DeleteView, PruneCandidate, PruneScanMsg};
use crate::repo::{Project, ProjectView};
use crate::report::target_views;
use crate::scan::{
    dashboard_before, lemma_order_projects_listed, order_projects, project_views, sort_projects,
    ScanMsg,
};
use crate::text::text_views;
use crate::update::{OutcomeView, UpdateMsg, UpdateOutcome};

verus! {

broadcast use vstd::seq::group_seq_axioms;

/// Which top-level screen is currently shown.
#[derive(Clone, Copy, Debug, PartialEq, Eq, Structural)]
pub enum Screen {
    Home,
    Projects,
    ProjectDetail,
    Update,
    Prune,
}

// ---------------------------------------------------------------------------
// Moving the highlight
// ---------------------------------------------------------------------------

/// The highlight after moving down a list of `len` rows: wraps from the
/// last row to the first, starts at the first when nothing is highlighted,
/// and stays put in an empty list.
pub open spec fn sel_next(sel: Option<usize>, len: nat) -> Option<usize> {
    if len == 0 {
        sel
    } else {
        match sel {
            Some(i) => Some(((i + 1) % (len as int)) as usize),
            None => Some(0),
        }
    }
}

/// The highlight after moving up: wraps from the first row to the last.
pub open spec fn sel_prev(sel: Option<usize>, len: nat) -> Option<usize> {
    if len == 0 {
        sel
    } else {
        match sel {
            Some(i) => Some(((i + len - 1) % (len as int)) as usize),
            None => Some(0),
        }
    }
}

pub fn next_selection(sel: Option<usize>, len: usize) -> (res: Option<usize>)
    ensures
        res == sel_next(sel, len as nat),
{
    if len == 0 {
        return sel;
    }
    match sel {
        Some(i) => {
            let r = i % len;
            let n = if r + 1 == len {
                0
            } else {
                r + 1
            };
            assert(n as int == (i + 1) % (len as int)) by (nonlinear_arith)
                requires
                    len > 0,
                    r == i % len,
                    n == (if r + 1 == len {
                        0
                    } else {
                        r + 1
                    }),
            ;
            Some(n)
        },
        None => Some(0),
    }
}

pub fn prev_selection(sel: Option<usize>, len: usize) -> (res: Option<usize>)
    ensures
        res == sel_prev(sel, len as nat),
{
    if len == 0 {
        return sel;
    }
    match sel {
        Some(i) => {
            let r = i % len;
            let n = if r == 0 {
                len - 1
            } else {
                r - 1
            };
            assert(n as int == (i + len - 1) % (len as int)) by (nonlinear_arith)
                requires
                    len > 0,
                    r == i % len,
                    n == (if r == 0 {
                        len - 1
                    } else {
                        r - 1
                    }),
            ;
            Some(n)
        },
        None => Some(0),
    }
}

/// Moving the highlight in a non-empty list always lands on one of its
/// rows, wherever it was before.
pub proof fn lemma_selection_in_range(sel: Option<usize>, len: nat)
    requires
        len > 0,
        len <= usize::MAX,
    ensures
        sel_next(sel, len) matches Some(i) && i < len,
        sel_prev(sel, len) matches Some(i) && i < len,
{
    let l = len as int;
    match sel {
        Some(i) => {
            let a = (i + 1) % l;
            assert(0 <= a < l) by (nonlinear_arith)
                requires
                    l > 0,
                    a == (i + 1) % l,
            ;
            let b = (i + l - 1) % l;
            assert(0 <= b < l) by (nonlinear_arith)
                requires
                    l > 0,
                    i >= 0,
                    b == (i + l - 1) % l,
            ;
        },
        None => {},
    }
}

/// Moving down then up, or up then down, returns to the highlighted row.
pub proof fn lemma_next_prev_undo(sel: Option<usize>, len: nat)
    requires
        sel matches Some(i) && i < len,
        len <= usize::MAX,
    ensures
        sel_prev(sel_next(sel, len), len) == sel,
        sel_next(sel_prev(sel, len), len) == sel,
{
    let l = len as int;
    match sel {
        Some(i) => {
            let a = (i + 1) % l;
            assert(0 <= a < l) by (nonlinear_arith)
                requires
                    l > 0,
                    a == (i + 1) % l,
            ;
            assert((a + l - 1) % l == i) by (nonlinear_arith)
                requires
                    0 <= i < l,
                    a == (i + 1) % l,
            ;
            assert(sel_next(sel, len) == Some(a as usize));
            assert((a as usize) as int == a);
            let au = a as usize;
            assert(((au + len - 1) % l) == i);
            assert(sel_prev(Some(au), len) == Some(i));
            let b = (i + l - 1) % l;
            assert(0 <= b < l) by (nonlinear_arith)
                requires
                    l > 0,
                    i >= 0,
                    b == (i + l - 1) % l,
            ;
            assert((b + 1) % l == i) by (nonlinear_arith)
                requires
                    0 <= i < l,
                    b == (i + l - 1) % l,
            ;
            assert(sel_prev(sel, len) == Some(b as usize));
            assert((b as usize) as int == b);
            let bu = b as usize;
            assert(((bu + 1) % l) == i);
            assert(sel_next(Some(bu), len) == Some(i));
        },
        None => {},
    }
}

// ---------------------------------------------------------------------------
// Home
// ---------------------------------------------------------------------------

/// A top-level capability shown on the home screen.
pub struct Feature {
    pub key: &'static str,
    pub title: &'static str,
    pub desc: &'static str,
}

/// The features offered on the home screen: for now, Projects.
pub fn features() -> (res: Vec<Feature>)
    ensures
        res@.len() == 1,
        res@[0].key@ == "projects"@,
        res@[0].title@ == "Projects"@,
        res@[0].desc@ == "Scan git repos · view · update · prune"@,
{
    vec![
        Feature {
            key: "projects",
            title: "Projects",
            desc: "Scan git repos · view · update · prune",
        },
    ]
}

/// The home screen: which feature is highlighted.
pub struct HomeState {
    pub selected: usize,
}

impl HomeState {
    pub fn new() -> (res: HomeState)
        ensures
            res.selected == 0,
    {
        HomeState { selected: 0 }
    }

    pub fn next(&mut self)
        ensures
            final(self).selected == sel_next(Some(old(self).selected), 1).unwrap(),
    {
        let n = features().len();
        self.selected = next_selection(Some(self.selected), n).unwrap();
    }

    pub fn prev(&mut self)
        ensures
            final(self).selected == sel_prev(Some(old(self).selected), 1).unwrap(),
    {
        let n = features().len();
        self.selected = prev_selection(Some(self.selected), n).unwrap();
    }
}

// ---------------------------------------------------------------------------
// Projects dashboard
// ---------------------------------------------------------------------------

pub struct ProjectsState {
    pub projects: Vec<Project>,
    /// The highlighted row.
    pub selected: Option<usize>,
    pub scanning: bool,
    /// A scan is streaming results that have not all been taken yet.
    pub receiving: bool,
    /// A scan has been kicked off at some point.
    pub started: bool,
}

pub struct ProjectsView {
    pub projects: Seq<ProjectView>,
    pub selected: Option<usize>,
    pub scanning: bool,
    pub receiving: bool,
    pub started: bool,
}

impl View for ProjectsState {
    type V = ProjectsView;

    open spec fn view(&self) -> ProjectsView {
        ProjectsView {
            projects: project_views(self.projects@),
            selected: self.selected,
            scanning: self.scanning,
            receiving: self.receiving,
            started: self.started,
        }
    }
}

/// The projects before the first `Done` of some scan results, and whether
/// a `Done` came.
pub open spec fn scan_batch(ms: Seq<ScanMsg>) -> (Seq<ProjectView>, bool)
    decreases ms.len(),
{
    if ms.len() == 0 {
        (seq![], false)
    } else {
        match ms[0] {
            ScanMsg::Found(p) => {
                let (rest, done) = scan_batch(ms.drop_first());
                (seq![(*p)@] + rest, done)
            },
            ScanMsg::Done => (seq![], true),
        }
    }
}

/// The dashboard after taking the scan results `ms` that have streamed in:
/// new projects are added and the list re-sorted, the first row is
/// highlighted once there is one, and a `Done` ends the scan.
pub open spec fn projects_drained(s: ProjectsView, ms: Seq<ScanMsg>) -> ProjectsView {
    if !s.receiving {
        s
    } else {
        let (found, done) = scan_batch(ms);
        let got = found.len() > 0;
        let projects = if got {
            order_projects(s.projects + found)
        } else {
            s.projects
        };
        let selected = if got && s.selected is None && projects.len() > 0 {
            Some(0usize)
        } else {
            s.selected
        };
        ProjectsView {
            projects,
            selected,
            scanning: if done {
                false
            } else {
                s.scanning
            },
            receiving: !done,
            started: s.started,
        }
    }
}

/// Taking scan results keeps the whole dashboard in dashboard order (most
/// recent commit first, see [`dashboard_before`]): the rows already listed
/// and the new ones are sorted together, with none lost or added. Without
/// new projects the rows stay as they were.
pub proof fn lemma_drain_keeps_dashboard_order(s: ProjectsView, ms: Seq<ScanMsg>)
    ensures
        ({
            let r = projects_drained(s, ms).projects;
            let found = scan_batch(ms).0;
            &&& s.receiving && found.len() > 0 ==> {
                &&& forall|i: int, j: int|
                    0 <= i < j < r.len() ==> dashboard_before(#[trigger] r[i], #[trigger] r[j])
                &&& r.to_multiset() == (s.projects + found).to_multiset()
            }
            &&& !(s.receiving && found.len() > 0) ==> r == s.projects
        }),
{
    lemma_order_projects_listed(s.projects + scan_batch(ms).0);
}

impl ProjectsState {
    pub fn new() -> (res: ProjectsState)
        ensures
            res@ == (ProjectsView {
                projects: seq![],
                selected: None,
                scanning: false,
                receiving: false,
                started: false,
            }),
    {
        let r = ProjectsState {
            projects: Vec::new(),
            selected: None,
            scanning: false,
            receiving: false,
            started: false,
        };
        assert(r@.projects =~= Seq::<ProjectView>::empty());
        r
    }

    /// True before the first scan has been kicked off.
    pub fn is_empty(&self) -> (res: bool)
        ensures
            res == (self.projects@.len() == 0 && !self.receiving && !self.started),
    {
        self.projects.len() == 0 && !self.receiving && !self.started
    }

    /// Forgets the listed projects and waits for a new scan's results.
    pub fn start_scan(&mut self)
        ensures
            final(self)@ == (ProjectsView {
                projects: seq![],
                selected: None,
                scanning: true,
                receiving: true,
                started: true,
            }),
    {
        self.projects = Vec::new();
        self.selected = None;
        self.scanning = true;
        self.receiving = true;
        self.started = true;
        assert(self@.projects =~= Seq::<ProjectView>::empty());
    }

    /// Takes the scan results that have streamed in since the last tick.
    pub fn drain(&mut self, msgs: Vec<ScanMsg>)
        ensures
            final(self)@ == projects_drained(old(self)@, msgs@),
    {
        if !self.receiving {
            return;
        }
        let ghost ms = msgs@;
        let mut rest = msgs;
        let mut got = false;
        let mut done = false;
        let ghost p0 = project_views(self.projects@);
        assert(ms.subrange(0, ms.len() as int) =~= ms);
        while rest.len() > 0 && !done
            invariant
                rest.len() <= ms.len(),
                rest@ == ms.subrange(ms.len() - rest.len(), ms.len() as int),
                scan_batch(ms).0 =~= project_views(self.projects@).subrange(
                    p0.len() as int,
                    project_views(self.projects@).len() as int,
                ) + (if done {
                    Seq::<ProjectView>::empty()
                } else {
                    scan_batch(rest@).0
                }),
                scan_batch(ms).1 == (done || scan_batch(rest@).1),
                project_views(self.projects@).subrange(0, p0.len() as int) == p0,
                project_views(self.projects@).len() >= p0.len(),
                got == (project_views(self.projects@).len() > p0.len()),
                self.selected == old(self).selected,
                self.scanning == old(self).scanning,
                self.receiving,
                p0 == project_views(old(self).projects@),
                self.started == old(self).started,
            decreases rest.len(),
        {
            let ghost r = rest@;
            let m = rest.remove(0);
            assert(rest@ =~= r.drop_first());
            assert(rest@ =~= ms.subrange(ms.len() - rest.len(), ms.len() as int));
            match m {
                ScanMsg::Found(p) => {
                    let ghost before = self.projects@;
                    self.projects.push(*p);
                    got = true;
                    proof {
                        assert(project_views(self.projects@) =~= project_views(before).push((*p)@));
                        assert(project_views(self.projects@).subrange(0, p0.len() as int) =~= p0);
                    }
                },
                ScanMsg::Done => {
                    done = true;
                    assert(scan_batch(r) == (Seq::<ProjectView>::empty(), true));
                },
            }
        }
        let ghost all = project_views(self.projects@);
        proof {
            if !done {
                assert(scan_batch(rest@) == (Seq::<ProjectView>::empty(), false));
            }
            assert(all =~= p0 + scan_batch(ms).0);
        }
        if got {
            sort_projects(&mut self.projects);
            if self.selected.is_none() && self.projects.len() > 0 {
                self.selected = Some(0);
            }
        }
        if done {
            self.scanning = false;
            self.receiving = false;
        }
    }

    pub fn next(&mut self)
        ensures
            final(self)@ == (ProjectsView {
                selected: sel_next(old(self).selected, old(self).projects@.len()),
                ..old(self)@
            }),
    {
        self.selected = next_selection(self.selected, self.projects.len());
    }

    pub fn prev(&mut self)
        ensures
            final(self)@ == (ProjectsView {
                selected: sel_prev(old(self).selected, old(self).projects@.len()),
                ..old(self)@
            }),
    {
        self.selected = prev_selection(self.selected, self.projects.len());
    }
}

// ---------------------------------------------------------------------------
// Project detail
// ---------------------------------------------------------------------------

/// The project-detail panel: one project's local branches.
pub struct DetailState {
    pub project: Project,
    pub branches: Vec<Branch>,
    pub selected: Option<usize>,
    pub default_branches: Vec<String>,
}

pub struct DetailView {
    pub project: ProjectView,
    pub branches: Seq<BranchView>,
    pub selected: Option<usize>,
    pub defaults: Seq<Seq<char>>,
}

impl View for DetailState {
    type V = DetailView;

    open spec fn view(&self) -> DetailView {
        DetailView {
            project: self.project@,
            branches: branch_views(self.branches@),
            selected: self.selected,
            defaults: text_views(self.default_branches@),
        }
    }
}

impl DetailState {
    /// The panel for `project` with its `branches` (in listing order), the
    /// first one highlighted.
    pub fn new(project: Project, branches: Vec<Branch>, default_branches: Vec<String>) -> (res:
        DetailState)
        ensures
            res@ == (DetailView {
                project: project@,
                branches: branch_views(branches@),
                selected: if branches@.len() > 0 {
                    Some(0usize)
                } else {
                    None
                },
                defaults: text_views(default_branches@),
            }),
    {
        let selected = if branches.len() > 0 {
            Some(0)
        } else {
            None
        };
        DetailState { project, branches, selected, default_branches }
    }

    pub fn next(&mut self)
        ensures
            final(self)@ == (DetailView {
                selected: sel_next(old(self).selected, old(self).branches@.len()),
                ..old(self)@
            }),
    {
        self.selected = next_selection(self.selected, self.branches.len());
    }

    pub fn prev(&mut self)
        ensures
            final(self)@ == (DetailView {
                selected: sel_prev(old(self).selected, old(self).branches@.len()),
                ..old(self)@
            }),
    {
        self.selected = prev_selection(self.selected, self.branches.len());
    }

    /// The highlighted branch.
    pub fn selected_branch(&self) -> (res: Option<&Branch>)
        ensures
            match self.selected {
                Some(i) if i < self.branches@.len() => res == Some(&self.branches@[i as int]),
                _ => res is None,
            },
    {
        match self.selected {
            Some(i) => if i < self.branches.len() {
                Some(&self.branches[i])
            } else {
                None
            },
            None => None,
        }
    }
}

// ---------------------------------------------------------------------------
// Update progress
// ---------------------------------------------------------------------------

pub enum RowState {
    Pending,
    Running,
    Done(UpdateOutcome),
}

pub enum RowStateView {
    Pending,
    Running,
    Done(OutcomeView),
}

pub struct UpdateRow {
    pub name: String,
    pub state: RowState,
}

pub struct RowView {
    pub name: Seq<char>,
    pub state: RowStateView,
}

impl View for UpdateRow {
    type V = RowView;

    open spec fn view(&self) -> RowView {
        RowView {
            name: self.name@,
            state: match self.state {
                RowState::Pending => RowStateView::Pending,
                RowState::Running => RowStateView::Running,
                RowState::Done(o) => RowStateView::Done(o@),
            },
        }
    }
}

pub open spec fn row_views(s: Seq<UpdateRow>) -> Seq<RowView> {
    s.map_values(|r: UpdateRow| r@)
}

/// The update-progress screen.
pub struct UpdateState {
    pub title: String,
    pub rows: Vec<UpdateRow>,
    pub selected: Option<usize>,
    /// Screen to return to when the user leaves this view.
    pub origin: Screen,
    pub running: bool,
    /// Progress is streaming in that has not all been taken yet.
    pub receiving: bool,
}

pub struct UpdateView {
    pub title: Seq<char>,
    pub rows: Seq<RowView>,
    pub selected: Option<usize>,
    pub origin: Screen,
    pub running: bool,
    pub receiving: bool,
}

impl View for UpdateState {
    type V = UpdateView;

    open spec fn view(&self) -> UpdateView {
        UpdateView {
            title: self.title@,
            rows: row_views(self.rows@),
            selected: self.selected,
            origin: self.origin,
            running: self.running,
            receiving: self.receiving,
        }
    }
}

/// The position of the first row called `name`.
pub open spec fn row_named(rows: Seq<RowView>, name: Seq<char>) -> Option<int>
    decreases rows.len(),
{
    if rows.len() == 0 {
        None
    } else if rows[0].name == name {
        Some(0)
    } else {
        match row_named(rows.drop_first(), name) {
            Some(i) => Some(i + 1),
            None => None,
        }
    }
}

/// The rows with the first one called `name` in state `st` (unchanged when
/// there is none).
pub open spec fn set_row(rows: Seq<RowView>, name: Seq<char>, st: RowStateView) -> Seq<RowView> {
    match row_named(rows, name) {
        Some(i) => rows.update(i, RowView { name: rows[i].name, state: st }),
        None => rows,
    }
}

/// The rows after the progress messages `ms`, and whether the end of the
/// whole update was reported.
pub open spec fn update_batch(rows: Seq<RowView>, ms: Seq<UpdateMsg>) -> (Seq<RowView>, bool)
    decreases ms.len(),
{
    if ms.len() == 0 {
        (rows, false)
    } else {
        match ms[0] {
            UpdateMsg::Started(n) => update_batch(
                set_row(rows, n@, RowStateView::Running),
                ms.drop_first(),
            ),
            UpdateMsg::Done(o) => update_batch(
                set_row(rows, (*o).name@, RowStateView::Done((*o)@)),
                ms.drop_first(),
            ),
            UpdateMsg::AllDone => (rows, true),
        }
    }
}

pub open spec fn update_drained(s: UpdateView, ms: Seq<UpdateMsg>) -> UpdateView {
    if !s.receiving {
        s
    } else {
        let (rows, done) = update_batch(s.rows, ms);
        UpdateView {
            rows,
            running: if done {
                false
            } else {
                s.running
            },
            receiving: !done,
            ..s
        }
    }
}

/// How many rows have finished.
pub open spec fn rows_done(rows: Seq<RowView>) -> nat
    decreases rows.len(),
{
    if rows.len() == 0 {
        0
    } else {
        rows_done(rows.drop_last()) + if rows.last().state is Done {
            1nat
        } else {
            0nat
        }
    }
}

proof fn lemma_row_named(rows: Seq<RowView>, name: Seq<char>, k: int)
    requires
        0 <= k <= rows.len(),
        forall|i: int| 0 <= i < k ==> rows[i].name != name,
        k == rows.len() || rows[k].name == name,
    ensures
        row_named(rows, name) == (if k < rows.len() {
            Some(k)
        } else {
            None::<int>
        }),
    decreases rows.len(),
{
    if rows.len() > 0 && rows[0].name != name {
        lemma_row_named(rows.drop_first(), name, k - 1);
    }
}

proof fn lemma_rows_done_le(rows: Seq<RowView>)
    ensures
        rows_done(rows) <= rows.len(),
    decreases rows.len(),
{
    if rows.len() > 0 {
        lemma_rows_done_le(rows.drop_last());
    }
}

impl UpdateState {
    /// The progress screen for updating `targets`, every row pending and
    /// the first highlighted.
    pub fn start(title: String, targets: &Vec<(String, String)>, origin: Screen) -> (res:
        UpdateState)
        ensures
            res@.title == title@,
            res@.rows == target_views(targets@).map_values(
                |t: (Seq<char>, Seq<char>)| RowView { name: t.0, state: RowStateView::Pending },
            ),
            res@.selected == Some(0usize),
            res@.origin == origin,
            res@.running,
            res@.receiving,
    {
        let mut rows: Vec<UpdateRow> = Vec::new();
        let mut i: usize = 0;
        while i < targets.len()
            invariant
                i <= targets.len(),
                row_views(rows@) == target_views(targets@).map_values(
                    |t: (Seq<char>, Seq<char>)| RowView { name: t.0, state: RowStateView::Pending },
                ).take(i as int),
            decreases targets.len() - i,
        {
            let ghost before = rows@;
            let r = UpdateRow { name: targets[i].0.clone(), state: RowState::Pending };
            rows.push(r);
            assert(row_views(rows@) =~= row_views(before).push(r@));
            assert(target_views(targets@).map_values(
                |t: (Seq<char>, Seq<char>)| RowView { name: t.0, state: RowStateView::Pending },
            ).take(i as int + 1) =~= target_views(targets@).map_values(
                |t: (Seq<char>, Seq<char>)| RowView { name: t.0, state: RowStateView::Pending },
            ).take(i as int).push(r@));
            i = i + 1;
        }
        assert(target_views(targets@).map_values(
            |t: (Seq<char>, Seq<char>)| RowView { name: t.0, state: RowStateView::Pending },
        ).take(i as int) =~= target_views(targets@).map_values(
            |t: (Seq<char>, Seq<char>)| RowView { name: t.0, state: RowStateView::Pending },
        ));
        UpdateState { title, rows, selected: Some(0), origin, running: true, receiving: true }
    }

    /// Puts the first row called `name` in state `state`.
    pub fn set_state(&mut self, name: &String, state: RowState)
        ensures
            final(self)@ == (UpdateView {
                rows: set_row(
                    old(self)@.rows,
                    name@,
                    match state {
                        RowState::Pending => RowStateView::Pending,
                        RowState::Running => RowStateView::Running,
                        RowState::Done(o) => RowStateView::Done(o@),
                    },
                ),
                ..old(self)@
            }),
    {
        let ghost rv = row_views(self.rows@);
        let mut i: usize = 0;
        while i < self.rows.len() && self.rows[i].name != *name
            invariant
                i <= self.rows.len(),
                rv == row_views(self.rows@),
                forall|k: int| 0 <= k < i ==> rv[k].name != name@,
            decreases self.rows.len() - i,
        {
            i = i + 1;
        }
        proof {
            lemma_row_named(rv, name@, i as int);
        }
        if i < self.rows.len() {
            let ghost before = self.rows@;
            self.rows[i].state = state;
            assert(row_views(self.rows@) =~= set_row(
                rv,
                name@,
                self.rows@[i as int]@.state,
            ));
        }
    }

    /// Takes the progress that has streamed in since the last tick.
    pub fn drain(&mut self, msgs: Vec<UpdateMsg>)
        ensures
            final(self)@ == update_drained(old(self)@, msgs@),
    {
        if !self.receiving {
            return;
        }
        let ghost ms = msgs@;
        let mut rest = msgs;
        let mut done = false;
        assert(ms.subrange(0, ms.len() as int) =~= ms);
        while rest.len() > 0 && !done
            invariant
                rest.len() <= ms.len(),
                rest@ == ms.subrange(ms.len() - rest.len(), ms.len() as int),
                update_batch(old(self)@.rows, ms) == (if done {
                    (self@.rows, true)
                } else {
                    update_batch(self@.rows, rest@)
                }),
                self@ == (UpdateView { rows: self@.rows, ..old(self)@ }),
            decreases rest.len(),
        {
            let ghost r = rest@;
            let m = rest.remove(0);
            assert(rest@ =~= r.drop_first());
            assert(rest@ =~= ms.subrange(ms.len() - rest.len(), ms.len() as int));
            match m {
                UpdateMsg::Started(n) => {
                    self.set_state(&n, RowState::Running);
                },
                UpdateMsg::Done(o) => {
                    let n = o.name.clone();
                    self.set_state(&n, RowState::Done(*o));
                },
                UpdateMsg::AllDone => {
                    done = true;
                },
            }
        }
        proof {
            if !done {
                assert(update_batch(self@.rows, rest@) == (self@.rows, false));
            }
        }
        if done {
            self.running = false;
            self.receiving = false;
        }
    }

    pub fn next(&mut self)
        ensures
            final(self)@ == (UpdateView {
                selected: sel_next(old(self).selected, old(self).rows@.len()),
                ..old(self)@
            }),
    {
        self.selected = next_selection(self.selected, self.rows.len());
    }

    pub fn prev(&mut self)
        ensures
            final(self)@ == (UpdateView {
                selected: sel_prev(old(self).selected, old(self).rows@.len()),
                ..old(self)@
            }),
    {
        self.selected = prev_selection(self.selected, self.rows.len());
    }

    /// How many rows have finished.
    pub fn done_count(&self) -> (res: usize)
        ensures
            res == rows_done(self@.rows),
    {
        let ghost rv = self@.rows;
        let mut n: usize = 0;
        let mut i: usize = 0;
        while i < self.rows.len()
            invariant
                i <= self.rows.len(),
                rv == row_views(self.rows@),
                n == rows_done(rv.take(i as int)),
            decreases self.rows.len() - i,
        {
            let ghost t = rv.take(i as int + 1);
            assert(t.drop_last() =~= rv.take(i as int));
            proof {
                lemma_rows_done_le(t.drop_last());
            }
            match &self.rows[i].state {
                RowState::Done(_) => n = n + 1,
                _ => {},
            }
            i = i + 1;
        }
        assert(rv.take(i as int) =~= rv);
        n
    }
}

// ---------------------------------------------------------------------------
// Prune checklist
// ---------------------------------------------------------------------------

#[derive(Clone, Copy, Debug, PartialEq, Eq, Structural)]
pub enum PrunePhase {
    Collecting,
    Review,
    Done,
}

/// A branch listed for pruning, whether it is ticked, and how deleting it
/// went.
pub struct Candidate {
    pub project: String,
    pub path: String,
    pub branch: String,
    pub last_commit: Option<u64>,
    pub unique_commits: usize,
    pub selected: bool,
    pub result: Option<DeleteResult>,
}

pub struct CandidateRow {
    pub project: Seq<char>,
    pub path: Seq<char>,
    pub branch: Seq<char>,
    pub last_commit: Option<u64>,
    pub unique_commits: usize,
    pub selected: bool,
    pub result: Option<DeleteView>,
}

impl View for Candidate {
    type V = CandidateRow;

    open spec fn view(&self) -> CandidateRow {
        CandidateRow {
            project: self.project@,
            path: self.path@,
            branch: self.branch@,
            last_commit: self.last_commit,
            unique_commits: self.unique_commits,
            selected: self.selected,
            result: match self.result {
                Some(r) => Some(r@),
                None => None,
            },
        }
    }
}

pub open spec fn candidate_rows(s: Seq<Candidate>) -> Seq<CandidateRow> {
    s.map_values(|c: Candidate| c@)
}

/// The prune checklist screen.
pub struct PruneState {
    pub title: String,
    pub phase: PrunePhase,
    pub candidates: Vec<Candidate>,
    pub selected: Option<usize>,
    pub origin: Screen,
    /// The second step of the delete confirmation.
    pub confirm: bool,
    /// Candidates are streaming in that have not all been taken yet.
    pub receiving: bool,
}

pub struct PruneView {
    pub title: Seq<char>,
    pub phase: PrunePhase,
    pub candidates: Seq<CandidateRow>,
    pub selected: Option<usize>,
    pub origin: Screen,
    pub confirm: bool,
    pub receiving: bool,
}

impl View for PruneState {
    type V = PruneView;

    open spec fn view(&self) -> PruneView {
        PruneView {
            title: self.title@,
            phase: self.phase,
            candidates: candidate_rows(self.candidates@),
            selected: self.selected,
            origin: self.origin,
            confirm: self.confirm,
            receiving: self.receiving,
        }
    }
}

/// A found candidate as listed: ticked (gone means merged in the usual
/// workflow, so pruning is opt-out) and not yet deleted.
pub open spec fn listed(c: PruneCandidate) -> CandidateRow {
    CandidateRow {
        project: c.project@,
        path: c.path@,
        branch: c.branch@,
        last_commit: c.last_commit,
        unique_commits: c.unique_commits,
        selected: true,
        result: None,
    }
}

/// The candidates before the first `Done` of some scan messages, as
/// listed, and whether a `Done` came.
pub open spec fn prune_batch(ms: Seq<PruneScanMsg>) -> (Seq<CandidateRow>, bool)
    decreases ms.len(),
{
    if ms.len() == 0 {
        (seq![], false)
    } else {
        match ms[0] {
            PruneScanMsg::Found(c) => {
                let (rest, done) = prune_batch(ms.drop_first());
                (seq![listed(*c)] + rest, done)
            },
            PruneScanMsg::Done => (seq![], true),
        }
    }
}

/// The checklist after taking the scan messages `ms`: found candidates are
/// appended, the first row is highlighted once there is one, and a `Done`
/// moves on to review.
pub open spec fn prune_drained(s: PruneView, ms: Seq<PruneScanMsg>) -> PruneView {
    if !s.receiving {
        s
    } else {
        let (found, done) = prune_batch(ms);
        let candidates = s.candidates + found;
        PruneView {
            candidates,
            selected: if s.selected is None && candidates.len() > 0 {
                Some(0usize)
            } else {
                s.selected
            },
            phase: if done {
                PrunePhase::Review
            } else {
                s.phase
            },
            receiving: !done,
            ..s
        }
    }
}

/// How many candidates are ticked.
pub open spec fn ticked(cs: Seq<CandidateRow>) -> nat
    decreases cs.len(),
{
    if cs.len() == 0 {
        0
    } else {
        ticked(cs.drop_last()) + if cs.last().selected {
            1nat
        } else {
            0nat
        }
    }
}

/// The candidates with every tick set to `v`.
pub open spec fn all_ticked(cs: Seq<CandidateRow>, v: bool) -> Seq<CandidateRow> {
    cs.map_values(|c: CandidateRow| CandidateRow { selected: v, ..c })
}

/// A branch to delete: its position in the checklist and where it lives.
pub struct Deletion {
    pub index: usize,
    pub path: String,
    pub branch: String,
}

pub open spec fn deletion_views(s: Seq<Deletion>) -> Seq<(usize, Seq<char>, Seq<char>)> {
    s.map_values(|d: Deletion| (d.index, d.path@, d.branch@))
}

/// The ticked candidates among the first `k`, in order.
pub open spec fn ticked_deletions(cs: Seq<CandidateRow>, k: int) -> Seq<
    (usize, Seq<char>, Seq<char>),
>
    decreases k,
{
    if k <= 0 {
        seq![]
    } else if cs[k - 1].selected {
        ticked_deletions(cs, k - 1).push(((k - 1) as usize, cs[k - 1].path, cs[k - 1].branch))
    } else {
        ticked_deletions(cs, k - 1)
    }
}

proof fn lemma_ticked_le(cs: Seq<CandidateRow>)
    ensures
        ticked(cs) <= cs.len(),
    decreases cs.len(),
{
    if cs.len() > 0 {
        lemma_ticked_le(cs.drop_last());
    }
}

/// Ticking or unticking the highlighted candidate twice leaves the list as
/// it was.
pub proof fn lemma_toggle_twice(cs: Seq<CandidateRow>, i: int)
    requires
        0 <= i < cs.len(),
    ensures
        cs.update(i, CandidateRow { selected: !cs[i].selected, ..cs[i] }).update(
            i,
            CandidateRow { selected: !!cs[i].selected, ..cs[i] },
        ) == cs,
{
    assert(cs.update(i, CandidateRow { selected: !cs[i].selected, ..cs[i] }).update(
        i,
        CandidateRow { selected: !!cs[i].selected, ..cs[i] },
    ) =~= cs);
}

/// After "toggle all" every candidate has the same tick, so the count of
/// ticked candidates is either all or none.
pub proof fn lemma_toggle_all_uniform(cs: Seq<CandidateRow>, v: bool)
    ensures
        ticked(all_ticked(cs, v)) == (if v {
            cs.len()
        } else {
            0
        }),
    decreases cs.len(),
{
    if cs.len() > 0 {
        assert(all_ticked(cs, v).drop_last() =~= all_ticked(cs.drop_last(), v));
        lemma_toggle_all_uniform(cs.drop_last(), v);
    }
}

impl PruneState {
    /// The checklist for a prune scan that has just started.
    pub fn start(title: String, origin: Screen) -> (res: PruneState)
        ensures
            res@ == (PruneView {
                title: title@,
                phase: PrunePhase::Collecting,
                candidates: seq![],
                selected: None,
                origin,
                confirm: false,
                receiving: true,
            }),
    {
        let r = PruneState {
            title,
            phase: PrunePhase::Collecting,
            candidates: Vec::new(),
            selected: None,
            origin,
            confirm: false,
            receiving: true,
        };
        assert(r@.candidates =~= Seq::<CandidateRow>::empty());
        r
    }

    /// Takes the candidates that have streamed in since the last tick.
    pub fn drain(&mut self, msgs: Vec<PruneScanMsg>)
        ensures
            final(self)@ == prune_drained(old(self)@, msgs@),
    {
        if !self.receiving {
            return;
        }
        let ghost ms = msgs@;
        let ghost c0 = self@.candidates;
        let mut rest = msgs;
        let mut done = false;
        assert(ms.subrange(0, ms.len() as int) =~= ms);
        while rest.len() > 0 && !done
            invariant
                rest.len() <= ms.len(),
                rest@ == ms.subrange(ms.len() - rest.len(), ms.len() as int),
                c0 + prune_batch(ms).0 == self@.candidates + (if done {
                    Seq::<CandidateRow>::empty()
                } else {
                    prune_batch(rest@).0
                }),
                prune_batch(ms).1 == (done || prune_batch(rest@).1),
                self@ == (PruneView { candidates: self@.candidates, ..old(self)@ }),
                c0 == old(self)@.candidates,
            decreases rest.len(),
        {
            let ghost r = rest@;
            let m = rest.remove(0);
            assert(rest@ =~= r.drop_first());
            assert(rest@ =~= ms.subrange(ms.len() - rest.len(), ms.len() as int));
            match m {
                PruneScanMsg::Found(c) => {
                    let ghost before = self@.candidates;
                    let ghost lc = listed(*c);
                    let c = *c;
                    self.candidates.push(
                        Candidate {
                            project: c.project,
                            path: c.path,
                            branch: c.branch,
                            last_commit: c.last_commit,
                            unique_commits: c.unique_commits,
                            selected: true,
                            result: None,
                        },
                    );
                    assert(self@.candidates =~= before.push(lc));
                    assert(prune_batch(r).0 =~= seq![lc] + prune_batch(rest@).0);
                    assert(c0 + prune_batch(ms).0 =~= self@.candidates + prune_batch(rest@).0);
                },
                PruneScanMsg::Done => {
                    done = true;
                    assert(prune_batch(r) == (Seq::<CandidateRow>::empty(), true));
                    assert(c0 + prune_batch(ms).0 =~= self@.candidates + Seq::<CandidateRow>::empty());
                },
            }
        }
        proof {
            if !done {
                assert(prune_batch(rest@) == (Seq::<CandidateRow>::empty(), false));
            }
            assert(self@.candidates =~= c0 + prune_batch(ms).0);
        }
        if self.selected.is_none() && self.candidates.len() > 0 {
            self.selected = Some(0);
        }
        if done {
            self.phase = PrunePhase::Review;
            self.receiving = false;
        }
    }

    pub fn next(&mut self)
        ensures
            final(self)@ == (PruneView {
                selected: sel_next(old(self).selected, old(self).candidates@.len()),
                ..old(self)@
            }),
    {
        self.selected = next_selection(self.selected, self.candidates.len());
    }

    pub fn prev(&mut self)
        ensures
            final(self)@ == (PruneView {
                selected: sel_prev(old(self).selected, old(self).candidates@.len()),
                ..old(self)@
            }),
    {
        self.selected = prev_selection(self.selected, self.candidates.len());
    }

    /// Ticks or unticks the highlighted candidate.
    pub fn toggle_selected(&mut self)
        ensures
            final(self)@ == (match old(self).selected {
                Some(i) if i < old(self).candidates@.len() => PruneView {
                    candidates: old(self)@.candidates.update(
                        i as int,
                        CandidateRow {
                            selected: !old(self)@.candidates[i as int].selected,
                            ..old(self)@.candidates[i as int]
                        },
                    ),
                    ..old(self)@
                },
                _ => old(self)@,
            }),
    {
        match self.selected {
            Some(i) => {
                if i < self.candidates.len() {
                    let ghost before = self@.candidates;
                    let v = !self.candidates[i].selected;
                    self.candidates[i].selected = v;
                    assert(self@.candidates =~= before.update(
                        i as int,
                        CandidateRow { selected: v, ..before[i as int] },
                    ));
                }
            },
            None => {},
        }
    }

    /// Unticks everything when everything is ticked; otherwise ticks
    /// everything.
    pub fn toggle_all(&mut self)
        ensures
            final(self)@ == (PruneView {
                candidates: all_ticked(
                    old(self)@.candidates,
                    !(forall|i: int|
                        0 <= i < old(self)@.candidates.len()
                            ==> #[trigger] old(self)@.candidates[i].selected),
                ),
                ..old(self)@
            }),
    {
        let ghost c0 = self@.candidates;
        let mut all = true;
        let mut i: usize = 0;
        while i < self.candidates.len()
            invariant
                i <= self.candidates.len(),
                c0 == self@.candidates,
                all == (forall|k: int| 0 <= k < i ==> #[trigger] c0[k].selected),
            decreases self.candidates.len() - i,
        {
            assert(c0[i as int].selected == self.candidates@[i as int].selected);
            if !self.candidates[i].selected {
                all = false;
            }
            i = i + 1;
        }
        let v = !all;
        let mut j: usize = 0;
        while j < self.candidates.len()
            invariant
                j <= self.candidates.len(),
                self@.candidates.len() == c0.len(),
                forall|k: int| 0 <= k < j ==> #[trigger] self@.candidates[k] == (CandidateRow { selected: v, ..c0[k] }),
                forall|k: int| j <= k < c0.len() ==> #[trigger] self@.candidates[k] == c0[k],
                self@ == (PruneView { candidates: self@.candidates, ..old(self)@ }),
            decreases self.candidates.len() - j,
        {
            let ghost before = self@.candidates;
            self.candidates[j].selected = v;
            assert(self@.candidates =~= before.update(
                j as int,
                CandidateRow { selected: v, ..before[j as int] },
            ));
            j = j + 1;
        }
        assert(self@.candidates =~= all_ticked(c0, v));
    }

    /// How many candidates are ticked.
    pub fn selected_count(&self) -> (res: usize)
        ensures
            res == ticked(self@.candidates),
    {
        let ghost cs = self@.candidates;
        let mut n: usize = 0;
        let mut i: usize = 0;
        while i < self.candidates.len()
            invariant
                i <= self.candidates.len(),
                cs == self@.candidates,
                n == ticked(cs.take(i as int)),
            decreases self.candidates.len() - i,
        {
            let ghost t = cs.take(i as int + 1);
            assert(t.drop_last() =~= cs.take(i as int));
            proof {
                lemma_ticked_le(t.drop_last());
            }
            if self.candidates[i].selected {
                n = n + 1;
            }
            i = i + 1;
        }
        assert(cs.take(i as int) =~= cs);
        n
    }

    /// Moves to the results view, handing back every ticked candidate to
    /// delete (their results are recorded with [`PruneState::record_result`]).
    pub fn execute(&mut self) -> (res: Vec<Deletion>)
        ensures
            deletion_views(res@) == ticked_deletions(
                old(self)@.candidates,
                old(self)@.candidates.len() as int,
            ),
            final(self)@ == (PruneView { confirm: false, phase: PrunePhase::Done, ..old(self)@ }),
    {
        let ghost cs = self@.candidates;
        let mut out: Vec<Deletion> = Vec::new();
        let mut i: usize = 0;
        while i < self.candidates.len()
            invariant
                i <= self.candidates.len(),
                cs == self@.candidates,
                deletion_views(out@) == ticked_deletions(cs, i as int),
            decreases self.candidates.len() - i,
        {
            if self.candidates[i].selected {
                let d = Deletion {
                    index: i,
                    path: self.candidates[i].path.clone(),
                    branch: self.candidates[i].branch.clone(),
                };
                let ghost before = out@;
                out.push(d);
                assert(deletion_views(out@) =~= deletion_views(before).push(
                    (i, cs[i as int].path, cs[i as int].branch),
                ));
            }
            i = i + 1;
        }
        self.confirm = false;
        self.phase = PrunePhase::Done;
        out
    }

    /// Records how deleting the candidate at `index` went.
    pub fn record_result(&mut self, index: usize, result: DeleteResult)
        ensures
            final(self)@ == (if index < old(self).candidates@.len() {
                PruneView {
                    candidates: old(self)@.candidates.update(
                        index as int,
                        CandidateRow { result: Some(result@), ..old(self)@.candidates[index as int] },
                    ),
                    ..old(self)@
                }
            } else {
                old(self)@
            }),
    {
        if index < self.candidates.len() {
            let ghost before = self@.candidates;
            let ghost rv = result@;
            self.candidates[index].result = Some(result);
            assert(self@.candidates =~= before.update(
                index as int,
                CandidateRow { result: Some(rv), ..before[index as int] },
            ));
        }
    }
}

} // verus!
