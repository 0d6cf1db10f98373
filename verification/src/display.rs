//! What the interactive screens show: the text of each cell and status
//! line, and the tone it is shown in. Drawing it on the terminal is left to
//! the program around the library.
use vstd::prelude::*;
use crate::branches::{Branch, BranchView};
use crate::numbers::{decimal, decimal_of};
use crate::prune::DeleteView;
use crate::repo::{Project, ProjectView};
use crate::report::{count_status, icon_text, prune_status, prune_status_text, status_icon, tally};
use crate::states::{
    row_views, rows_done, ticked, Candidate, CandidateRow, PrunePhase, PruneState, ProjectsState,
    RowState, RowStateView, RowView, UpdateRow, UpdateState,
};
use crate::text::{chars_of, owned, push_chars, push_str, string_of, text_views};
use crate::time::{elapsed, relative_at, relative_text};
use crate::update::UpdateStatus;

verus! {

broadcast use vstd::seq::group_seq_axioms;

/// The colour a piece of text is shown in.
#[derive(Clone, Copy, Debug, PartialEq, Eq, Structural)]
pub enum Tone {
    Plain,
    Green,
    Red,
    Yellow,
    Blue,
    Cyan,
    Magenta,
    Gray,
    DarkGray,
    White,
}

/// A run of text in one tone, bold or not.
pub struct Piece {
    pub text: String,
    pub tone: Tone,
    pub bold: bool,
}

pub struct PieceView {
    pub text: Seq<char>,
    pub tone: Tone,
    pub bold: bool,
}

impl View for Piece {
    type V = PieceView;

    open spec fn view(&self) -> PieceView {
        PieceView { text: self.text@, tone: self.tone, bold: self.bold }
    }
}

pub open spec fn piece_views(v: Seq<Piece>) -> Seq<PieceView> {
    v.map_values(|p: Piece| p@)
}

/// Plain-weight text in `tone`.
pub open spec fn pv(text: Seq<char>, tone: Tone) -> PieceView {
    PieceView { text, tone, bold: false }
}

fn piece(text: &str, tone: Tone) -> (res: Piece)
    ensures
        res@ == pv(text@, tone),
{
    Piece { text: owned(text), tone, bold: false }
}

fn piece_of(text: String, tone: Tone) -> (res: Piece)
    ensures
        res@ == pv(text@, tone),
{
    Piece { text, tone, bold: false }
}

/// `prefix`, the decimal digits of `n`, then `suffix`.
fn counted(prefix: &str, n: u64, suffix: &str) -> (res: String)
    ensures
        res@ == prefix@ + decimal(n as nat) + suffix@,
{
    let mut v = chars_of(prefix);
    push_chars(&mut v, &decimal_of(n));
    push_str(&mut v, suffix);
    string_of(&v)
}

// ---------------------------------------------------------------------------
// Spinner
// ---------------------------------------------------------------------------

/// The frames of the busy spinner.
pub open spec fn spinner_frames() -> Seq<Seq<char>> {
    seq!["⠋"@, "⠙"@, "⠹"@, "⠸"@, "⠼"@, "⠴"@, "⠦"@, "⠧"@, "⠇"@, "⠏"@]
}

/// The spinner frame shown at frame `tick`.
pub open spec fn spinner_at(tick: u64) -> Seq<char> {
    spinner_frames()[(tick % 10) as int]
}

/// The spinner frame for frame `tick`: the frames repeat every ten ticks.
pub fn spinner_frame(tick: u64) -> (res: &'static str)
    ensures
        res@ == spinner_at(tick),
{
    let i = tick % 10;
    if i == 0 {
        "⠋"
    } else if i == 1 {
        "⠙"
    } else if i == 2 {
        "⠹"
    } else if i == 3 {
        "⠸"
    } else if i == 4 {
        "⠼"
    } else if i == 5 {
        "⠴"
    } else if i == 6 {
        "⠦"
    } else if i == 7 {
        "⠧"
    } else if i == 8 {
        "⠇"
    } else {
        "⠏"
    }
}

// ---------------------------------------------------------------------------
// Sync columns
// ---------------------------------------------------------------------------

/// `↑a` in green, `↓b` in red, each only when nonzero, a space between
/// them when both are shown.
pub open spec fn ahead_behind(a: nat, b: nat) -> Seq<PieceView> {
    (if a > 0 {
        seq![pv("↑"@ + decimal(a), Tone::Green)]
    } else {
        seq![]
    }) + (if a > 0 && b > 0 {
        seq![pv(" "@, Tone::Plain)]
    } else {
        seq![]
    }) + (if b > 0 {
        seq![pv("↓"@ + decimal(b), Tone::Red)]
    } else {
        seq![]
    })
}

fn ahead_behind_pieces(a: usize, b: usize) -> (res: Vec<Piece>)
    ensures
        piece_views(res@) == ahead_behind(a as nat, b as nat),
{
    let mut v: Vec<Piece> = Vec::new();
    if a > 0 {
        v.push(piece_of(counted("↑", a as u64, ""), Tone::Green));
    }
    if a > 0 && b > 0 {
        v.push(piece(" ", Tone::Plain));
    }
    if b > 0 {
        v.push(piece_of(counted("↓", b as u64, ""), Tone::Red));
    }
    proof {
        reveal_strlit("");
        assert(piece_views(v@) =~= ahead_behind(a as nat, b as nat));
    }
    v
}

/// The sync column of a branch: `gone` (bold red), `local` when it has no
/// upstream, `✓` when level with it, else its ahead/behind counts.
pub open spec fn branch_sync_view(b: BranchView) -> Seq<PieceView> {
    if b.gone {
        seq![PieceView { text: "gone"@, tone: Tone::Red, bold: true }]
    } else if b.upstream is None {
        seq![pv("local"@, Tone::DarkGray)]
    } else if b.ahead == 0 && b.behind == 0 {
        seq![pv("✓"@, Tone::Green)]
    } else {
        ahead_behind(b.ahead as nat, b.behind as nat)
    }
}

pub fn branch_sync(b: &Branch) -> (res: Vec<Piece>)
    ensures
        piece_views(res@) == branch_sync_view(b@),
{
    let v = if b.gone {
        vec![Piece { text: owned("gone"), tone: Tone::Red, bold: true }]
    } else if b.upstream.is_none() {
        vec![piece("local", Tone::DarkGray)]
    } else if b.ahead == 0 && b.behind == 0 {
        vec![piece("✓", Tone::Green)]
    } else {
        return ahead_behind_pieces(b.ahead, b.behind);
    };
    assert(piece_views(v@) =~= branch_sync_view(b@));
    v
}

/// The sync column of a project: `—` without an upstream, `✓` when level
/// with it, else its ahead/behind counts.
pub open spec fn project_sync_view(p: ProjectView) -> Seq<PieceView> {
    match p.upstream {
        None => seq![pv("—"@, Tone::DarkGray)],
        Some((a, b)) => if a == 0 && b == 0 {
            seq![pv("✓"@, Tone::Green)]
        } else {
            ahead_behind(a as nat, b as nat)
        },
    }
}

pub fn project_sync(p: &Project) -> (res: Vec<Piece>)
    ensures
        piece_views(res@) == project_sync_view(p@),
{
    match p.upstream {
        None => {
            let v = vec![piece("—", Tone::DarkGray)];
            assert(piece_views(v@) =~= project_sync_view(p@));
            v
        },
        Some((a, b)) => {
            if a == 0 && b == 0 {
                let v = vec![piece("✓", Tone::Green)];
                assert(piece_views(v@) =~= project_sync_view(p@));
                v
            } else {
                ahead_behind_pieces(a, b)
            }
        },
    }
}

// ---------------------------------------------------------------------------
// Table cells
// ---------------------------------------------------------------------------

/// The tone of a branch's name, and whether it is bold: red when gone,
/// cyan for a default branch, white otherwise; bold when checked out.
pub open spec fn branch_name_look(b: BranchView, defaults: Seq<Seq<char>>) -> (Tone, bool) {
    (
        if b.gone {
            Tone::Red
        } else if defaults.contains(b.name) {
            Tone::Cyan
        } else {
            Tone::White
        },
        b.is_head,
    )
}

pub fn branch_name_style(b: &Branch, defaults: &Vec<String>) -> (res: (Tone, bool))
    ensures
        res == branch_name_look(b@, text_views(defaults@)),
{
    let ghost dv = text_views(defaults@);
    let mut primary = false;
    let mut i: usize = 0;
    while i < defaults.len()
        invariant
            i <= defaults.len(),
            dv == text_views(defaults@),
            primary == (exists|k: int| 0 <= k < i && dv[k] == b.name@),
        decreases defaults.len() - i,
    {
        if defaults[i] == b.name {
            primary = true;
            assert(dv[i as int] == b.name@);
        } else {
            assert(dv[i as int] != b.name@);
        }
        i = i + 1;
    }
    proof {
        if primary {
            let k = choose|k: int| 0 <= k < i && dv[k] == b.name@;
            assert(dv.contains(b.name@));
        } else {
            assert(!dv.contains(b.name@));
        }
    }
    let tone = if b.gone {
        Tone::Red
    } else if primary {
        Tone::Cyan
    } else {
        Tone::White
    };
    (tone, b.is_head)
}

/// The tone of a project's branch: red when it could not be read, magenta
/// when detached, green otherwise.
pub open spec fn project_branch_look(p: ProjectView) -> Tone {
    if p.error is Some {
        Tone::Red
    } else if p.detached {
        Tone::Magenta
    } else {
        Tone::Green
    }
}

pub fn project_branch_tone(p: &Project) -> (res: Tone)
    ensures
        res == project_branch_look(p@),
{
    if p.error.is_some() {
        Tone::Red
    } else if p.detached {
        Tone::Magenta
    } else {
        Tone::Green
    }
}

/// The "last commit" column: the relative time as of `now`, or `-`.
pub open spec fn last_seen_text(t: Option<u64>, now: u64) -> Seq<char> {
    match t {
        Some(t) => relative_text(elapsed(now, t)),
        None => "-"@,
    }
}

pub fn last_seen(t: Option<u64>, now: u64) -> (res: String)
    ensures
        res@ == last_seen_text(t, now),
{
    match t {
        Some(t) => relative_at(now, t),
        None => owned("-"),
    }
}

/// The tone of an update outcome's icon.
pub open spec fn status_tone(s: UpdateStatus) -> Tone {
    match s {
        UpdateStatus::Updated => Tone::Green,
        UpdateStatus::UpToDate => Tone::DarkGray,
        UpdateStatus::Warning => Tone::Yellow,
        UpdateStatus::Failed => Tone::Red,
        UpdateStatus::Skipped => Tone::Blue,
    }
}

/// The icon and message of a row of the update screen at frame `tick`.
pub open spec fn update_row_look(r: RowView, tick: u64) -> (PieceView, PieceView) {
    match r.state {
        RowStateView::Pending => (pv("·"@, Tone::DarkGray), pv("queued"@, Tone::DarkGray)),
        RowStateView::Running => (pv(spinner_at(tick), Tone::Yellow), pv("updating…"@, Tone::Yellow)),
        RowStateView::Done(o) => (
            pv(icon_text(o.status), status_tone(o.status)),
            pv(o.message, Tone::Gray),
        ),
    }
}

pub fn update_row_cells(row: &UpdateRow, tick: u64) -> (res: (Piece, Piece))
    ensures
        (res.0@, res.1@) == update_row_look(row@, tick),
{
    match &row.state {
        RowState::Pending => (piece("·", Tone::DarkGray), piece("queued", Tone::DarkGray)),
        RowState::Running => (
            piece(spinner_frame(tick), Tone::Yellow),
            piece("updating…", Tone::Yellow),
        ),
        RowState::Done(o) => {
            let tone = match o.status {
                UpdateStatus::Updated => Tone::Green,
                UpdateStatus::UpToDate => Tone::DarkGray,
                UpdateStatus::Warning => Tone::Yellow,
                UpdateStatus::Failed => Tone::Red,
                UpdateStatus::Skipped => Tone::Blue,
            };
            (piece(status_icon(o.status), tone), piece_of(o.message.clone(), Tone::Gray))
        },
    }
}

/// The check box, the tone of the branch name and the status of a prune
/// candidate under review.
pub open spec fn review_look(c: CandidateRow) -> (PieceView, Tone, PieceView) {
    (
        if c.selected {
            pv("[x]"@, Tone::Green)
        } else {
            pv("[ ]"@, Tone::DarkGray)
        },
        if c.unique_commits > 0 {
            Tone::Yellow
        } else {
            Tone::White
        },
        pv(
            prune_status_text(c.unique_commits),
            if c.unique_commits == 0 {
                Tone::Green
            } else {
                Tone::Yellow
            },
        ),
    )
}

pub fn review_row_cells(c: &Candidate) -> (res: (Piece, Tone, Piece))
    ensures
        (res.0@, res.1, res.2@) == review_look(c@),
{
    let check = if c.selected {
        piece("[x]", Tone::Green)
    } else {
        piece("[ ]", Tone::DarkGray)
    };
    let branch = if c.unique_commits > 0 {
        Tone::Yellow
    } else {
        Tone::White
    };
    let tone = if c.unique_commits == 0 {
        Tone::Green
    } else {
        Tone::Yellow
    };
    (check, branch, piece_of(prune_status(c.unique_commits), tone))
}

/// The icon and detail of a candidate once deletion has run: deleted (with
/// the old tip when known), failed (with git's message), or kept.
pub open spec fn done_look(r: Option<DeleteView>) -> (PieceView, PieceView) {
    match r {
        Some(d) => if d.ok {
            (
                pv("✓"@, Tone::Green),
                pv(
                    match d.sha {
                        Some(sha) => "deleted (was "@ + sha + ")"@,
                        None => "deleted"@,
                    },
                    Tone::Gray,
                ),
            )
        } else {
            (pv("✗"@, Tone::Red), pv(d.message, Tone::Red))
        },
        None => (pv("–"@, Tone::DarkGray), pv("kept"@, Tone::DarkGray)),
    }
}

pub fn done_row_cells(c: &Candidate) -> (res: (Piece, Piece))
    ensures
        (res.0@, res.1@) == done_look(c@.result),
{
    match &c.result {
        Some(r) => {
            if r.ok {
                let detail = match &r.sha {
                    Some(sha) => {
                        let mut v = chars_of("deleted (was ");
                        push_chars(&mut v, &chars_of(sha.as_str()));
                        push_str(&mut v, ")");
                        string_of(&v)
                    },
                    None => owned("deleted"),
                };
                (piece("✓", Tone::Green), piece_of(detail, Tone::Gray))
            } else {
                (piece("✗", Tone::Red), piece_of(r.message.clone(), Tone::Red))
            }
        },
        None => (piece("–", Tone::DarkGray), piece("kept", Tone::DarkGray)),
    }
}

// ---------------------------------------------------------------------------
// Status lines
// ---------------------------------------------------------------------------

/// The statuses of the finished rows, in order.
pub open spec fn done_statuses(rows: Seq<RowView>) -> Seq<UpdateStatus>
    decreases rows.len(),
{
    if rows.len() == 0 {
        seq![]
    } else {
        let r = done_statuses(rows.drop_last());
        match rows.last().state {
            RowStateView::Done(o) => r.push(o.status),
            _ => r,
        }
    }
}

/// The tally line of the update screen: how many finished rows were
/// updated, already current, warned, failed and skipped.
pub open spec fn update_summary_view(rows: Seq<RowView>) -> Seq<PieceView> {
    let s = done_statuses(rows);
    seq![
        pv(" ✓ "@ + decimal(count_status(s, UpdateStatus::Updated)) + " updated"@, Tone::Green),
        pv(
            "   = "@ + decimal(count_status(s, UpdateStatus::UpToDate)) + " current"@,
            Tone::DarkGray,
        ),
        pv("   ⚠ "@ + decimal(count_status(s, UpdateStatus::Warning)), Tone::Yellow),
        pv("   ✗ "@ + decimal(count_status(s, UpdateStatus::Failed)), Tone::Red),
        pv("   ⊘ "@ + decimal(count_status(s, UpdateStatus::Skipped)), Tone::Blue),
    ]
}

pub fn update_summary(rows: &Vec<UpdateRow>) -> (res: Vec<Piece>)
    ensures
        piece_views(res@) == update_summary_view(row_views(rows@)),
{
    let ghost rv = row_views(rows@);
    let mut statuses: Vec<UpdateStatus> = Vec::new();
    let mut i: usize = 0;
    while i < rows.len()
        invariant
            i <= rows.len(),
            rv == row_views(rows@),
            statuses@ == done_statuses(rv.take(i as int)),
        decreases rows.len() - i,
    {
        let ghost t = rv.take(i as int + 1);
        assert(t.drop_last() =~= rv.take(i as int));
        match &rows[i].state {
            RowState::Done(o) => statuses.push(o.status),
            _ => {},
        }
        i = i + 1;
    }
    assert(rv.take(i as int) =~= rv);
    let t = tally(&statuses);
    proof {
        reveal_strlit("");
    }
    let v = vec![
        piece_of(counted(" ✓ ", t.updated as u64, " updated"), Tone::Green),
        piece_of(counted("   = ", t.current as u64, " current"), Tone::DarkGray),
        piece_of(counted("   ⚠ ", t.warning as u64, ""), Tone::Yellow),
        piece_of(counted("   ✗ ", t.failed as u64, ""), Tone::Red),
        piece_of(counted("   ⊘ ", t.skipped as u64, ""), Tone::Blue),
    ];
    assert(piece_views(v@) =~= update_summary_view(rv));
    v
}

/// The progress shown in the update screen's title: the spinner and
/// `done/total` while running, `done · done/total` after.
pub open spec fn update_progress_view(rows: Seq<RowView>, running: bool, tick: u64) -> PieceView {
    let counts = decimal(rows_done(rows)) + "/"@ + decimal(rows.len());
    if running {
        pv(spinner_at(tick) + " "@ + counts, Tone::Yellow)
    } else {
        pv("done · "@ + counts, Tone::Green)
    }
}

pub fn update_progress(st: &UpdateState, tick: u64) -> (res: Piece)
    ensures
        res@ == update_progress_view(st@.rows, st.running, tick),
{
    let mut v = if st.running {
        let mut v = chars_of(spinner_frame(tick));
        push_str(&mut v, " ");
        v
    } else {
        chars_of("done · ")
    };
    push_chars(&mut v, &decimal_of(st.done_count() as u64));
    push_str(&mut v, "/");
    push_chars(&mut v, &decimal_of(st.rows.len() as u64));
    let tone = if st.running {
        Tone::Yellow
    } else {
        Tone::Green
    };
    let res = piece_of(string_of(&v), tone);
    assert(res@.text =~= update_progress_view(st@.rows, st.running, tick).text);
    res
}

/// The status in the dashboard's title: the spinner and the count so far
/// while scanning, the number of projects after.
pub open spec fn projects_status_view(n: nat, scanning: bool, tick: u64) -> PieceView {
    if scanning {
        pv(spinner_at(tick) + " scanning… ("@ + decimal(n) + ")"@, Tone::Yellow)
    } else {
        pv(decimal(n) + " project(s)"@, Tone::Green)
    }
}

pub fn projects_status(st: &ProjectsState, tick: u64) -> (res: Piece)
    ensures
        res@ == projects_status_view(st@.projects.len(), st.scanning, tick),
{
    let n = st.projects.len() as u64;
    if st.scanning {
        let mut v = chars_of(spinner_frame(tick));
        push_str(&mut v, " scanning… (");
        push_chars(&mut v, &decimal_of(n));
        push_str(&mut v, ")");
        let res = piece_of(string_of(&v), Tone::Yellow);
        assert(res@.text =~= projects_status_view(st@.projects.len(), st.scanning, tick).text);
        res
    } else {
        let res = piece_of(counted("", n, " project(s)"), Tone::Green);
        proof {
            reveal_strlit("");
        }
        assert(res@.text =~= projects_status_view(st@.projects.len(), st.scanning, tick).text);
        res
    }
}

/// The line under the dashboard's title: the highlighted project's error
/// (marked as an error) or its path, or the configured roots when nothing is
/// highlighted.
pub open spec fn projects_subline_view(
    ps: Seq<ProjectView>,
    selected: Option<usize>,
    roots: Seq<Seq<char>>,
) -> (Seq<char>, bool) {
    match selected {
        Some(i) if i < ps.len() => match ps[i as int].error {
            Some(e) => (" ⚠ "@ + e, true),
            None => (" "@ + ps[i as int].path, false),
        },
        _ => (" "@ + joined(roots), false),
    }
}

pub fn projects_subline(st: &ProjectsState, roots: &Vec<String>) -> (res: (String, bool))
    ensures
        (res.0@, res.1) == projects_subline_view(st@.projects, st.selected, text_views(roots@)),
{
    match st.selected {
        Some(i) => {
            if i < st.projects.len() {
                let p = &st.projects[i];
                assert(st@.projects[i as int] == p@);
                return match &p.error {
                    Some(e) => {
                        let mut v = chars_of(" ⚠ ");
                        push_str(&mut v, e.as_str());
                        (string_of(&v), true)
                    },
                    None => {
                        let mut v = chars_of(" ");
                        push_str(&mut v, p.path.as_str());
                        (string_of(&v), false)
                    },
                };
            }
        },
        None => {},
    }
    let mut v = chars_of(" ");
    push_str(&mut v, roots_line(roots).as_str());
    (string_of(&v), false)
}

/// How many candidates have a result whose success is `ok`.
pub open spec fn results_with(cs: Seq<CandidateRow>, ok: bool) -> nat
    decreases cs.len(),
{
    if cs.len() == 0 {
        0
    } else {
        results_with(cs.drop_last(), ok) + if cs.last().result matches Some(r) && r.ok == ok {
            1nat
        } else {
            0nat
        }
    }
}

proof fn lemma_results_with_le(cs: Seq<CandidateRow>, ok: bool)
    ensures
        results_with(cs, ok) <= cs.len(),
    decreases cs.len(),
{
    if cs.len() > 0 {
        lemma_results_with_le(cs.drop_last(), ok);
    }
}

fn count_results(cs: &Vec<Candidate>, ok: bool) -> (res: usize)
    ensures
        res == results_with(cs@.map_values(|c: Candidate| c@), ok),
{
    let ghost cv = cs@.map_values(|c: Candidate| c@);
    let mut n: usize = 0;
    let mut i: usize = 0;
    while i < cs.len()
        invariant
            i <= cs.len(),
            cv == cs@.map_values(|c: Candidate| c@),
            n == results_with(cv.take(i as int), ok),
        decreases cs.len() - i,
    {
        let ghost t = cv.take(i as int + 1);
        assert(t.drop_last() =~= cv.take(i as int));
        proof {
            lemma_results_with_le(t.drop_last(), ok);
        }
        match &cs[i].result {
            Some(r) => {
                if r.ok == ok {
                    n = n + 1;
                }
            },
            None => {},
        }
        i = i + 1;
    }
    assert(cv.take(i as int) =~= cv);
    n
}

/// The status in the prune screen's title: the spinner and the number
/// found while scanning, then how many candidates there are and how many
/// are ticked, and finally how many deletions succeeded and failed.
pub open spec fn prune_status_view(
    phase: PrunePhase,
    cs: Seq<CandidateRow>,
    tick: u64,
) -> PieceView {
    match phase {
        PrunePhase::Collecting => pv(
            spinner_at(tick) + " scanning… ("@ + decimal(cs.len()) + " found)"@,
            Tone::Yellow,
        ),
        PrunePhase::Review => pv(
            decimal(cs.len()) + " candidate(s) · "@ + decimal(ticked(cs)) + " selected"@,
            Tone::Cyan,
        ),
        PrunePhase::Done => pv(
            "deleted "@ + decimal(results_with(cs, true)) + " · failed "@ + decimal(
                results_with(cs, false),
            ),
            Tone::Green,
        ),
    }
}

pub fn prune_header_status(st: &PruneState, tick: u64) -> (res: Piece)
    ensures
        res@ == prune_status_view(st.phase, st@.candidates, tick),
{
    let n = st.candidates.len() as u64;
    match st.phase {
        PrunePhase::Collecting => {
            let mut v = chars_of(spinner_frame(tick));
            push_str(&mut v, " scanning… (");
            push_chars(&mut v, &decimal_of(n));
            push_str(&mut v, " found)");
            piece_of(string_of(&v), Tone::Yellow)
        },
        PrunePhase::Review => {
            let mut v = decimal_of(n);
            push_str(&mut v, " candidate(s) · ");
            push_chars(&mut v, &decimal_of(st.selected_count() as u64));
            push_str(&mut v, " selected");
            piece_of(string_of(&v), Tone::Cyan)
        },
        PrunePhase::Done => {
            let deleted = count_results(&st.candidates, true);
            let failed = count_results(&st.candidates, false);
            let mut v = chars_of("deleted ");
            push_chars(&mut v, &decimal_of(deleted as u64));
            push_str(&mut v, " · failed ");
            push_chars(&mut v, &decimal_of(failed as u64));
            piece_of(string_of(&v), Tone::Green)
        },
    }
}

/// The question asked before deleting `n` branches.
pub fn delete_prompt(n: usize) -> (res: String)
    ensures
        res@ == " Delete "@ + decimal(n as nat) + " branch(es)? "@,
{
    counted(" Delete ", n as u64, " branch(es)? ")
}

/// The configured roots, separated by commas.
pub open spec fn joined(parts: Seq<Seq<char>>) -> Seq<char>
    decreases parts.len(),
{
    if parts.len() == 0 {
        seq![]
    } else if parts.len() == 1 {
        parts[0]
    } else {
        joined(parts.drop_last()) + ", "@ + parts.last()
    }
}

pub fn roots_line(roots: &Vec<String>) -> (res: String)
    ensures
        res@ == joined(text_views(roots@)),
{
    let ghost rv = text_views(roots@);
    let mut v: Vec<char> = Vec::new();
    let mut i: usize = 0;
    while i < roots.len()
        invariant
            i <= roots.len(),
            rv == text_views(roots@),
            v@ == joined(rv.take(i as int)),
        decreases roots.len() - i,
    {
        let ghost t = rv.take(i as int + 1);
        assert(t.drop_last() =~= rv.take(i as int));
        if i > 0 {
            push_str(&mut v, ", ");
        }
        push_chars(&mut v, &chars_of(roots[i].as_str()));
        i = i + 1;
    }
    assert(rv.take(i as int) =~= rv);
    string_of(&v)
}

} // verus!
