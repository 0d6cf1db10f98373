//! A snapshot of one repository's local state, read from `git status`.
use vstd::prelude::*;
use crate::numbers::{parse_unsigned, parse_unsigned_of};
use crate::split::{
    lines, lines_of, split_all, split_all_of, starts_with, starts_with_of, views, words, words_of,
};
use crate::text::{
    blank, chars_of, is_blank, owned, push_chars, push_str,
    same_chars, slice, string_of, trim, trim_chars,
};

verus! {

broadcast use vstd::seq::group_seq_axioms;

/// A single discovered git project and a snapshot of its local state.
pub struct Project {
    pub name: String,
    /// Where the repository lives.
    pub path: String,
    /// Current branch name, a short SHA when detached, or a status label.
    pub branch: String,
    pub detached: bool,
    pub dirty: bool,
    /// `(ahead, behind)` relative to the configured upstream, if any.
    pub upstream: Option<(usize, usize)>,
    /// Commit time of HEAD, in seconds since the Unix epoch.
    pub last_commit: Option<u64>,
    pub error: Option<String>,
}

/// The contents of a [`Project`].
pub struct ProjectView {
    pub name: Seq<char>,
    pub path: Seq<char>,
    pub branch: Seq<char>,
    pub detached: bool,
    pub dirty: bool,
    pub upstream: Option<(usize, usize)>,
    pub last_commit: Option<u64>,
    pub error: Option<Seq<char>>,
}

pub open spec fn opt_text(o: Option<String>) -> Option<Seq<char>> {
    match o {
        Some(s) => Some(s@),
        None => None,
    }
}

impl View for Project {
    type V = ProjectView;

    open spec fn view(&self) -> ProjectView {
        ProjectView {
            name: self.name@,
            path: self.path@,
            branch: self.branch@,
            detached: self.detached,
            dirty: self.dirty,
            upstream: self.upstream,
            last_commit: self.last_commit,
            error: opt_text(self.error),
        }
    }
}

/// A fresh snapshot before anything is known: branch `?`, clean, no
/// upstream, no commit time, no error.
pub open spec fn new_project(name: Seq<char>, path: Seq<char>) -> ProjectView {
    ProjectView {
        name,
        path,
        branch: "?"@,
        detached: false,
        dirty: false,
        upstream: None,
        last_commit: None,
        error: None,
    }
}

/// `s.parse::<usize>().unwrap_or(0)`.
pub open spec fn usize_or_zero(s: Seq<char>) -> usize {
    match parse_unsigned(s, usize::MAX as nat) {
        Some(n) => n as usize,
        None => 0,
    }
}

/// The counts of a `# branch.ab +A -B` header, from its tokens: the last
/// `+N` token gives ahead, the last `-N` token behind.
pub open spec fn ab_counts(toks: Seq<Seq<char>>) -> (usize, usize)
    decreases toks.len(),
{
    if toks.len() == 0 {
        (0, 0)
    } else {
        let (a, b) = ab_counts(toks.drop_last());
        let t = toks.last();
        if t.len() > 0 && t[0] == '+' {
            (usize_or_zero(t.drop_first()), b)
        } else if t.len() > 0 && t[0] == '-' {
            (a, usize_or_zero(t.drop_first()))
        } else {
            (a, b)
        }
    }
}

/// What reading `git status --porcelain=v2 --branch` has gathered so far.
pub struct StatusScan {
    pub p: ProjectView,
    pub oid: Option<Seq<char>>,
    pub dirty: bool,
}

/// Reads one line of porcelain-v2 status output.
pub open spec fn status_line(acc: StatusScan, line: Seq<char>) -> StatusScan {
    if starts_with(line, "# branch.oid "@) {
        StatusScan { oid: Some(line.skip("# branch.oid "@.len() as int)), ..acc }
    } else if starts_with(line, "# branch.head "@) {
        let rest = line.skip("# branch.head "@.len() as int);
        if rest == "(detached)"@ {
            StatusScan { p: ProjectView { detached: true, ..acc.p }, ..acc }
        } else {
            StatusScan { p: ProjectView { branch: rest, ..acc.p }, ..acc }
        }
    } else if starts_with(line, "# branch.ab "@) {
        let rest = line.skip("# branch.ab "@.len() as int);
        StatusScan { p: ProjectView { upstream: Some(ab_counts(words(rest))), ..acc.p }, ..acc }
    } else if !starts_with(line, "#"@) && !is_blank(line) {
        StatusScan { dirty: true, ..acc }
    } else {
        acc
    }
}

/// Reads the lines in order.
pub open spec fn status_lines(acc: StatusScan, ls: Seq<Seq<char>>) -> StatusScan
    decreases ls.len(),
{
    if ls.len() == 0 {
        acc
    } else {
        status_line(status_lines(acc, ls.drop_last()), ls.last())
    }
}

/// The branch label once all lines are read: a detached HEAD shows `@` and
/// the first seven characters of its commit (or `(detached)` without one);
/// a branch without commits is marked ` (no commits)`.
pub open spec fn status_finish(acc: StatusScan) -> ProjectView {
    let p = ProjectView { dirty: acc.dirty, ..acc.p };
    if p.detached {
        match acc.oid {
            Some(o) if o != "(initial)"@ => ProjectView {
                branch: "@"@ + o.take(if o.len() < 7 {
                    o.len() as int
                } else {
                    7
                }),
                ..p
            },
            _ => ProjectView { branch: "(detached)"@, ..p },
        }
    } else if acc.oid == Some("(initial)"@) {
        ProjectView { branch: p.branch + " (no commits)"@, ..p }
    } else {
        p
    }
}

/// The snapshot `p` updated from porcelain-v2 status text `s`.
pub open spec fn apply_status(p: ProjectView, s: Seq<char>) -> ProjectView {
    status_finish(status_lines(StatusScan { p, oid: None, dirty: false }, lines(s)))
}

proof fn lemma_header_prefix(line: Seq<char>, p: Seq<char>)
    requires
        p.len() > 0,
        p[0] == '#',
        starts_with(line, p),
    ensures
        starts_with(line, "#"@),
{
    reveal_strlit("#");
    assert(line[0] == line.subrange(0, p.len() as int)[0]);
    assert(line.subrange(0, 1) =~= "#"@);
}

proof fn lemma_status_line_dirty(acc: StatusScan, line: Seq<char>)
    ensures
        status_line(acc, line).dirty == (acc.dirty || (!starts_with(line, "#"@) && !is_blank(
            line,
        ))),
{
    reveal_strlit("# branch.oid ");
    reveal_strlit("# branch.head ");
    reveal_strlit("# branch.ab ");
    if starts_with(line, "# branch.oid "@) {
        lemma_header_prefix(line, "# branch.oid "@);
    } else if starts_with(line, "# branch.head "@) {
        lemma_header_prefix(line, "# branch.head "@);
    } else if starts_with(line, "# branch.ab "@) {
        lemma_header_prefix(line, "# branch.ab "@);
    }
}

proof fn lemma_status_lines_dirty(acc: StatusScan, ls: Seq<Seq<char>>)
    ensures
        status_lines(acc, ls).dirty == (acc.dirty || exists|i: int|
            0 <= i < ls.len() && !starts_with(#[trigger] ls[i], "#"@) && !is_blank(ls[i])),
    decreases ls.len(),
{
    if ls.len() > 0 {
        let init = ls.drop_last();
        lemma_status_lines_dirty(acc, init);
        lemma_status_line_dirty(status_lines(acc, init), ls.last());
        if exists|i: int| 0 <= i < init.len() && !starts_with(#[trigger] init[i], "#"@) && !is_blank(
            init[i],
        ) {
            let i = choose|i: int|
                0 <= i < init.len() && !starts_with(#[trigger] init[i], "#"@) && !is_blank(init[i]);
            assert(ls[i] == init[i]);
        }
        if exists|i: int| 0 <= i < ls.len() && !starts_with(#[trigger] ls[i], "#"@) && !is_blank(
            ls[i],
        ) {
            let i = choose|i: int|
                0 <= i < ls.len() && !starts_with(#[trigger] ls[i], "#"@) && !is_blank(ls[i]);
            if i < init.len() {
                assert(init[i] == ls[i]);
            } else {
                assert(ls[i] == ls.last());
            }
        }
    }
}

proof fn lemma_status_line_marks(acc: StatusScan, line: Seq<char>)
    ensures
        (status_line(acc, line).p.upstream is Some) == (acc.p.upstream is Some || starts_with(
            line,
            "# branch.ab "@,
        )),
        status_line(acc, line).p.detached == (acc.p.detached || line == "# branch.head (detached)"@),
{
    reveal_strlit("# branch.oid ");
    reveal_strlit("# branch.head ");
    reveal_strlit("# branch.ab ");
    reveal_strlit("(detached)");
    reveal_strlit("# branch.head (detached)");
    let oid = "# branch.oid "@;
    let head = "# branch.head "@;
    let ab = "# branch.ab "@;
    if starts_with(line, ab) {
        assert(line[9] == ab[9]);
        assert(!starts_with(line, oid)) by {
            if starts_with(line, oid) {
                assert(line[9] == oid[9]);
            }
        }
        assert(!starts_with(line, head)) by {
            if starts_with(line, head) {
                assert(line[9] == head[9]);
            }
        }
    }
    if line == "# branch.head (detached)"@ {
        assert(line.subrange(0, head.len() as int) =~= head);
        assert(line.skip(head.len() as int) =~= "(detached)"@);
        assert(line[9] != oid[9]);
    }
    if starts_with(line, head) && line.skip(head.len() as int) == "(detached)"@ {
        assert(line =~= line.subrange(0, head.len() as int) + line.skip(head.len() as int));
        assert(line =~= "# branch.head (detached)"@);
        assert(!starts_with(line, oid)) by {
            if starts_with(line, oid) {
                assert(line[9] == oid[9]);
            }
        }
    }
}

proof fn lemma_status_lines_marks(acc: StatusScan, ls: Seq<Seq<char>>)
    ensures
        (status_lines(acc, ls).p.upstream is Some) == (acc.p.upstream is Some || exists|i: int|
            0 <= i < ls.len() && starts_with(#[trigger] ls[i], "# branch.ab "@)),
        status_lines(acc, ls).p.detached == (acc.p.detached || exists|i: int|
            0 <= i < ls.len() && #[trigger] ls[i] == "# branch.head (detached)"@),
    decreases ls.len(),
{
    if ls.len() > 0 {
        let init = ls.drop_last();
        lemma_status_lines_marks(acc, init);
        lemma_status_line_marks(status_lines(acc, init), ls.last());
        assert forall|i: int| 0 <= i < init.len() implies #[trigger] init[i] == ls[i] by {}
        assert(ls[ls.len() - 1] == ls.last());
        if exists|i: int| 0 <= i < ls.len() && starts_with(#[trigger] ls[i], "# branch.ab "@) {
            let i = choose|i: int| 0 <= i < ls.len() && starts_with(#[trigger] ls[i], "# branch.ab "@);
            if i < init.len() {
                assert(starts_with(init[i], "# branch.ab "@));
            }
        }
        if exists|i: int| 0 <= i < ls.len() && #[trigger] ls[i] == "# branch.head (detached)"@ {
            let i = choose|i: int| 0 <= i < ls.len() && #[trigger] ls[i] == "# branch.head (detached)"@;
            if i < init.len() {
                assert(init[i] == "# branch.head (detached)"@);
            }
        }
    }
}

/// A project has an upstream exactly when git's status output has a
/// `# branch.ab` line, and its HEAD is detached exactly when the output
/// says `# branch.head (detached)`.
pub proof fn lemma_upstream_and_detached(s: Seq<char>, name: Seq<char>, path: Seq<char>)
    ensures
        (apply_status(new_project(name, path), s).upstream is Some) <==> exists|i: int|
            0 <= i < lines(s).len() && starts_with(#[trigger] lines(s)[i], "# branch.ab "@),
        apply_status(new_project(name, path), s).detached <==> exists|i: int|
            0 <= i < lines(s).len() && #[trigger] lines(s)[i] == "# branch.head (detached)"@,
{
    lemma_status_lines_marks(
        StatusScan { p: new_project(name, path), oid: None, dirty: false },
        lines(s),
    );
}

/// A project is dirty exactly when git's status output lists an entry: a
/// line that is neither a `#` header nor blank (changed, renamed, unmerged
/// or untracked files alike).
pub proof fn lemma_dirty_iff_entry(p: ProjectView, s: Seq<char>)
    ensures
        apply_status(p, s).dirty <==> exists|i: int|
            0 <= i < lines(s).len() && !starts_with(#[trigger] lines(s)[i], "#"@) && !is_blank(
                lines(s)[i],
            ),
{
    lemma_status_lines_dirty(StatusScan { p, oid: None, dirty: false }, lines(s));
}

/// The snapshot that [`load_project`] builds from the outputs of
/// `git status` and `git log` (each `None` when the command failed).
pub open spec fn loaded_project(
    name: Seq<char>,
    path: Seq<char>,
    status: Option<Seq<char>>,
    head_time: Option<Seq<char>>,
) -> ProjectView {
    let p0 = new_project(name, path);
    let p1 = match status {
        Some(s) => apply_status(p0, s),
        None => ProjectView { error: Some("git status failed"@), ..p0 },
    };
    match head_time {
        Some(out) => match parse_unsigned(trim(out), u64::MAX as nat) {
            Some(t) => ProjectView { last_commit: Some(t as u64), ..p1 },
            None => p1,
        },
        None => p1,
    }
}

pub open spec fn opt_chars(o: Option<Vec<char>>) -> Option<Seq<char>> {
    match o {
        Some(v) => Some(v@),
        None => None,
    }
}

// ---------------------------------------------------------------------------

impl Project {
    /// A copy of this snapshot.
    pub fn duplicate(&self) -> (res: Project)
        ensures
            res@ == self@,
    {
        Project {
            name: self.name.clone(),
            path: self.path.clone(),
            branch: self.branch.clone(),
            detached: self.detached,
            dirty: self.dirty,
            upstream: self.upstream,
            last_commit: self.last_commit,
            error: match &self.error {
                Some(e) => Some(e.clone()),
                None => None,
            },
        }
    }

    pub fn new(name: String, path: String) -> (res: Project)
        ensures
            res@ == new_project(name@, path@),
    {
        Project {
            name,
            path,
            branch: owned("?"),
            detached: false,
            dirty: false,
            upstream: None,
            last_commit: None,
            error: None,
        }
    }
}

fn ab_counts_of(toks: &Vec<Vec<char>>) -> (res: (usize, usize))
    ensures
        res == ab_counts(views(toks@)),
{
    let mut ahead: usize = 0;
    let mut behind: usize = 0;
    let mut i: usize = 0;
    while i < toks.len()
        invariant
            i <= toks.len(),
            (ahead, behind) == ab_counts(views(toks@).take(i as int)),
        decreases toks.len() - i,
    {
        let t = &toks[i];
        let ghost ts = views(toks@).take(i as int + 1);
        assert(ts.drop_last() =~= views(toks@).take(i as int));
        assert(ts.last() == t@);
        if t.len() > 0 && t[0] == '+' {
            let rest = slice(t, 1, t.len());
            assert(rest@ =~= t@.drop_first());
            ahead = match parse_unsigned_of(&rest, usize::MAX as u64) {
                Some(n) => n as usize,
                None => 0,
            };
        } else if t.len() > 0 && t[0] == '-' {
            let rest = slice(t, 1, t.len());
            assert(rest@ =~= t@.drop_first());
            behind = match parse_unsigned_of(&rest, usize::MAX as u64) {
                Some(n) => n as usize,
                None => 0,
            };
        }
        i = i + 1;
    }
    assert(views(toks@).take(toks@.len() as int) =~= views(toks@));
    (ahead, behind)
}

/// Reads porcelain-v2 status text (`git status --porcelain=v2 --branch`)
/// into `p`: branch or detached state, upstream ahead/behind, dirtiness.
pub fn parse_status(p: &mut Project, s: &str)
    ensures
        final(p)@ == apply_status(old(p)@, s@),
{
    let text = chars_of(s);
    let ls = lines_of(&text);
    let p_oid = chars_of("# branch.oid ");
    let p_head = chars_of("# branch.head ");
    let p_ab = chars_of("# branch.ab ");
    let hash = chars_of("#");
    let detached_label = chars_of("(detached)");
    let initial = chars_of("(initial)");
    let ghost start = StatusScan { p: p@, oid: None, dirty: false };
    let mut oid: Option<Vec<char>> = None;
    let mut dirty = false;
    let mut i: usize = 0;
    while i < ls.len()
        invariant
            i <= ls.len(),
            views(ls@) == lines(s@),
            p_oid@ == "# branch.oid "@,
            p_head@ == "# branch.head "@,
            p_ab@ == "# branch.ab "@,
            hash@ == "#"@,
            detached_label@ == "(detached)"@,
            (StatusScan {
                p: p@,
                oid: opt_chars(oid),
                dirty,
            }) == status_lines(start, views(ls@).take(i as int)),
        decreases ls.len() - i,
    {
        let line = &ls[i];
        let ghost acc = StatusScan {
            p: p@,
            oid: opt_chars(oid),
            dirty,
        };
        let ghost ts = views(ls@).take(i as int + 1);
        assert(ts.drop_last() =~= views(ls@).take(i as int));
        assert(ts.last() == line@);
        if starts_with_of(line, &p_oid) {
            let rest = slice(line, p_oid.len(), line.len());
            assert(rest@ =~= line@.skip("# branch.oid "@.len() as int));
            oid = Some(rest);
        } else if starts_with_of(line, &p_head) {
            let rest = slice(line, p_head.len(), line.len());
            assert(rest@ =~= line@.skip("# branch.head "@.len() as int));
            if same_chars(&rest, &detached_label) {
                p.detached = true;
            } else {
                p.branch = string_of(&rest);
            }
        } else if starts_with_of(line, &p_ab) {
            let rest = slice(line, p_ab.len(), line.len());
            assert(rest@ =~= line@.skip("# branch.ab "@.len() as int));
            let toks = words_of(&rest);
            p.upstream = Some(ab_counts_of(&toks));
        } else if !starts_with_of(line, &hash) && !blank(line) {
            dirty = true;
        }
        i = i + 1;
    }
    assert(views(ls@).take(ls@.len() as int) =~= views(ls@));
    p.dirty = dirty;
    if p.detached {
        let label = match &oid {
            Some(o) => {
                if same_chars(o, &initial) {
                    chars_of("(detached)")
                } else {
                    let mut b = chars_of("@");
                    let n = if o.len() < 7 {
                        o.len()
                    } else {
                        7
                    };
                    let head = slice(o, 0, n);
                    assert(head@ =~= o@.take(n as int));
                    push_chars(&mut b, &head);
                    b
                }
            },
            None => chars_of("(detached)"),
        };
        p.branch = string_of(&label);
    } else {
        match &oid {
            Some(o) => {
                if same_chars(o, &initial) {
                    let mut b = chars_of(p.branch.as_str());
                    push_str(&mut b, " (no commits)");
                    p.branch = string_of(&b);
                }
            },
            None => {},
        }
    }
}

/// The components of a `/`-separated path that name something: empty
/// pieces (repeated or trailing separators) and `.` are left out, as
/// `Path::components` leaves them out after the start.
pub open spec fn named_parts(ps: Seq<Seq<char>>) -> Seq<Seq<char>>
    decreases ps.len(),
{
    if ps.len() == 0 {
        seq![]
    } else {
        let r = named_parts(ps.drop_last());
        if ps.last().len() == 0 || ps.last() == seq!['.'] {
            r
        } else {
            r.push(ps.last())
        }
    }
}

/// `Path::file_name`: the last component, unless the path ends in `..` or
/// has no named component (`/`, `.`, the empty path).
pub open spec fn file_name(path: Seq<char>) -> Option<Seq<char>> {
    let ps = named_parts(split_all(path, '/'));
    if ps.len() == 0 || ps.last() == seq!['.', '.'] {
        None
    } else {
        Some(ps.last())
    }
}

/// A project's name: the last component of its path, or the whole path
/// when it has none.
pub open spec fn project_name_of(path: Seq<char>) -> Seq<char> {
    match file_name(path) {
        Some(n) => n,
        None => path,
    }
}

fn is_dots(v: &Vec<char>, n: usize) -> (res: bool)
    requires
        1 <= n <= 2,
    ensures
        res == (v@ == Seq::new(n as nat, |i: int| '.')),
{
    if v.len() != n {
        return false;
    }
    let mut i: usize = 0;
    while i < n
        invariant
            i <= n,
            v@.len() == n,
            forall|k: int| 0 <= k < i ==> v@[k] == '.',
        decreases n - i,
    {
        if v[i] != '.' {
            return false;
        }
        i = i + 1;
    }
    assert(v@ =~= Seq::new(n as nat, |i: int| '.'));
    true
}

/// The name of the project at `path` (see [`project_name_of`]).
pub fn project_name(path: &str) -> (res: String)
    ensures
        res@ == project_name_of(path@),
{
    let v = chars_of(path);
    let ps = split_all_of(&v, '/');
    let ghost pv = views(ps@);
    let mut last: Option<usize> = None;
    let mut i: usize = 0;
    while i < ps.len()
        invariant
            i <= ps.len(),
            pv == views(ps@),
            match last {
                None => named_parts(pv.take(i as int)).len() == 0,
                Some(j) => j < i && named_parts(pv.take(i as int)).len() > 0 && named_parts(
                    pv.take(i as int),
                ).last() == pv[j as int],
            },
        decreases ps.len() - i,
    {
        let ghost t = pv.take(i as int + 1);
        assert(t.drop_last() =~= pv.take(i as int));
        assert(t.last() == pv[i as int]);
        assert(seq!['.'] =~= Seq::new(1, |k: int| '.'));
        if ps[i].len() > 0 && !is_dots(&ps[i], 1) {
            last = Some(i);
        }
        i = i + 1;
    }
    assert(pv.take(ps@.len() as int) =~= pv);
    assert(seq!['.', '.'] =~= Seq::new(2, |k: int| '.'));
    match last {
        Some(j) => {
            if is_dots(&ps[j], 2) {
                owned(path)
            } else {
                string_of(&ps[j])
            }
        },
        None => owned(path),
    }
}

/// Builds the snapshot of the project at `path` from the outputs of `git
/// status --porcelain=v2 --branch` and `git log -1 --format=%ct` (each
/// `None` when the command failed). Never fails: a failed status leaves an
/// `error`.
pub fn load_project(path: String, status: Option<String>, head_time: Option<String>) -> (res:
    Project)
    ensures
        res@ == loaded_project(
            project_name_of(path@),
            path@,
            opt_text(status),
            opt_text(head_time),
        ),
{
    let name = project_name(path.as_str());
    let mut p = Project::new(name, path);
    match &status {
        Some(s) => parse_status(&mut p, s.as_str()),
        None => p.error = Some(owned("git status failed")),
    }
    match &head_time {
        Some(out) => {
            let t = trim_chars(&chars_of(out.as_str()));
            match parse_unsigned_of(&t, u64::MAX) {
                Some(secs) => p.last_commit = Some(secs),
                None => {},
            }
        },
        None => {},
    }
    p
}

/// The arguments of the `git status` call that [`load_project`] reads.
pub fn status_args() -> (res: Vec<String>)
    ensures
        res@.map_values(|a: String| a@) == seq!["status"@, "--porcelain=v2"@, "--branch"@],
{
    let v = vec![owned("status"), owned("--porcelain=v2"), owned("--branch")];
    assert(v@.map_values(|a: String| a@) =~= seq!["status"@, "--porcelain=v2"@, "--branch"@]);
    v
}

/// The arguments of the `git log` call that gives HEAD's commit time.
pub fn head_time_args() -> (res: Vec<String>)
    ensures
        res@.map_values(|a: String| a@) == seq!["log"@, "-1"@, "--format=%ct"@],
{
    let v = vec![owned("log"), owned("-1"), owned("--format=%ct")];
    assert(v@.map_values(|a: String| a@) =~= seq!["log"@, "-1"@, "--format=%ct"@]);
    v
}

} // verus!
