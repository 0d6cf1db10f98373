use pelper::config::Config;
use pelper::prune::{DeleteResult, PruneCandidate, PruneScanMsg};
use pelper::repo::Project;
use pelper::scan::ScanMsg;
use pelper::states::{PrunePhase, RowState, Screen};
use pelper::tui::{App, Effect, Key, ReleasePoll};
use pelper::update::{UpdateMsg, UpdateOutcome, UpdateStatus};

fn cfg() -> Config {
    Config {
        roots: vec!["/src".to_string()],
        default_branches: vec!["main".to_string(), "master".to_string()],
    }
}

fn project(name: &str, t: u64) -> Project {
    let mut p = Project::new(name.into(), format!("/src/{name}"));
    p.last_commit = Some(t);
    p
}

fn idle(app: &mut App) {
    app.on_tick(vec![], vec![], vec![], ReleasePoll::Pending);
}

/// The dashboard with two scanned projects, `new` above `old`.
fn dashboard() -> App {
    let mut app = App::new(cfg());
    assert!(matches!(app.on_key(Key::Enter), Effect::Scan));
    app.on_tick(
        vec![
            ScanMsg::Found(Box::new(project("old", 1))),
            ScanMsg::Found(Box::new(project("new", 2))),
            ScanMsg::Done,
        ],
        vec![],
        vec![],
        ReleasePoll::Pending,
    );
    app
}

#[test]
fn opening_projects_scans_once() {
    let mut app = App::new(cfg());
    assert_eq!(app.screen, Screen::Home);
    let e = app.on_key(Key::Enter);
    assert!(matches!(e, Effect::Scan));
    assert_eq!(app.screen, Screen::Projects);
    assert!(app.projects.scanning);
    assert!(matches!(app.on_key(Key::Esc), Effect::Nothing));
    assert_eq!(app.screen, Screen::Home);
    // Results are still streaming in: no second scan.
    assert!(matches!(app.on_key(Key::Enter), Effect::Nothing));
}

#[test]
fn scan_results_are_listed_newest_first() {
    let app = dashboard();
    let names: Vec<&str> = app.projects.projects.iter().map(|p| p.name.as_str()).collect();
    assert_eq!(names, vec!["new", "old"]);
    assert_eq!(app.projects.selected, Some(0));
    assert!(!app.projects.scanning);
}

#[test]
fn detail_shows_branches_in_listing_order() {
    let mut app = dashboard();
    app.on_key(Key::Down);
    let p = match app.on_key(Key::Enter) {
        Effect::LoadDetail(p) => p,
        _ => panic!("expected the detail to load"),
    };
    assert_eq!(p.name, "old");
    app.show_detail(p, "topic\t9\tAda\t\t\t \tt\nmain\t1\tAda\t\t\t*\tm\n");
    assert_eq!(app.screen, Screen::ProjectDetail);
    let d = app.detail.as_ref().unwrap();
    let names: Vec<&str> = d.branches.iter().map(|b| b.name.as_str()).collect();
    assert_eq!(names, vec!["main", "topic"]);
    assert_eq!(d.selected, Some(0));
    match app.on_key(Key::Char('u')) {
        Effect::Update(ts) => assert_eq!(ts, vec![("old".to_string(), "/src/old".to_string())]),
        _ => panic!("expected an update"),
    }
    assert_eq!(app.screen, Screen::Update);
    assert_eq!(app.update.as_ref().unwrap().title, "Updating old");
}

#[test]
fn update_all_tracks_progress_and_refreshes_after() {
    let mut app = dashboard();
    match app.on_key(Key::Char('u')) {
        Effect::Update(ts) => assert_eq!(ts.len(), 2),
        _ => panic!("expected an update"),
    }
    assert_eq!(app.update.as_ref().unwrap().title, "Updating 2 projects");
    app.on_tick(
        vec![],
        vec![
            UpdateMsg::Started("new".into()),
            UpdateMsg::Done(Box::new(UpdateOutcome {
                name: "new".into(),
                status: UpdateStatus::Updated,
                message: "main: fast-forwarded".into(),
            })),
        ],
        vec![],
        ReleasePoll::Pending,
    );
    let u = app.update.as_ref().unwrap();
    assert!(u.running);
    assert!(matches!(u.rows[0].state, RowState::Done(_)));
    assert!(matches!(u.rows[1].state, RowState::Pending));
    // Leaving while it runs does not rescan.
    assert!(matches!(app.on_key(Key::Esc), Effect::Nothing));
    assert_eq!(app.screen, Screen::Projects);
    assert!(app.update.is_none());
}

#[test]
fn finished_update_rescans_on_leave() {
    let mut app = dashboard();
    app.on_key(Key::Char('u'));
    app.on_tick(vec![], vec![UpdateMsg::AllDone], vec![], ReleasePoll::Pending);
    assert!(!app.update.as_ref().unwrap().running);
    assert!(matches!(app.on_key(Key::Esc), Effect::Scan));
    assert!(app.projects.projects.is_empty());
}

#[test]
fn prune_asks_before_deleting_the_ticked_branches() {
    let mut app = dashboard();
    assert!(matches!(app.on_key(Key::Char('p')), Effect::Prune(_)));
    assert_eq!(app.screen, Screen::Prune);
    let c = |b: &str| {
        PruneScanMsg::Found(Box::new(PruneCandidate {
            project: "new".into(),
            path: "/src/new".into(),
            branch: b.into(),
            last_commit: None,
            unique_commits: 0,
        }))
    };
    app.on_tick(vec![], vec![], vec![c("a"), c("b"), PruneScanMsg::Done], ReleasePoll::Pending);
    let p = app.prune.as_ref().unwrap();
    assert_eq!(p.phase, PrunePhase::Review);
    assert!(p.candidates.iter().all(|c| c.selected));
    // Untick the first, then ask to delete.
    app.on_key(Key::Char(' '));
    assert!(matches!(app.on_key(Key::Char('d')), Effect::Nothing));
    assert!(app.prune.as_ref().unwrap().confirm);
    let ds = match app.on_key(Key::Char('y')) {
        Effect::Delete(ds) => ds,
        _ => panic!("expected deletions"),
    };
    assert_eq!(ds.len(), 1);
    assert_eq!((ds[0].index, ds[0].path.as_str(), ds[0].branch.as_str()), (1, "/src/new", "b"));
    assert_eq!(app.prune.as_ref().unwrap().phase, PrunePhase::Done);
    // A result for a candidate that was not ticked is not taken.
    app.record_deletion(0, DeleteResult { ok: true, sha: None, message: String::new() });
    app.record_deletion(1, DeleteResult { ok: true, sha: Some("abc".into()), message: String::new() });
    assert!(app.prune.as_ref().unwrap().candidates[1].result.as_ref().unwrap().ok);
    assert!(app.prune.as_ref().unwrap().candidates[0].result.is_none());
    // Leaving always refreshes the origin.
    assert!(matches!(app.on_key(Key::Esc), Effect::Scan));
    assert!(app.prune.is_none());
}

#[test]
fn nothing_ticked_means_no_confirmation() {
    let mut app = dashboard();
    app.on_key(Key::Char('p'));
    app.on_tick(vec![], vec![], vec![PruneScanMsg::Done], ReleasePoll::Pending);
    app.on_key(Key::Char('d'));
    assert!(!app.prune.as_ref().unwrap().confirm);
    assert!(matches!(app.on_key(Key::Char('y')), Effect::Nothing));
}

#[test]
fn interrupt_quits_anywhere() {
    let mut app = dashboard();
    app.on_key(Key::Char('?'));
    assert!(matches!(app.on_key(Key::Interrupt), Effect::Nothing));
    assert!(app.should_quit);
}

#[test]
fn help_overlay_swallows_navigation() {
    let mut app = dashboard();
    app.on_key(Key::Char('?'));
    assert!(app.show_help);
    app.on_key(Key::Down);
    assert_eq!(app.projects.selected, Some(0));
    assert!(matches!(app.on_key(Key::Char('u')), Effect::Nothing));
    assert_eq!(app.screen, Screen::Projects);
    app.on_key(Key::Esc);
    assert!(!app.show_help);
    app.on_key(Key::Char('?'));
    app.on_key(Key::Char('?'));
    assert!(!app.show_help);
}

#[test]
fn release_answer_is_taken_once() {
    let mut app = App::new(cfg());
    idle(&mut app);
    assert!(app.awaiting_release);
    app.on_tick(vec![], vec![], vec![], ReleasePoll::Ready(Some("v9.9.9".into())));
    assert_eq!(app.update_available.as_deref(), Some("v9.9.9"));
    assert!(!app.awaiting_release);
    app.on_tick(vec![], vec![], vec![], ReleasePoll::Ready(None));
    assert_eq!(app.update_available.as_deref(), Some("v9.9.9"));
}

#[test]
fn ticks_count_frames() {
    let mut app = App::new(cfg());
    idle(&mut app);
    idle(&mut app);
    assert_eq!(app.tick, 2);
    app.tick = u64::MAX;
    idle(&mut app);
    assert_eq!(app.tick, 0);
}

#[test]
fn q_quits_from_home() {
    let mut app = App::new(cfg());
    app.on_key(Key::Char('q'));
    assert!(app.should_quit);
}

#[test]
fn results_before_confirmation_are_ignored() {
    let mut app = dashboard();
    app.on_key(Key::Char('p'));
    let c = PruneScanMsg::Found(Box::new(PruneCandidate {
        project: "new".into(),
        path: "/src/new".into(),
        branch: "a".into(),
        last_commit: None,
        unique_commits: 0,
    }));
    app.on_tick(vec![], vec![], vec![c, PruneScanMsg::Done], ReleasePoll::Pending);
    app.record_deletion(0, DeleteResult { ok: true, sha: None, message: String::new() });
    assert!(app.prune.as_ref().unwrap().candidates[0].result.is_none());
}

#[test]
fn an_empty_scan_is_not_repeated_on_reopening() {
    let mut app = App::new(cfg());
    assert!(matches!(app.on_key(Key::Enter), Effect::Scan));
    app.on_tick(vec![ScanMsg::Done], vec![], vec![], ReleasePoll::Pending);
    assert!(app.projects.projects.is_empty());
    app.on_key(Key::Esc);
    assert!(matches!(app.on_key(Key::Enter), Effect::Nothing));
    assert_eq!(app.screen, Screen::Projects);
    // A rescan is still there for the asking.
    assert!(matches!(app.on_key(Key::Char('r')), Effect::Scan));
}
