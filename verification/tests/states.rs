use pelper::gitio::first_line;
use pelper::prune::PruneScanMsg;
use pelper::prune::PruneCandidate;
use pelper::states::{
    features, next_selection, prev_selection, DetailState, HomeState, ProjectsState, PrunePhase,
    PruneState, Screen, UpdateState,
};
use pelper::repo::Project;
use pelper::scan::ScanMsg;

fn candidate(b: &str) -> PruneScanMsg {
    PruneScanMsg::Found(Box::new(PruneCandidate {
        project: "p".into(),
        path: "/p".into(),
        branch: b.into(),
        last_commit: None,
        unique_commits: 0,
    }))
}

#[test]
fn selection_wraps_around() {
    assert_eq!(next_selection(Some(2), 3), Some(0));
    assert_eq!(prev_selection(Some(0), 3), Some(2));
    assert_eq!(next_selection(None, 3), Some(0));
    assert_eq!(prev_selection(None, 3), Some(0));
    assert_eq!(next_selection(Some(1), 0), Some(1));
    assert_eq!(next_selection(None, 0), None);
}

#[test]
fn next_then_prev_returns() {
    for len in 1..5usize {
        for i in 0..len {
            assert_eq!(prev_selection(next_selection(Some(i), len), len), Some(i));
            assert_eq!(next_selection(prev_selection(Some(i), len), len), Some(i));
        }
    }
}

#[test]
fn home_lists_projects() {
    let fs = features();
    assert_eq!(fs.len(), 1);
    assert_eq!(fs[0].key, "projects");
    assert_eq!(fs[0].title, "Projects");
    let mut h = HomeState::new();
    h.next();
    assert_eq!(h.selected, 0);
    h.prev();
    assert_eq!(h.selected, 0);
}

#[test]
fn detail_without_branches_has_no_highlight() {
    let d = DetailState::new(Project::new("x".into(), "/x".into()), vec![], vec![]);
    assert_eq!(d.selected, None);
    assert!(d.selected_branch().is_none());
}

#[test]
fn update_rows_follow_progress() {
    let targets = vec![("a".to_string(), "/a".to_string()), ("b".to_string(), "/b".to_string())];
    let mut u = UpdateState::start("t".into(), &targets, Screen::Projects);
    assert_eq!(u.rows.len(), 2);
    assert_eq!(u.selected, Some(0));
    assert!(u.running);
    assert_eq!(u.done_count(), 0);
    u.next();
    u.next();
    assert_eq!(u.selected, Some(0));
}

#[test]
fn toggling_twice_restores_and_toggle_all_is_uniform() {
    let mut p = PruneState::start("t".into(), Screen::Projects);
    assert_eq!(p.phase, PrunePhase::Collecting);
    p.drain(vec![candidate("a"), candidate("b"), candidate("c")]);
    assert_eq!(p.phase, PrunePhase::Collecting);
    p.drain(vec![PruneScanMsg::Done, candidate("late")]);
    assert_eq!(p.phase, PrunePhase::Review);
    assert_eq!(p.candidates.len(), 3);
    assert_eq!(p.selected_count(), 3);
    p.toggle_selected();
    assert_eq!(p.selected_count(), 2);
    p.toggle_selected();
    assert_eq!(p.selected_count(), 3);
    p.toggle_all();
    assert_eq!(p.selected_count(), 0);
    p.next();
    p.toggle_selected();
    assert_eq!(p.selected_count(), 1);
    p.toggle_all();
    assert_eq!(p.selected_count(), 3);
    let ds = p.execute();
    assert_eq!(ds.len(), 3);
    assert_eq!(p.phase, PrunePhase::Done);
    assert!(!p.confirm);
}

#[test]
fn first_meaningful_line() {
    assert_eq!(first_line("\n   \n  hello there  \nnext"), "hello there");
    assert_eq!(first_line(""), "");
    assert_eq!(first_line("\r\n\t\r\n"), "");
}

#[test]
fn dashboard_is_empty_only_before_the_first_scan() {
    let mut s = ProjectsState::new();
    assert!(s.is_empty());
    s.start_scan();
    assert!(!s.is_empty());
    s.drain(vec![ScanMsg::Done]);
    assert!(s.projects.is_empty());
    assert!(!s.scanning);
    assert!(!s.is_empty());
}
