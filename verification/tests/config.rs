use pelper::config::{default_branches, default_roots, expand_tilde, join_path, Config};

#[test]
fn default_branch_names() {
    assert_eq!(default_branches(), vec!["main", "master"]);
}

#[test]
fn default_root_is_coding_under_home() {
    let roots = default_roots();
    assert_eq!(roots.len(), 1);
    assert!(roots[0].ends_with("coding"));
    let cfg = Config::default();
    assert_eq!(cfg.roots, roots);
    assert_eq!(cfg.default_branches, vec!["main", "master"]);
}

#[test]
fn tilde_expands_to_home() {
    assert_eq!(expand_tilde("~/code", "/home/u"), "/home/u/code");
    assert_eq!(expand_tilde("~//code/", "/home/u"), "/home/u/code");
    assert_eq!(expand_tilde("~", "/home/u"), "/home/u/");
    assert_eq!(expand_tilde("/srv/code", "/home/u"), "/srv/code");
    assert_eq!(expand_tilde("~bob/code", "/home/u"), "~bob/code");
    assert_eq!(expand_tilde("code", "/home/u"), "code");
}

#[test]
fn joining_paths() {
    assert_eq!(join_path("/home/u", "coding"), "/home/u/coding");
    assert_eq!(join_path("/home/u/", "coding"), "/home/u/coding");
    assert_eq!(join_path("/home/u", "/abs"), "/abs");
}

#[test]
fn configured_roots_are_expanded() {
    let cfg = Config {
        roots: vec!["~/a".to_string(), "/b".to_string()],
        default_branches: vec!["trunk".to_string()],
    };
    let cfg = cfg.with_expanded_roots("/h");
    assert_eq!(cfg.roots, vec!["/h/a", "/b"]);
    assert_eq!(cfg.default_branches, vec!["trunk"]);
}

#[test]
fn dot_components_around_the_rest_are_dropped() {
    assert_eq!(expand_tilde("~/./x", "/home/u"), "/home/u/x");
    assert_eq!(expand_tilde("~/x/.", "/home/u"), "/home/u/x");
    assert_eq!(expand_tilde("~/x/./y", "/home/u"), "/home/u/x/./y");
    assert_eq!(expand_tilde("~/..", "/home/u"), "/home/u/..");
}

#[test]
fn tilde_expansion_agrees_with_path_strip_prefix() {
    let home = "/home/u";
    for p in ["~", "~/", "~/.", "~/./", "~/a/b", "~//a//", "~/.a/b./", "~/a/./.", "~x", "/~/a", "a/~", "~/../x"] {
        let expected = match std::path::Path::new(p).strip_prefix("~") {
            Ok(rest) => std::path::Path::new(home).join(rest).to_string_lossy().into_owned(),
            Err(_) => p.to_string(),
        };
        assert_eq!(expand_tilde(p, home), expected, "root {p:?}");
    }
}
