//! The key bindings that the help overlay lists for each screen.
use vstd::prelude::*;
use crate::states::Screen;

verus! {

/// The `(keys, what they do)` pairs listed for `screen`, in order.
pub open spec fn binding_list(screen: Screen) -> Seq<(Seq<char>, Seq<char>)> {
    match screen {
        Screen::Home => seq![
            ("↑/↓ · j/k"@, "move"@),
            ("⏎"@, "open feature"@),
            ("?"@, "toggle this help"@),
            ("q"@, "quit"@),
        ],
        Screen::Projects => seq![
            ("↑/↓ · j/k"@, "move"@),
            ("⏎"@, "open detail"@),
            ("u"@, "update all"@),
            ("p"@, "prune all merged"@),
            ("r"@, "rescan"@),
            ("?"@, "toggle this help"@),
            ("Esc"@, "home"@),
            ("q"@, "quit"@),
        ],
        Screen::ProjectDetail => seq![
            ("↑/↓ · j/k"@, "move"@),
            ("u"@, "update default branch"@),
            ("p"@, "prune merged"@),
            ("?"@, "toggle this help"@),
            ("Esc"@, "back"@),
            ("q"@, "quit"@),
        ],
        Screen::Update => seq![
            ("↑/↓ · j/k"@, "move"@),
            ("?"@, "toggle this help"@),
            ("Esc"@, "back"@),
            ("q"@, "quit"@),
        ],
        Screen::Prune => seq![
            ("↑/↓ · j/k"@, "move"@),
            ("Space"@, "toggle selection"@),
            ("a"@, "toggle all"@),
            ("d"@, "delete selected"@),
            ("y / n"@, "confirm / cancel"@),
            ("?"@, "toggle this help"@),
            ("Esc"@, "back"@),
            ("q"@, "quit"@),
        ],
    }
}

pub open spec fn pair_views(v: Seq<(&'static str, &'static str)>) -> Seq<(Seq<char>, Seq<char>)> {
    v.map_values(|p: (&'static str, &'static str)| (p.0@, p.1@))
}

/// Key bindings shown in the help overlay for `screen`.
pub fn bindings(screen: Screen) -> (res: Vec<(&'static str, &'static str)>)
    ensures
        pair_views(res@) == binding_list(screen),
{
    let v = match screen {
        Screen::Home => vec![
            ("↑/↓ · j/k", "move"),
            ("⏎", "open feature"),
            ("?", "toggle this help"),
            ("q", "quit"),
        ],
        Screen::Projects => vec![
            ("↑/↓ · j/k", "move"),
            ("⏎", "open detail"),
            ("u", "update all"),
            ("p", "prune all merged"),
            ("r", "rescan"),
            ("?", "toggle this help"),
            ("Esc", "home"),
            ("q", "quit"),
        ],
        Screen::ProjectDetail => vec![
            ("↑/↓ · j/k", "move"),
            ("u", "update default branch"),
            ("p", "prune merged"),
            ("?", "toggle this help"),
            ("Esc", "back"),
            ("q", "quit"),
        ],
        Screen::Update => vec![
            ("↑/↓ · j/k", "move"),
            ("?", "toggle this help"),
            ("Esc", "back"),
            ("q", "quit"),
        ],
        Screen::Prune => vec![
            ("↑/↓ · j/k", "move"),
            ("Space", "toggle selection"),
            ("a", "toggle all"),
            ("d", "delete selected"),
            ("y / n", "confirm / cancel"),
            ("?", "toggle this help"),
            ("Esc", "back"),
            ("q", "quit"),
        ],
    };
    assert(pair_views(v@) =~= binding_list(screen));
    v
}

} // verus!
