//! User configuration: which directories hold projects and which branches
//! count as a project's main branch.
use vstd::prelude::*;
use crate::text::{chars_of, owned, push_chars, push_str, slice, string_of, text_views};

verus! {

broadcast use vstd::seq::group_seq_axioms;

/// User configuration, read from `~/.config/pelper/config.toml` (or
/// `$XDG_CONFIG_HOME/pelper/config.toml`).
pub struct Config {
    /// Directories whose immediate git subdirectories are treated as projects.
    pub roots: Vec<String>,
    /// Branch names treated as the project's "main" branch, in priority order.
    pub default_branches: Vec<String>,
}

/// The default branch names: `main`, then `master`.
pub fn default_branches() -> (res: Vec<String>)
    ensures
        text_views(res@) == seq!["main"@, "master"@],
{
    let v = vec![owned("main"), owned("master")];
    assert(text_views(v@) =~= seq!["main"@, "master"@]);
    v
}

/// The user's home directory as the operating system reports it
/// (`directories::BaseDirs::new()` and its `home_dir()`), if it reports
/// one; `BaseDirs::new` documents that it reports none rather than an empty
/// one. Which directory it is depends on the environment, so nothing more is
/// stated of it.
#[verifier::external_body]
fn home_dir() -> (res: Option<String>)
    ensures
        res matches Some(h) ==> h@.len() > 0,
{
    directories::BaseDirs::new().map(|b| b.home_dir().to_string_lossy().into_owned())
}

/// The user's home directory, or `.` when it cannot be found.
pub fn home() -> (res: String)
    ensures
        res@.len() > 0,
{
    proof {
        reveal_strlit(".");
    }
    match home_dir() {
        Some(h) => h,
        None => owned("."),
    }
}

/// `Path::join` on Unix: an absolute `rest` replaces `base`; otherwise a
/// separator is added unless `base` is empty or already ends with one.
pub open spec fn join(base: Seq<char>, rest: Seq<char>) -> Seq<char> {
    if rest.len() > 0 && rest[0] == '/' {
        rest
    } else if base.len() > 0 && base.last() != '/' {
        base + "/"@ + rest
    } else {
        base + rest
    }
}

pub fn join_path(base: &str, rest: &str) -> (res: String)
    ensures
        res@ == join(base@, rest@),
{
    let r = chars_of(rest);
    if r.len() > 0 && r[0] == '/' {
        return string_of(&r);
    }
    let mut b = chars_of(base);
    if b.len() > 0 && b[b.len() - 1] != '/' {
        push_str(&mut b, "/");
    }
    push_chars(&mut b, &r);
    string_of(&b)
}

/// The default project roots: `coding` in the home directory.
pub fn default_roots() -> (res: Vec<String>)
    ensures
        res@.len() == 1,
        exists|h: Seq<char>| h.len() > 0 && res@[0]@ == join(h, "coding"@),
{
    let h = home();
    let r = join_path(h.as_str(), "coding");
    vec![r]
}

/// `s` without the leading components that name nothing: separators and
/// `.` (what `Path::strip_prefix` leaves off the front of the rest).
pub open spec fn trim_front(s: Seq<char>) -> Seq<char>
    decreases s.len(),
{
    if s.len() > 0 && (s[0] == '/' || (s[0] == '.' && (s.len() == 1 || s[1] == '/'))) {
        trim_front(s.drop_first())
    } else {
        s
    }
}

/// `s` without the trailing components that name nothing: separators and
/// `.`.
pub open spec fn trim_back(s: Seq<char>) -> Seq<char>
    decreases s.len(),
{
    if s.len() > 0 && (s.last() == '/' || (s.last() == '.' && (s.len() == 1 || s[s.len() - 2]
        == '/'))) {
        trim_back(s.drop_last())
    } else {
        s
    }
}

/// A root written as `~` or starting with `~/` means the same place under
/// the home directory `home`; any other root is kept as written.
pub open spec fn tilde_expanded(p: Seq<char>, home: Seq<char>) -> Seq<char> {
    if p == "~"@ {
        join(home, Seq::empty())
    } else if p.len() >= 2 && p[0] == '~' && p[1] == '/' {
        join(home, trim_back(trim_front(p.skip(2))))
    } else {
        p
    }
}

/// Expands a leading `~` in a configured root to the home directory `home`.
pub fn expand_tilde(p: &str, home: &str) -> (res: String)
    ensures
        res@ == tilde_expanded(p@, home@),
{
    let v = chars_of(p);
    proof {
        reveal_strlit("~");
        reveal_strlit("");
    }
    if v.len() == 1 && v[0] == '~' {
        assert(v@ =~= "~"@);
        return join_path(home, "");
    }
    if v.len() >= 2 && v[0] == '~' && v[1] == '/' {
        assert(v@ != "~"@);
        let mut lo: usize = 2;
        let n = v.len();
        let ghost t = v@.skip(2);
        assert(t =~= v@.subrange(2, v@.len() as int));
        while lo < n && (v[lo] == '/' || (v[lo] == '.' && (lo + 1 == n || v[lo + 1] == '/')))
            invariant
                2 <= lo <= n,
                n == v.len(),
                trim_front(t) == trim_front(v@.subrange(lo as int, n as int)),
            decreases n - lo,
        {
            assert(v@.subrange(lo as int, n as int).drop_first() =~= v@.subrange(
                lo + 1,
                n as int,
            ));
            lo = lo + 1;
        }
        let ghost u = v@.subrange(lo as int, n as int);
        assert(trim_front(u) == u) by {
            if u.len() > 0 {
                assert(u[0] == v@[lo as int]);
                if u.len() > 1 {
                    assert(u[1] == v@[lo + 1]);
                }
            }
        }
        let mut hi: usize = n;
        assert(u.subrange(0, u.len() as int) =~= u);
        while hi > lo && (v[hi - 1] == '/' || (v[hi - 1] == '.' && (hi - 1 == lo || v[hi - 2]
            == '/')))
            invariant
                lo <= hi <= n,
                n == v.len(),
                u == v@.subrange(lo as int, n as int),
                trim_back(u) == trim_back(v@.subrange(lo as int, hi as int)),
            decreases hi,
        {
            let ghost w = v@.subrange(lo as int, hi as int);
            assert(w.last() == v@[hi - 1]);
            if hi - 1 > lo {
                assert(w[w.len() - 2] == v@[hi - 2]);
            }
            assert(w.drop_last() =~= v@.subrange(lo as int, hi - 1));
            hi = hi - 1;
        }
        let rest = slice(&v, lo, hi);
        assert(trim_back(rest@) == rest@) by {
            if rest@.len() > 0 {
                assert(rest@.last() == v@[hi - 1]);
                if rest@.len() > 1 {
                    assert(rest@[rest@.len() - 2] == v@[hi - 2]);
                }
            }
        }
        return join_path(home, string_of(&rest).as_str());
    }
    proof {
        if v@ == "~"@ {
            assert(v@.len() == 1);
        }
    }
    string_of(&v)
}

impl Default for Config {
    /// The configuration used when no file exists: the default roots and
    /// default branches.
    fn default() -> (res: Config)
        ensures
            text_views(res.default_branches@) == seq!["main"@, "master"@],
            res.roots@.len() == 1,
            exists|h: Seq<char>| h.len() > 0 && res.roots@[0]@ == join(h, "coding"@),
    {
        Config { roots: default_roots(), default_branches: default_branches() }
    }
}

impl Config {
    /// Expands a leading `~` in every root.
    pub fn with_expanded_roots(self, home: &str) -> (res: Config)
        ensures
            res.default_branches == self.default_branches,
            res.roots@.len() == self.roots@.len(),
            forall|i: int|
                0 <= i < self.roots@.len() ==> #[trigger] res.roots@[i]@ == tilde_expanded(
                    self.roots@[i]@,
                    home@,
                ),
    {
        let mut roots: Vec<String> = Vec::new();
        let mut i: usize = 0;
        while i < self.roots.len()
            invariant
                i <= self.roots.len(),
                roots@.len() == i,
                forall|k: int|
                    0 <= k < i ==> #[trigger] roots@[k]@ == tilde_expanded(self.roots@[k]@, home@),
            decreases self.roots.len() - i,
        {
            roots.push(expand_tilde(self.roots[i].as_str(), home));
            i = i + 1;
        }
        Config { roots, default_branches: self.default_branches }
    }
}

} // verus!
