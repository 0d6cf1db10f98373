//! Release versions: reading `vX.Y.Z` tags and finding the newest release.
use vstd::prelude::*;
use crate::numbers::{decimal, decimal_of, parse_unsigned, parse_unsigned_of};
use crate::split::{find_sub, find_sub_of, lines, lines_of, split_all, split_all_of, views};
use crate::text::{
    chars_of, find_char, lemma_find_char, push_chars, push_str, slice, string_of, trim,
    trim_chars,
};

verus! {

broadcast use vstd::seq::group_seq_axioms;

/// `s` without its leading occurrences of `c` (`trim_start_matches`).
pub open spec fn drop_leading(s: Seq<char>, c: char) -> Seq<char>
    decreases s.len(),
{
    if s.len() > 0 && s[0] == c {
        drop_leading(s.drop_first(), c)
    } else {
        s
    }
}

pub open spec fn u32_of(s: Seq<char>) -> Option<u32> {
    match parse_unsigned(s, u32::MAX as nat) {
        Some(n) => Some(n as u32),
        None => None,
    }
}

/// The `(major, minor, patch)` of a `vX.Y.Z` tag: surrounding whitespace
/// and leading `v`s are ignored, and so is everything from the first `-`
/// (a prerelease suffix) and any fourth component.
pub open spec fn semver_of(s: Seq<char>) -> Option<(u32, u32, u32)> {
    let core = drop_leading(trim(s), 'v');
    let parts = split_all(core.take(find_char(core, '-')), '.');
    if parts.len() < 3 {
        None
    } else {
        match (u32_of(parts[0]), u32_of(parts[1]), u32_of(parts[2])) {
            (Some(a), Some(b), Some(c)) => Some((a, b, c)),
            _ => None,
        }
    }
}

/// `a > b` for versions, compared component by component.
pub open spec fn version_gt(a: (u32, u32, u32), b: (u32, u32, u32)) -> bool {
    a.0 > b.0 || (a.0 == b.0 && (a.1 > b.1 || (a.1 == b.1 && a.2 > b.2)))
}

/// The tag named on a line of `git ls-remote --tags --refs` output: the text
/// after the first `refs/tags/` (up to a second one, if any).
pub open spec fn tag_of_line(line: Seq<char>) -> Option<Seq<char>> {
    let p = "refs/tags/"@;
    match find_sub(line, p) {
        Some(i) => {
            let rest = line.skip(i + p.len());
            match find_sub(rest, p) {
                Some(j) => Some(rest.take(j)),
                None => Some(rest),
            }
        },
        None => None,
    }
}

/// The version on a line, if it names a tag that reads as one.
pub open spec fn version_of_line(line: Seq<char>) -> Option<(u32, u32, u32)> {
    match tag_of_line(line) {
        Some(t) => semver_of(t),
        None => None,
    }
}

/// The larger of a best-so-far and a candidate (the earlier one on a tie).
pub open spec fn better(best: Option<(u32, u32, u32)>, v: Option<(u32, u32, u32)>) -> Option<
    (u32, u32, u32),
> {
    match v {
        None => best,
        Some(x) => match best {
            None => Some(x),
            Some(b) => if version_gt(x, b) {
                Some(x)
            } else {
                Some(b)
            },
        },
    }
}

/// The newest version named on the lines.
pub open spec fn newest_version(ls: Seq<Seq<char>>) -> Option<(u32, u32, u32)>
    decreases ls.len(),
{
    if ls.len() == 0 {
        None
    } else {
        better(newest_version(ls.drop_last()), version_of_line(ls.last()))
    }
}

/// `vX.Y.Z`.
pub open spec fn version_text(v: (u32, u32, u32)) -> Seq<char> {
    "v"@ + decimal(v.0 as nat) + "."@ + decimal(v.1 as nat) + "."@ + decimal(v.2 as nat)
}

/// The newest release tag in `git ls-remote` output, when it is newer than
/// `current`.
pub open spec fn newer_release_text(out: Seq<char>, current: (u32, u32, u32)) -> Option<
    Seq<char>,
> {
    match newest_version(lines(out)) {
        Some(b) => if version_gt(b, current) {
            Some(version_text(b))
        } else {
            None
        },
        None => None,
    }
}

// ---------------------------------------------------------------------------

/// Versions compare as `(major, minor, patch)` tuples do: the major
/// numbers decide when they differ, then the minor numbers, then the patch
/// numbers.
pub proof fn lemma_version_order(a: (u32, u32, u32), b: (u32, u32, u32))
    ensures
        a.0 != b.0 ==> (version_gt(a, b) <==> a.0 > b.0),
        a.0 == b.0 && a.1 != b.1 ==> (version_gt(a, b) <==> a.1 > b.1),
        a.0 == b.0 && a.1 == b.1 ==> (version_gt(a, b) <==> a.2 > b.2),
{
}

/// A newer release is reported exactly when some tag names a version above
/// the running one, and then it is the newest tag, written `vX.Y.Z`.
pub proof fn lemma_newer_release_reported(out: Seq<char>, current: (u32, u32, u32))
    ensures
        newer_release_text(out, current) is Some <==> exists|i: int|
            0 <= i < lines(out).len() && (#[trigger] version_of_line(lines(out)[i]) matches Some(
                v,
            ) && version_gt(v, current)),
        newer_release_text(out, current) matches Some(t) ==> exists|i: int|
            0 <= i < lines(out).len() && (#[trigger] version_of_line(lines(out)[i]) matches Some(
                v,
            ) && t == version_text(v) && version_gt(v, current) && forall|k: int|
                0 <= k < lines(out).len() ==> (#[trigger] version_of_line(lines(out)[k]) matches Some(
                    w,
                ) ==> !version_gt(w, v))),
{
    let ls = lines(out);
    lemma_newest_is_max(ls);
    match newest_version(ls) {
        Some(n) => {
            let i = choose|i: int| 0 <= i < ls.len() && version_of_line(ls[i]) == Some(n);
            assert(version_of_line(ls[i]) == Some(n));
            if !version_gt(n, current) {
                assert forall|k: int| 0 <= k < ls.len() implies !(#[trigger] version_of_line(
                    ls[k],
                ) matches Some(v) && version_gt(v, current)) by {
                    if let Some(v) = version_of_line(ls[k]) {
                        assert(!version_gt(v, n));
                    }
                }
            }
        },
        None => {
            assert forall|k: int| 0 <= k < ls.len() implies !(#[trigger] version_of_line(
                ls[k],
            ) matches Some(v) && version_gt(v, current)) by {
                if let Some(v) = version_of_line(ls[k]) {
                    assert(version_of_line(ls[k]) is Some);
                }
            }
        },
    }
}

/// The newest version is at least every version named on the lines, and is
/// one of them.
pub proof fn lemma_newest_is_max(ls: Seq<Seq<char>>)
    ensures
        forall|i: int|
            #![trigger version_of_line(ls[i])]
            0 <= i < ls.len() ==> match (version_of_line(ls[i]), newest_version(ls)) {
                (Some(v), Some(n)) => !version_gt(v, n),
                (Some(_), None) => false,
                _ => true,
            },
        newest_version(ls) matches Some(n) ==> exists|i: int|
            0 <= i < ls.len() && version_of_line(ls[i]) == Some(n),
    decreases ls.len(),
{
    if ls.len() > 0 {
        let init = ls.drop_last();
        lemma_newest_is_max(init);
        assert forall|i: int|
            #![trigger version_of_line(ls[i])]
            0 <= i < ls.len() implies match (version_of_line(ls[i]), newest_version(ls)) {
            (Some(v), Some(n)) => !version_gt(v, n),
            (Some(_), None) => false,
            _ => true,
        } by {
            if i < ls.len() - 1 {
                assert(ls[i] == init[i]);
                assert(version_of_line(init[i]) == version_of_line(ls[i]));
            }
        }
        if let Some(n) = newest_version(ls) {
            if version_of_line(ls.last()) == Some(n) {
                assert(version_of_line(ls[ls.len() - 1]) == Some(n));
            } else {
                let i = choose|i: int|
                    0 <= i < init.len() && version_of_line(init[i]) == newest_version(init);
                assert(ls[i] == init[i]);
            }
        }
    }
}

// ---------------------------------------------------------------------------

fn u32_of_chars(v: &Vec<char>) -> (res: Option<u32>)
    ensures
        res == u32_of(v@),
{
    match parse_unsigned_of(v, u32::MAX as u64) {
        Some(n) => Some(n as u32),
        None => None,
    }
}

/// Parses a `vX.Y.Z` tag (ignoring any prerelease suffix) into a comparable
/// `(major, minor, patch)` triple.
pub fn parse_semver(s: &str) -> (res: Option<(u32, u32, u32)>)
    ensures
        res == semver_of(s@),
{
    let t = trim_chars(&chars_of(s));
    let mut i: usize = 0;
    assert(t@.subrange(0, t@.len() as int) =~= t@);
    while i < t.len() && t[i] == 'v'
        invariant
            i <= t.len(),
            drop_leading(t@, 'v') == drop_leading(t@.subrange(i as int, t@.len() as int), 'v'),
        decreases t.len() - i,
    {
        assert(t@.subrange(i as int, t@.len() as int).drop_first() =~= t@.subrange(
            i + 1,
            t@.len() as int,
        ));
        i = i + 1;
    }
    let core = slice(&t, i, t.len());
    proof {
        if i < t.len() {
            assert(core@[0] == t@[i as int]);
        }
        assert(t@.subrange(0, t@.len() as int) =~= t@);
    }
    let mut j: usize = 0;
    while j < core.len() && core[j] != '-'
        invariant
            j <= core.len(),
            forall|k: int| 0 <= k < j ==> core@[k] != '-',
        decreases core.len() - j,
    {
        j = j + 1;
    }
    proof {
        lemma_find_char(core@, '-', j as int);
    }
    let head = slice(&core, 0, j);
    assert(head@ =~= core@.take(j as int));
    let parts = split_all_of(&head, '.');
    if parts.len() < 3 {
        return None;
    }
    assert(views(parts@)[0] == parts@[0]@);
    assert(views(parts@)[1] == parts@[1]@);
    assert(views(parts@)[2] == parts@[2]@);
    match (u32_of_chars(&parts[0]), u32_of_chars(&parts[1]), u32_of_chars(&parts[2])) {
        (Some(a), Some(b), Some(c)) => Some((a, b, c)),
        _ => None,
    }
}

fn version_gt_of(a: (u32, u32, u32), b: (u32, u32, u32)) -> (res: bool)
    ensures
        res == version_gt(a, b),
{
    a.0 > b.0 || (a.0 == b.0 && (a.1 > b.1 || (a.1 == b.1 && a.2 > b.2)))
}

fn version_of_line_of(line: &Vec<char>) -> (res: Option<(u32, u32, u32)>)
    ensures
        res == version_of_line(line@),
{
    let p = chars_of("refs/tags/");
    match find_sub_of(line, &p) {
        Some(i) => {
            proof {
                crate::split::lemma_find_sub_occurs(line@, p@);
                assert(crate::split::occurs_at(line@, p@, i as int));
                assert(i + p@.len() <= line@.len());
            }
            let ll = line.len();
            let plen = p.len();
            assert(plen == p@.len());
            let start = i + plen;
            let rest = slice(line, start, ll);
            assert(rest@ =~= line@.skip(i + p@.len()));
            let tag = match find_sub_of(&rest, &p) {
                Some(j) => {
                    proof {
                        crate::split::lemma_find_sub_occurs(rest@, p@);
                        assert(crate::split::occurs_at(rest@, p@, j as int));
                    }
                    let t = slice(&rest, 0, j);
                    assert(t@ =~= rest@.take(j as int));
                    t
                },
                None => rest,
            };
            parse_semver(string_of(&tag).as_str())
        },
        None => None,
    }
}

/// The newest release named in `git ls-remote --tags --refs` output, as
/// `vX.Y.Z`, when it is newer than `current`; otherwise `None`.
pub fn newer_release(out: &str, current: (u32, u32, u32)) -> (res: Option<String>)
    ensures
        match res {
            Some(s) => newer_release_text(out@, current) == Some(s@),
            None => newer_release_text(out@, current) is None,
        },
{
    let ls = lines_of(&chars_of(out));
    let ghost lv = views(ls@);
    let mut best: Option<(u32, u32, u32)> = None;
    let mut i: usize = 0;
    while i < ls.len()
        invariant
            i <= ls.len(),
            lv == views(ls@),
            best == newest_version(lv.take(i as int)),
        decreases ls.len() - i,
    {
        let ghost t = lv.take(i as int + 1);
        assert(t.drop_last() =~= lv.take(i as int));
        assert(t.last() == ls@[i as int]@);
        match version_of_line_of(&ls[i]) {
            Some(v) => {
                best = match best {
                    None => Some(v),
                    Some(b) => if version_gt_of(v, b) {
                        Some(v)
                    } else {
                        Some(b)
                    },
                };
            },
            None => {},
        }
        i = i + 1;
    }
    assert(lv.take(ls@.len() as int) =~= lv);
    match best {
        Some(b) => {
            if version_gt_of(b, current) {
                let mut v = chars_of("v");
                push_chars(&mut v, &decimal_of(b.0 as u64));
                push_str(&mut v, ".");
                push_chars(&mut v, &decimal_of(b.1 as u64));
                push_str(&mut v, ".");
                push_chars(&mut v, &decimal_of(b.2 as u64));
                Some(string_of(&v))
            } else {
                None
            }
        },
        None => None,
    }
}

/// The arguments of the `git ls-remote` call that lists release tags of the
/// repository at `url`.
pub fn release_tags_args(url: &str) -> (res: Vec<String>)
    ensures
        crate::text::text_views(res@) == seq!["ls-remote"@, "--tags"@, "--refs"@, url@],
{
    let v = vec![
        crate::text::owned("ls-remote"),
        crate::text::owned("--tags"),
        crate::text::owned("--refs"),
        crate::text::owned(url),
    ];
    assert(crate::text::text_views(v@) =~= seq!["ls-remote"@, "--tags"@, "--refs"@, url@]);
    v
}

} // verus!
