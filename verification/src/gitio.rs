//! What a `git` invocation hands back, and reading its first meaningful line.
use vstd::prelude::*;
use crate::split::{lines, lines_of, views};
use crate::text::{
    blank, chars_of, is_blank, lemma_trim_empty_iff_blank, string_of, trim, trim_chars,
};

verus! {

broadcast use vstd::seq::group_seq_axioms;

/// The result of running `git` with some arguments in a repository: whether
/// it exited successfully, and its standard output and error as text (a
/// failure to start counts as unsuccessful, with the reason on stderr).
pub struct GitOutput {
    pub ok: bool,
    pub stdout: String,
    pub stderr: String,
}

/// The first line that is not blank, or the empty text.
pub open spec fn first_nonblank(ls: Seq<Seq<char>>) -> Seq<char>
    decreases ls.len(),
{
    if ls.len() == 0 {
        Seq::empty()
    } else if !is_blank(ls[0]) {
        ls[0]
    } else {
        first_nonblank(ls.drop_first())
    }
}

/// The first non-blank line of `s`, trimmed (empty if there is none).
pub open spec fn first_line_text(s: Seq<char>) -> Seq<char> {
    trim(first_nonblank(lines(s)))
}

/// The first non-blank line of `s`, trimmed.
pub fn first_line(s: &str) -> (res: String)
    ensures
        res@ == first_line_text(s@),
{
    let cs = chars_of(s);
    let ls = lines_of(&cs);
    let ghost lv = views(ls@);
    assert(lv == lines(s@));
    let mut i: usize = 0;
    assert(lv.subrange(0, lv.len() as int) =~= lv);
    while i < ls.len()
        invariant
            i <= ls.len(),
            lv == views(ls@),
            lv == lines(s@),
            first_nonblank(lv) == first_nonblank(lv.subrange(i as int, lv.len() as int)),
        decreases ls.len() - i,
    {
        let ghost rest = lv.subrange(i as int, lv.len() as int);
        assert(rest[0] == ls@[i as int]@);
        if !blank(&ls[i]) {
            assert(first_nonblank(rest) == ls@[i as int]@);
            return string_of(&trim_chars(&ls[i]));
        }
        assert(rest.drop_first() =~= lv.subrange(i + 1, lv.len() as int));
        i = i + 1;
    }
    assert(lv.subrange(i as int, lv.len() as int) =~= Seq::<Seq<char>>::empty());
    proof {
        lemma_trim_empty_iff_blank(Seq::<char>::empty());
        assert(trim(Seq::<char>::empty()).len() == 0);
        assert(trim(Seq::<char>::empty()) =~= Seq::<char>::empty());
    }
    string_of(&Vec::new())
}

} // verus!
