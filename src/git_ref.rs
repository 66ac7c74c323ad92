//! Line-oriented output of the version-control tool: splitting it into lines, and reading the
//! `{commit} {name}` lines of local listings and `{commit}\t{name}` lines of remote listings.
use vstd::prelude::*;

use crate::text::{split, split_on};
use crate::types::GitRef;

verus! {

/// A line without the carriage return that ended it, if any.
pub open spec fn strip_cr(line: Seq<char>) -> Seq<char> {
    if line.len() > 0 && line.last() == '\r' {
        line.drop_last()
    } else {
        line
    }
}

/// The lines of `s`: split on `\n`, each line that a `\n` ends loses a `\r` before it, and a
/// last line with nothing in it is no line.
pub open spec fn lines(s: Seq<char>) -> Seq<Seq<char>> {
    let pieces = split(s, '\n');
    let ended = pieces.drop_last().map_values(|l: Seq<char>| strip_cr(l));
    if pieces.last().len() == 0 {
        ended
    } else {
        ended.push(pieces.last())
    }
}

/// The two fields of a listing line, where `sep` occurs in it exactly once.
pub open spec fn fields_of(line: Seq<char>, sep: char) -> Option<(Seq<char>, Seq<char>)> {
    let parts = split(line, sep);
    if parts.len() == 2 {
        Some((parts[0], parts[1]))
    } else {
        None
    }
}

fn strip_cr_exec(line: &String) -> (r: String)
    ensures
        r@ == strip_cr(line@),
{
    let n = line.as_str().unicode_len();
    if n > 0 && line.as_str().get_char(n - 1) == '\r' {
        let r = String::from_str(line.as_str().substring_char(0, n - 1));
        assert(r@ =~= line@.drop_last());
        r
    } else {
        line.clone()
    }
}

/// The lines of `s`.
pub fn lines_of(s: &str) -> (r: Vec<String>)
    ensures
        r@.map_values(|l: String| l@) == lines(s@),
{
    let pieces = split_on(s, '\n');
    let ghost pv = pieces@.map_values(|p: String| p@);
    proof {
        crate::text::lemma_split_len(s@, '\n');
    }
    let last_index = pieces.len() - 1;
    let mut out: Vec<String> = Vec::new();
    let mut i: usize = 0;
    while i < last_index
        invariant
            last_index + 1 == pieces@.len(),
            pv == pieces@.map_values(|p: String| p@),
            pv == split(s@, '\n'),
            i <= last_index,
            out@.map_values(|l: String| l@) == pv.subrange(0, i as int).map_values(
                |l: Seq<char>| strip_cr(l),
            ),
        decreases last_index - i,
    {
        assert(pv[i as int] == pieces@[i as int]@);
        let ghost before = out@.map_values(|l: String| l@);
        let line = strip_cr_exec(&pieces[i]);
        out.push(line);
        assert(out@.map_values(|l: String| l@) =~= before.push(strip_cr(pv[i as int])));
        assert(out@.map_values(|l: String| l@) =~= pv.subrange(0, i + 1).map_values(
            |l: Seq<char>| strip_cr(l),
        ));
        i = i + 1;
    }
    assert(pv.subrange(0, last_index as int) =~= pv.drop_last());
    assert(pv.last() == pieces@[last_index as int]@);
    if pieces[last_index].as_str().unicode_len() > 0 {
        let ghost before = out@.map_values(|l: String| l@);
        out.push(pieces[last_index].clone());
        assert(out@.map_values(|l: String| l@) =~= before.push(pv.last()));
    }
    out
}

/// The two fields of `line` around its one `sep`, or `None` where `sep` does not occur
/// exactly once.
fn fields(line: &str, sep: char) -> (r: Option<(String, String)>)
    ensures
        match fields_of(line@, sep) {
            Some((a, b)) => r is Some && r->Some_0.0@ == a && r->Some_0.1@ == b,
            None => r is None,
        },
{
    let parts = split_on(line, sep);
    let ghost pv = parts@.map_values(|p: String| p@);
    assert(pv.len() == parts@.len());
    if parts.len() == 2 {
        assert(pv[0] == parts@[0]@ && pv[1] == parts@[1]@);
        Some((parts[0].clone(), parts[1].clone()))
    } else {
        None
    }
}

/// The references of a listing, one per line, or the first line that does not read as one.
pub open spec fn parsed_listing(lines: Seq<Seq<char>>, sep: char) -> Result<
    Seq<(Seq<char>, Seq<char>)>,
    Seq<char>,
>
    decreases lines.len(),
{
    if lines.len() == 0 {
        Ok(Seq::empty())
    } else {
        match parsed_listing(lines.drop_last(), sep) {
            Err(bad) => Err(bad),
            Ok(refs) => match fields_of(lines.last(), sep) {
                Some(f) => Ok(refs.push(f)),
                None => Err(lines.last()),
            },
        }
    }
}

/// The `(commit, name)` of each reference.
pub open spec fn ref_views(refs: Seq<GitRef>) -> Seq<(Seq<char>, Seq<char>)> {
    refs.map_values(|g: GitRef| (g.commit_id@, g.name@))
}

/// Reads a listing whose lines are a commit, `sep` and a name; fails with the first line that
/// is not.
pub fn parse_listing_with(output: &str, sep: char) -> (r: Result<Vec<GitRef>, String>)
    ensures
        match parsed_listing(lines(output@), sep) {
            Ok(refs) => r is Ok && ref_views(r->Ok_0@) == refs,
            Err(bad) => r is Err && r->Err_0@ == bad,
        },
{
    let all = lines_of(output);
    let ghost lv = all@.map_values(|l: String| l@);
    let mut refs: Vec<GitRef> = Vec::new();
    let mut i: usize = 0;
    assert(lv.subrange(0, 0) =~= Seq::<Seq<char>>::empty());
    assert(ref_views(refs@) =~= Seq::<(Seq<char>, Seq<char>)>::empty());
    while i < all.len()
        invariant
            i <= all@.len(),
            lv == all@.map_values(|l: String| l@),
            lv == lines(output@),
            parsed_listing(lv.subrange(0, i as int), sep) == Ok::<
                Seq<(Seq<char>, Seq<char>)>,
                Seq<char>,
            >(ref_views(refs@)),
        decreases all@.len() - i,
    {
        let ghost done = lv.subrange(0, i + 1);
        assert(done.drop_last() =~= lv.subrange(0, i as int));
        assert(done.last() == all@[i as int]@);
        match fields(all[i].as_str(), sep) {
            Some((commit_id, name)) => {
                let ghost before = ref_views(refs@);
                refs.push(GitRef { commit_id, name });
                assert(ref_views(refs@) =~= before.push(fields_of(done.last(), sep).unwrap()));
            },
            None => {
                let bad = all[i].clone();
                proof {
                    lemma_listing_error_stays(lv, i as int + 1, sep);
                }
                assert(lv.subrange(0, lv.len() as int) =~= lv);
                return Err(bad);
            },
        }
        i = i + 1;
    }
    assert(lv.subrange(0, i as int) =~= lv);
    Ok(refs)
}

proof fn lemma_listing_error_stays(lv: Seq<Seq<char>>, k: int, sep: char)
    requires
        0 < k <= lv.len(),
        parsed_listing(lv.subrange(0, k), sep) is Err,
    ensures
        parsed_listing(lv.subrange(0, lv.len() as int), sep) == parsed_listing(lv.subrange(0, k), sep),
    decreases lv.len() - k,
{
    if k < lv.len() {
        let next = lv.subrange(0, k + 1);
        assert(next.drop_last() =~= lv.subrange(0, k));
        lemma_listing_error_stays(lv, k + 1, sep);
    }
}

impl GitRef {
    /// Reads the references of a local listing (`{commit} {name}` per line).
    pub fn parse_show_ref_output(output: &str) -> (r: Result<Vec<GitRef>, String>)
        ensures
            match parsed_listing(lines(output@), ' ') {
                Ok(refs) => r is Ok && ref_views(r->Ok_0@) == refs,
                Err(bad) => r is Err && r->Err_0@ == bad,
            },
    {
        parse_listing_with(output, ' ')
    }

    /// Reads the references of a remote listing (`{commit}\t{name}` per line).
    pub fn parse_ls_remote_output(output: &str) -> (r: Result<Vec<GitRef>, String>)
        ensures
            match parsed_listing(lines(output@), '\t') {
                Ok(refs) => r is Ok && ref_views(r->Ok_0@) == refs,
                Err(bad) => r is Err && r->Err_0@ == bad,
            },
    {
        parse_listing_with(output, '\t')
    }
}

} // verus!
