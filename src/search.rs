//! Selecting the lines of a text that contain the search term.

use vstd::prelude::*;

use crate::params::SearchParams;
use crate::text::{contains, lines_of, lower_of, lowercase, occurs_in, split_lines, views_of};

verus! {

/// `s` as the comparison sees it: folded to lower case when case is ignored,
/// else unchanged.
pub open spec fn folded(s: Seq<char>, ignore_case: bool) -> Seq<char> {
    if ignore_case {
        lower_of(s)
    } else {
        s
    }
}

/// Whether `line` is reported for a search of `term`.
pub open spec fn line_matches(term: Seq<char>, ignore_case: bool, line: Seq<char>) -> bool {
    occurs_in(folded(term, ignore_case), folded(line, ignore_case))
}

/// The lines of `contents` that contain `term`, in the order of the text.
pub open spec fn matching_lines(term: Seq<char>, ignore_case: bool, contents: Seq<char>) -> Seq<
    Seq<char>,
> {
    lines_of(contents).filter(match_test(term, ignore_case))
}

/// `line_matches` for a fixed term, as a predicate on lines.
pub open spec fn match_test(term: Seq<char>, ignore_case: bool) -> spec_fn(Seq<char>) -> bool {
    |line: Seq<char>| line_matches(term, ignore_case, line)
}

/// The term as it is compared.
fn term_for_params(params: &SearchParams) -> (r: String)
    ensures
        r@ == folded(params.term@, params.ignore_case),
{
    if params.ignore_case {
        lowercase(params.term.as_str())
    } else {
        params.term.clone()
    }
}

/// A line as it is compared.
fn line_for_params(params: &SearchParams, line: &str) -> (r: String)
    ensures
        r@ == folded(line@, params.ignore_case),
{
    if params.ignore_case {
        lowercase(line)
    } else {
        line.to_owned()
    }
}

/// Find the term of `params` in the lines of `contents`: the lines that
/// contain it, in order, each copied without its line ending.
pub fn search(params: &SearchParams, contents: &str) -> (r: Vec<String>)
    ensures
        views_of(r@) == matching_lines(params.term@, params.ignore_case, contents@),
{
    let term = term_for_params(params);
    let lines = split_lines(contents);
    let ghost pred = match_test(params.term@, params.ignore_case);
    let ghost all = views_of(lines@);
    let mut r: Vec<String> = Vec::new();
    for i in 0..lines.len()
        invariant
            all == views_of(lines@),
            pred == match_test(params.term@, params.ignore_case),
            all == lines_of(contents@),
            term@ == folded(params.term@, params.ignore_case),
            views_of(r@) == all.take(i as int).filter(pred),
    {
        let line = &lines[i];
        let compared = line_for_params(params, line.as_str());
        let keep = contains(compared.as_str(), term.as_str());
        let ghost before = r@;
        proof {
            reveal(Seq::filter);
            assert(all.take(i + 1).drop_last() =~= all.take(i as int));
            assert(all.take(i + 1).last() == line@);
            assert(keep == pred(line@));
        }
        if keep {
            r.push(line.clone());
            assert(views_of(r@) =~= views_of(before).push(line@));
        }
    }
    proof {
        assert(all.take(lines.len() as int) =~= all);
    }
    r
}

/// Searching is a pure function: two searches with the same term, the same
/// case setting and the same text report the same lines in the same order.
pub proof fn lemma_search_deterministic(
    first: &SearchParams,
    second: &SearchParams,
    contents: &str,
    first_lines: Seq<String>,
    second_lines: Seq<String>,
)
    requires
        first.term@ == second.term@,
        first.ignore_case == second.ignore_case,
        views_of(first_lines) == matching_lines(first.term@, first.ignore_case, contents@),
        views_of(second_lines) == matching_lines(second.term@, second.ignore_case, contents@),
    ensures
        views_of(first_lines) == views_of(second_lines),
{
}

} // verus!
