//! The search parameters and how they are read from the program arguments.

use vstd::prelude::*;
use vstd::string::*;

use crate::error::GrepError;

verus! {

/// Organized set of options for searching a file.
pub struct SearchParams {
    pub term: String,
    pub filename: String,
    pub ignore_case: bool,
}

impl SearchParams {
    /// Parameters as a search is made with them: a term and a file name, both
    /// non-empty.
    pub open spec fn wf(&self) -> bool {
        self.term@.len() > 0 && self.filename@.len() > 0
    }
}

/// The arguments as sequences of characters.
pub open spec fn arg_views(args: Seq<String>) -> Seq<Seq<char>> {
    args.map_values(|a: String| a@)
}

/// The one flag there is: `-i`, to ignore case.
pub open spec fn is_flag(token: Seq<char>) -> bool {
    token == seq!['-', 'i']
}

/// The flag stands right after the program name.
pub open spec fn has_flag(args: Seq<Seq<char>>) -> bool {
    args.len() > 1 && is_flag(args[1])
}

/// Where the words of the term begin.
pub open spec fn first_word(args: Seq<Seq<char>>) -> int {
    if has_flag(args) {
        2
    } else {
        1
    }
}

/// `words` joined by single spaces.
pub open spec fn join_words(words: Seq<Seq<char>>) -> Seq<char>
    decreases words.len(),
{
    if words.len() == 0 {
        seq![]
    } else if words.len() == 1 {
        words[0]
    } else {
        join_words(words.drop_last()) + seq![' '] + words.last()
    }
}

/// The term: every argument after the flag, if any, but the last, joined by
/// spaces.
pub open spec fn term_of(args: Seq<Seq<char>>) -> Seq<char> {
    join_words(args.subrange(first_word(args), args.len() - 1))
}

/// The file name: the last argument.
pub open spec fn filename_of(args: Seq<Seq<char>>) -> Seq<char> {
    args.last()
}

/// At least two arguments follow the program name and the flag.
pub open spec fn has_two_tokens(args: Seq<Seq<char>>) -> bool {
    args.len() >= first_word(args) + 2
}

/// The arguments make a search: two tokens or more after the flag, giving a
/// term and a file name that are not empty.
pub open spec fn enough_params(args: Seq<Seq<char>>) -> bool {
    has_two_tokens(args) && term_of(args).len() > 0 && filename_of(args).len() > 0
}

/// Whether `s` is the flag `-i`.
fn is_flag_token(s: &str) -> (r: bool)
    ensures
        r == is_flag(s@),
{
    if s.unicode_len() != 2 {
        return false;
    }
    let r = s.get_char(0) == '-' && s.get_char(1) == 'i';
    assert(r ==> s@ =~= seq!['-', 'i']);
    r
}

impl SearchParams {
    /// Reads the parameters from the program arguments, the program's own
    /// name first: an optional `-i` right after it, then the words of the
    /// term, then the file name.
    pub fn from_args(args: &[String]) -> (r: Result<SearchParams, GrepError>)
        ensures
            r is Ok <==> enough_params(arg_views(args@)),
            !has_two_tokens(arg_views(args@)) ==> r is Err,
            r matches Err(e) ==> e is NotEnoughParams,
            r matches Ok(p) ==> {
                &&& p.term@ == term_of(arg_views(args@))
                &&& p.filename@ == filename_of(arg_views(args@))
                &&& p.ignore_case == has_flag(arg_views(args@))
                &&& p.wf()
            },
    {
        let ghost views = arg_views(args@);
        let n = args.len();
        if n < 3 {
            return Err(GrepError::NotEnoughParams);
        }
        let ignore_case = is_flag_token(args[1].as_str());
        assert(ignore_case == has_flag(views));
        let start: usize = if ignore_case {
            2
        } else {
            1
        };
        if n < start + 2 {
            return Err(GrepError::NotEnoughParams);
        }
        let mut term = String::new();
        assert(views.subrange(start as int, start as int) =~= Seq::<Seq<char>>::empty());
        for i in start..n - 1
            invariant
                views == arg_views(args@),
                n == args@.len(),
                start + 2 <= n,
                start <= i <= n - 1,
                term@ == join_words(views.subrange(start as int, i as int)),
        {
            let ghost before = views.subrange(start as int, i as int);
            let ghost after = views.subrange(start as int, i + 1);
            assert(after.drop_last() =~= before);
            assert(after.last() == args@[i as int]@);
            proof {
                reveal_strlit(" ");
            }
            if i > start {
                term.append(" ");
            } else {
                assert(term@ =~= seq![]);
            }
            term.append(args[i].as_str());
            assert(term@ =~= join_words(after));
        }
        let filename = args[n - 1].clone();
        if term.as_str().is_empty() || filename.as_str().is_empty() {
            return Err(GrepError::NotEnoughParams);
        }
        Ok(SearchParams { term, filename, ignore_case })
    }
}

} // verus!
