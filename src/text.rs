//! Text primitives that the search is built from: the characters of a string,
//! substring containment, line splitting and case folding.

use vstd::prelude::*;

verus! {

broadcast use vstd::string::group_string_axioms;

/// `needle` occurs in `hay` as a contiguous run of characters.
pub open spec fn occurs_in(needle: Seq<char>, hay: Seq<char>) -> bool {
    exists|i: int|
        0 <= i && i + needle.len() <= hay.len() && #[trigger] hay.subrange(i, i + needle.len())
            == needle
}

/// The characters of `s`, one by one.
fn chars_of(s: &str) -> (r: Vec<char>)
    ensures
        r@ == s@,
{
    let mut r: Vec<char> = Vec::new();
    for c in it: s.chars()
        invariant
            it.seq() == s@,
            r@ == it.seq().take(it.index() as int),
    {
        r.push(c);
    }
    r
}

/// Is `needle` found at position `at` of `hay`?
fn occurs_at(needle: &Vec<char>, hay: &Vec<char>, at: usize) -> (r: bool)
    requires
        at + needle@.len() <= hay@.len(),
    ensures
        r == (hay@.subrange(at as int, at + needle@.len()) == needle@),
{
    let hay_len = hay.len();
    let mut k: usize = 0;
    while k < needle.len()
        invariant
            hay_len == hay@.len(),
            at + needle@.len() <= hay@.len(),
            k <= needle@.len(),
            forall|j: int| 0 <= j < k ==> hay@[at + j] == needle@[j],
        decreases needle@.len() - k,
    {
        assert(at + k < hay@.len());
        if hay[at + k] != needle[k] {
            assert(hay@.subrange(at as int, at + needle@.len())[k as int] != needle@[k as int]);
            return false;
        }
        k = k + 1;
    }
    assert(hay@.subrange(at as int, at + needle@.len()) =~= needle@);
    true
}

/// Whether `needle` occurs in `hay` as a contiguous run of characters. The
/// empty string occurs in every string.
pub fn contains(hay: &str, needle: &str) -> (r: bool)
    ensures
        r == occurs_in(needle@, hay@),
{
    let h = chars_of(hay);
    let n = chars_of(needle);
    if n.len() > h.len() {
        return false;
    }
    let last: usize = h.len() - n.len();
    let mut at: usize = 0;
    while at < last
        invariant
            h@ == hay@,
            n@ == needle@,
            last == h@.len() - n@.len(),
            at <= last,
            forall|i: int|
                0 <= i < at ==> #[trigger] hay@.subrange(i, i + needle@.len()) != needle@,
        decreases last - at,
    {
        if occurs_at(&n, &h, at) {
            return true;
        }
        at = at + 1;
    }
    occurs_at(&n, &h, last)
}

/// A character that ends a line: a line feed or a carriage return.
pub open spec fn is_line_break(c: char) -> bool {
    c == '\n' || c == '\r'
}

/// The position of the first line break in `s`, or `s.len()` where there is
/// none.
pub open spec fn line_end(s: Seq<char>) -> nat
    decreases s.len(),
{
    if s.len() == 0 {
        0
    } else if is_line_break(s[0]) {
        0
    } else {
        1 + line_end(s.drop_first())
    }
}

/// How many characters the line ending at position `e` of `s` takes: two for
/// a carriage return followed by a line feed, else one.
pub open spec fn ending_len(s: Seq<char>, e: int) -> int {
    if s[e] == '\r' && e + 1 < s.len() && s[e + 1] == '\n' {
        2
    } else {
        1
    }
}

/// The lines of `s`, with universal line endings: a line ends at a line feed,
/// at a carriage return followed by a line feed, or at a carriage return
/// alone, and the ending does not belong to the line. The text after the last
/// line ending is a line of its own when it is not empty.
pub open spec fn lines_of(s: Seq<char>) -> Seq<Seq<char>>
    decreases s.len(),
{
    if s.len() == 0 {
        seq![]
    } else {
        let e = line_end(s);
        if e >= s.len() {
            seq![s]
        } else {
            seq![s.take(e as int)] + lines_of(s.skip(e + ending_len(s, e as int)))
        }
    }
}

/// The views of a sequence of strings.
pub open spec fn views_of(v: Seq<String>) -> Seq<Seq<char>> {
    v.map_values(|l: String| l@)
}

/// A run of `m` characters free of line breaks, followed by a line break or
/// by the end of `t`, is where the first line of `t` ends.
proof fn lemma_line_end(t: Seq<char>, m: int)
    requires
        0 <= m <= t.len(),
        forall|k: int| 0 <= k < m ==> !is_line_break(#[trigger] t[k]),
        m == t.len() || is_line_break(t[m]),
    ensures
        line_end(t) == m,
    decreases m,
{
    if m > 0 {
        assert forall|k: int| 0 <= k < m - 1 implies !is_line_break(
            #[trigger] t.drop_first()[k],
        ) by {
            assert(t.drop_first()[k] == t[k + 1]);
        }
        lemma_line_end(t.drop_first(), m - 1);
    }
}

/// Relies on `String::push`: appends the character to the end of the string.
#[verifier::external_body]
fn push_char(s: &mut String, c: char)
    ensures
        final(s)@ == old(s)@.push(c),
{
    s.push(c);
}

/// The lines of `s`, each copied into a string of its own.
pub fn split_lines(s: &str) -> (r: Vec<String>)
    ensures
        views_of(r@) == lines_of(s@),
{
    let c = chars_of(s);
    let n = c.len();
    let mut r: Vec<String> = Vec::new();
    let mut pos: usize = 0;
    assert(c@.skip(0) =~= c@);
    assert(views_of(r@) + lines_of(c@) =~= lines_of(c@));
    while pos < n
        invariant
            c@ == s@,
            n == c@.len(),
            pos <= n,
            views_of(r@) + lines_of(c@.skip(pos as int)) == lines_of(c@),
        decreases n - pos,
    {
        let mut line = String::new();
        let mut j: usize = pos;
        while j < n && c[j] != '\n' && c[j] != '\r'
            invariant
                n == c@.len(),
                pos <= j <= n,
                line@ == c@.subrange(pos as int, j as int),
                forall|k: int| pos <= k < j ==> !is_line_break(#[trigger] c@[k]),
            decreases n - j,
        {
            push_char(&mut line, c[j]);
            proof {
                assert(line@ =~= c@.subrange(pos as int, j + 1));
            }
            j = j + 1;
        }
        let ghost start = pos as int;
        let ghost rest = c@.skip(start);
        let ghost before = r@;
        proof {
            assert forall|k: int| 0 <= k < j - pos implies !is_line_break(#[trigger] rest[k]) by {
                assert(rest[k] == c@[pos + k]);
            }
            lemma_line_end(rest, j - pos);
            assert(rest.take(j - pos) =~= line@);
        }
        r.push(line);
        proof {
            assert(views_of(r@) =~= views_of(before).push(line@));
        }
        if j < n {
            if c[j] == '\r' && j + 1 < n && c[j + 1] == '\n' {
                pos = j + 2;
            } else {
                pos = j + 1;
            }
            proof {
                let e = j - start;
                assert(rest[e] == c@[j as int]);
                assert(e + 1 < rest.len() ==> rest[e + 1] == c@[j + 1]);
                assert(pos == start + e + ending_len(rest, e));
                assert(rest.skip(e + ending_len(rest, e)) =~= c@.skip(pos as int));
                assert(lines_of(rest) == seq![line@] + lines_of(c@.skip(pos as int)));
                assert(views_of(r@) + lines_of(c@.skip(pos as int)) =~= views_of(before)
                    + lines_of(rest));
            }
        } else {
            pos = n;
            proof {
                assert(rest.take(j - start) =~= rest);
                assert(lines_of(rest) == seq![line@]);
                assert(c@.skip(n as int) =~= Seq::<char>::empty());
                assert(views_of(r@) + lines_of(c@.skip(pos as int)) =~= views_of(before)
                    + lines_of(rest));
            }
        }
    }
    proof {
        assert(c@.skip(n as int) =~= Seq::<char>::empty());
        assert(views_of(r@) =~= views_of(r@) + lines_of(c@.skip(n as int)));
    }
    r
}

/// What `str::to_lowercase` makes of a string.
pub uninterp spec fn lower_of(s: Seq<char>) -> Seq<char>;

/// Relies on `str::to_lowercase`: the lower case form of each character,
/// which depends on the characters alone.
#[verifier::external_body]
pub(crate) fn lowercase(s: &str) -> (r: String)
    ensures
        r@ == lower_of(s@),
{
    s.to_lowercase()
}

} // verus!
