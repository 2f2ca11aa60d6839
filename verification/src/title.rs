//! Title extraction: the first line of a page that matches the title pattern
//! gives the page its title.

use regex::Regex;
use vstd::prelude::*;

verus! {

/// The pattern that a title line matches: anything, an opening title tag, the
/// captured title, and a closing title tag at the end of the line.
pub const TITLE_PATTERN: &'static str = ".*<title>(.*)</title>$";

/// The capture group of [`TITLE_PATTERN`] that holds the title.
pub const TITLE_GROUP: usize = 1;

/// What capture group `group` of the regular expression `pattern` holds in
/// the leftmost match in `haystack`: `None` where `pattern` does not compile,
/// where nothing in `haystack` matches, or where the group took no part in
/// the match.
pub uninterp spec fn regex_capture(pattern: Seq<char>, haystack: Seq<char>, group: nat) -> Option<
    Seq<char>,
>;

/// Compiles `pattern` with `regex::Regex::new`, searches `haystack` with
/// `Regex::captures` and copies out the text of group `group` with
/// `Captures::get` and `Match::as_str`.
///
/// The contract only gives the outcome its name, [`regex_capture`]: the
/// search is a function of the pattern, the haystack and the group number,
/// and nothing is claimed about what it finds. The pattern is compiled on
/// each call, so that no compiled value has to be trusted to stand for its
/// pattern.
#[verifier::external_body]
fn capture_group(pattern: &str, haystack: &str, group: usize) -> (found: Option<String>)
    ensures
        found.deep_view() == regex_capture(pattern@, haystack@, group as nat),
{
    let compiled = Regex::new(pattern).ok()?;
    let captures = compiled.captures(haystack)?;
    captures.get(group).map(|m| m.as_str().to_owned())
}

/// The title that a single line yields, if it is a title line.
pub open spec fn line_title(line: Seq<char>) -> Option<Seq<char>> {
    regex_capture(TITLE_PATTERN@, line, TITLE_GROUP as nat)
}

/// The first title among the lines' captures, top to bottom.
pub open spec fn first_title(captures: Seq<Option<Seq<char>>>) -> Option<Seq<char>>
    decreases captures.len(),
{
    if captures.len() == 0 {
        None
    } else if captures.first() is Some {
        captures.first()
    } else {
        first_title(captures.drop_first())
    }
}

/// The title of a page with the given lines: that of its first title line.
pub open spec fn page_title(lines: Seq<Seq<char>>) -> Option<Seq<char>> {
    first_title(lines.map_values(|line: Seq<char>| line_title(line)))
}

/// `first_title` skips a prefix that holds no title.
proof fn lemma_first_title_skip(captures: Seq<Option<Seq<char>>>, k: int)
    requires
        0 <= k <= captures.len(),
        forall|j: int| 0 <= j < k ==> captures[j] is None,
    ensures
        first_title(captures) == first_title(captures.skip(k)),
    decreases k,
{
    if k > 0 {
        assert(captures.drop_first().skip(k - 1) =~= captures.skip(k));
        lemma_first_title_skip(captures.drop_first(), k - 1);
    } else {
        assert(captures.skip(0) =~= captures);
    }
}

/// Returns the title of a page, given its lines from top to bottom: the text
/// that the title pattern captures in the first line that matches it, or
/// `None` where no line matches.
pub fn get_page_title(lines: &Vec<String>) -> (title: Option<String>)
    ensures
        title.deep_view() == page_title(lines.deep_view()),
        match title {
            Some(text) => exists|i: int|
                0 <= i < lines.len() && line_title(lines[i]@) == Some(text@) && forall|j: int|
                    0 <= j < i ==> line_title(lines[j]@) is None,
            None => forall|i: int| 0 <= i < lines.len() ==> line_title(lines[i]@) is None,
        },
{
    let ghost captures = lines.deep_view().map_values(|line: Seq<char>| line_title(line));
    let mut i: usize = 0;
    while i < lines.len()
        invariant
            0 <= i <= lines.len(),
            captures == lines.deep_view().map_values(|line: Seq<char>| line_title(line)),
            forall|j: int| 0 <= j < i ==> line_title(lines[j]@) is None,
        decreases lines.len() - i,
    {
        let found = capture_group(TITLE_PATTERN, lines[i].as_str(), TITLE_GROUP);
        proof {
            lemma_first_title_skip(captures, i as int);
        }
        if found.is_some() {
            return found;
        }
        i += 1;
    }
    proof {
        lemma_first_title_skip(captures, captures.len() as int);
    }
    None
}

} // verus!
