//! Rewriting text by regular expression. The `regex` crate finds the matches;
//! what is put in their place, and how the text is put together again, is
//! decided and proved here.

use regex::Regex;
use vstd::prelude::*;

verus! {

/// Whether `Regex::new` accepts a pattern.
pub uninterp spec fn regex_accepts(pattern: Seq<char>) -> bool;

/// What `Regex::split` yields for an accepted pattern and a text: the parts
/// of the text that no match covers, in order.
pub uninterp spec fn regex_gaps(pattern: Seq<char>, text: Seq<char>) -> Seq<Seq<char>>;

/// What `Regex::captures_iter` yields for an accepted pattern and a text: for
/// each match in turn its capture groups, the whole match at index 0, a
/// group that took no part in the match as `None`.
pub uninterp spec fn regex_captures(pattern: Seq<char>, text: Seq<char>) -> Seq<
    Seq<Option<Seq<char>>>,
>;

/// What group `k` of a match captured; nothing where the match has no such
/// group or the group took no part.
pub open spec fn group(found: Seq<Option<Seq<char>>>, k: int) -> Seq<char> {
    if 0 <= k < found.len() {
        match found[k] {
            Some(captured) => captured,
            None => Seq::empty(),
        }
    } else {
        Seq::empty()
    }
}

/// The text that each match covers.
pub open spec fn whole_matches(found: Seq<Seq<Option<Seq<char>>>>) -> Seq<Seq<char>> {
    Seq::new(found.len(), |i: int| group(found[i], 0))
}

/// The first `n` gaps, each followed by the replacement of the same index
/// where there is one.
pub open spec fn woven_upto(gaps: Seq<Seq<char>>, reps: Seq<Seq<char>>, n: int) -> Seq<char>
    decreases n,
{
    if n <= 0 {
        Seq::empty()
    } else {
        woven_upto(gaps, reps, n - 1) + gaps[n - 1] + (if n - 1 < reps.len() {
            reps[n - 1]
        } else {
            Seq::empty()
        })
    }
}

/// The text made of gaps and replacements in turn: gap, replacement, gap, ...
pub open spec fn woven(gaps: Seq<Seq<char>>, reps: Seq<Seq<char>>) -> Seq<char> {
    woven_upto(gaps, reps, gaps.len() as int)
}

/// Gaps and matches make up the text: there is one gap more than there are
/// matches, and laid out in turn they give the text back.
pub open spec fn partitions(
    text: Seq<char>,
    gaps: Seq<Seq<char>>,
    found: Seq<Seq<Option<Seq<char>>>>,
) -> bool {
    gaps.len() == found.len() + 1 && woven(gaps, whole_matches(found)) == text
}

/// The pattern is accepted and matches nowhere in the text.
pub open spec fn finds_nothing(pattern: Seq<char>, text: Seq<char>) -> bool {
    regex_accepts(pattern) && regex_captures(pattern, text).len() == 0
}

/// `text` with each match of `pattern` replaced by the replacement of its
/// index: the gaps between the matches with the replacements between them.
/// Where the pattern is refused the text stays as it is.
pub open spec fn rewritten(pattern: Seq<char>, text: Seq<char>, reps: Seq<Seq<char>>) -> Seq<char> {
    if regex_accepts(pattern) {
        woven(regex_gaps(pattern, text), reps)
    } else {
        text
    }
}

/// The replacements that put `with` in the place of every match, or, with
/// `first_only`, of the first match, every later match staying as it is.
pub open spec fn fixed_replacements(
    found: Seq<Seq<Option<Seq<char>>>>,
    with: Seq<char>,
    first_only: bool,
) -> Seq<Seq<char>> {
    Seq::new(
        found.len(),
        |i: int|
            if first_only && i > 0 {
                group(found[i], 0)
            } else {
                with
            },
    )
}

/// `text` with `with` in the place of every match of `pattern`, or of the
/// first match only.
pub open spec fn with_fixed(
    pattern: Seq<char>,
    text: Seq<char>,
    with: Seq<char>,
    first_only: bool,
) -> Seq<char> {
    rewritten(pattern, text, fixed_replacements(regex_captures(pattern, text), with, first_only))
}

/// Calls `Regex::new` on the pattern, whose outcome is named `regex_accepts`,
/// and `Regex::split` on the text, whose result is named `regex_gaps`. Of the
/// gaps the contract says what the source of `split` shows: it walks the
/// matches that `captures_iter` walks and yields the text between them, so
/// there is one gap more than matches, and gaps and matches laid out in turn
/// are the text.
#[verifier::external_body]
fn split_gaps(pattern: &str, text: &str) -> (r: Option<Vec<String>>)
    ensures
        r is Some <==> regex_accepts(pattern@),
        r matches Some(gaps) ==> gaps.deep_view() == regex_gaps(pattern@, text@),
        r matches Some(gaps) ==> partitions(text@, gaps.deep_view(), regex_captures(pattern@, text@)),
{
    match Regex::new(pattern) {
        Ok(re) => Some(re.split(text).map(|gap| gap.to_string()).collect()),
        Err(_) => None,
    }
}

/// Calls `Regex::new` on the pattern, whose outcome is named `regex_accepts`,
/// and `Regex::captures_iter` on the text, and turns each match into the
/// texts of its groups by `Captures::iter`. The result is named
/// `regex_captures`.
#[verifier::external_body]
fn capture_groups(pattern: &str, text: &str) -> (r: Option<Vec<Vec<Option<String>>>>)
    ensures
        r is Some <==> regex_accepts(pattern@),
        r matches Some(found) ==> found.deep_view() == regex_captures(pattern@, text@),
{
    match Regex::new(pattern) {
        Ok(re) => Some(
            re.captures_iter(text).map(
                |found| found.iter().map(|group| group.map(|m| m.as_str().to_string())).collect(),
            ).collect(),
        ),
        Err(_) => None,
    }
}

/// What the pattern finds in a text: the gaps between the matches, and the
/// groups of each match.
pub struct Scan {
    pub gaps: Vec<String>,
    pub found: Vec<Vec<Option<String>>>,
}

/// Scans `text` for `pattern`; nothing comes back where the pattern is
/// refused. Gaps and matches make up the text; where nothing matches, the
/// text is the one gap.
pub fn scan(pattern: &str, text: &str) -> (r: Option<Scan>)
    ensures
        r is Some <==> regex_accepts(pattern@),
        r matches Some(s) ==> {
            &&& s.gaps.deep_view() == regex_gaps(pattern@, text@)
            &&& s.found.deep_view() == regex_captures(pattern@, text@)
            &&& partitions(text@, s.gaps.deep_view(), s.found.deep_view())
            &&& forall|reps: Seq<Seq<char>>|
                s.found@.len() == 0 && reps.len() == 0 ==> #[trigger] woven(
                    s.gaps.deep_view(),
                    reps,
                ) == text@
        },
{
    match split_gaps(pattern, text) {
        Some(gaps) => {
            match capture_groups(pattern, text) {
                Some(found) => {
                    proof {
                        if found@.len() == 0 {
                            let g = gaps.deep_view();
                            let wholes = whole_matches(found.deep_view());
                            assert(woven_upto(g, wholes, 0) == Seq::<char>::empty());
                            assert forall|reps: Seq<Seq<char>>| reps.len() == 0 implies #[trigger] woven(
                                g,
                                reps,
                            ) == text@ by {
                                assert(woven_upto(g, reps, 0) == Seq::<char>::empty());
                                assert(woven(g, reps) == woven(g, wholes));
                            }
                        }
                    }
                    Some(Scan { gaps, found })
                },
                None => None,
            }
        },
        None => None,
    }
}

/// What group `k` of a match captured.
pub fn group_text(found: &Vec<Option<String>>, k: usize) -> (r: &str)
    ensures
        r@ == group(found.deep_view(), k as int),
{
    proof {
        reveal_strlit("");
    }
    if k < found.len() {
        match &found[k] {
            Some(captured) => captured.as_str(),
            None => "",
        }
    } else {
        ""
    }
}

/// Lays out gaps and replacements in turn. A replacement without a gap before
/// it is left out.
pub fn weave(gaps: &Vec<String>, reps: &Vec<String>) -> (r: String)
    ensures
        r@ == woven(gaps.deep_view(), reps.deep_view()),
{
    let mut out = String::new();
    let mut i: usize = 0;
    while i < gaps.len()
        invariant
            i <= gaps.len(),
            out@ == woven_upto(gaps.deep_view(), reps.deep_view(), i as int),
        decreases gaps.len() - i,
    {
        out.append(gaps[i].as_str());
        if i < reps.len() {
            out.append(reps[i].as_str());
        }
        i += 1;
    }
    out
}

/// The replacements that put `with` in the place of every match, or of the
/// first only.
pub fn replace_with_fixed(found: &Vec<Vec<Option<String>>>, with: &str, first_only: bool) -> (r:
    Vec<String>)
    ensures
        r.deep_view() == fixed_replacements(found.deep_view(), with@, first_only),
{
    let mut reps: Vec<String> = Vec::new();
    let mut i: usize = 0;
    while i < found.len()
        invariant
            i <= found.len(),
            reps.len() == i,
            forall|j: int|
                0 <= j < i ==> (#[trigger] reps@[j])@ == fixed_replacements(
                    found.deep_view(),
                    with@,
                    first_only,
                )[j],
        decreases found.len() - i,
    {
        let rep = if first_only && i > 0 {
            group_text(&found[i], 0).to_owned()
        } else {
            with.to_owned()
        };
        reps.push(rep);
        i += 1;
    }
    assert(reps.deep_view() =~= fixed_replacements(found.deep_view(), with@, first_only));
    reps
}

/// `text` with `with` in the place of every match of `pattern`, or of the
/// first match only. Where the pattern finds nothing, the text comes back as
/// it was.
pub fn replace_fixed(pattern: &str, text: &str, with: &str, first_only: bool) -> (r: String)
    ensures
        r@ == with_fixed(pattern@, text@, with@, first_only),
        finds_nothing(pattern@, text@) ==> r@ == text@,
{
    match scan(pattern, text) {
        Some(s) => {
            let reps = replace_with_fixed(&s.found, with, first_only);
            weave(&s.gaps, &reps)
        },
        None => text.to_owned(),
    }
}

} // verus!
