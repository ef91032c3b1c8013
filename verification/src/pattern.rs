use vstd::prelude::*;

verus! {

/// Whether `pattern`, compiled as a case-insensitive regex, matches
/// somewhere in `hay` (`false` when the pattern is not a valid regex).
pub uninterp spec fn ci_regex_match(pattern: Seq<char>, hay: Seq<char>) -> bool;

/// The text of capture group 1 of the first match of `pattern` in `hay`;
/// `None` when nothing matches, the group is absent, or the pattern is not
/// a valid regex.
pub uninterp spec fn regex_capture1(pattern: Seq<char>, hay: Seq<char>) -> Option<Seq<char>>;

/// For `pattern`, compiled as a case-insensitive whitespace-ignoring regex:
/// the text of capture group 1 of each match in `hay`, in match order
/// (`None` for a match in which the group took no part; empty when the
/// pattern is not a valid regex).
pub uninterp spec fn ci_iw_captures1(pattern: Seq<char>, hay: Seq<char>) -> Seq<Option<Seq<char>>>;

/// Relies on `regex::RegexBuilder::build` (case-insensitive) and
/// `regex::Regex::is_match`: both are functions of the pattern and the
/// haystack alone, so the result is named by [`ci_regex_match`]. An invalid
/// pattern fails to build and yields `false`.
#[verifier::external_body]
pub(crate) fn regex_ci_is_match(pattern: &str, hay: &str) -> (r: bool)
    ensures
        r == ci_regex_match(pattern@, hay@),
{
    match regex::RegexBuilder::new(pattern).case_insensitive(true).build() {
        Ok(re) => re.is_match(hay),
        Err(_) => false,
    }
}

/// Relies on `regex::Regex::new` and `regex::Regex::captures_iter`: the
/// first match's capture group 1 is a function of the pattern and the
/// haystack alone, named by [`regex_capture1`].
#[verifier::external_body]
pub(crate) fn regex_first_capture(pattern: &str, hay: &str) -> (r: Option<String>)
    ensures
        r.deep_view() == regex_capture1(pattern@, hay@),
{
    match regex::Regex::new(pattern) {
        Ok(re) => match re.captures_iter(hay).next() {
            Some(c) => c.get(1).map(|m| m.as_str().to_string()),
            None => None,
        },
        Err(_) => None,
    }
}

/// Relies on `regex::RegexBuilder::build` (case-insensitive,
/// ignore-whitespace) and `regex::Regex::captures_iter`: the sequence of
/// capture-group-1 texts is a function of the pattern and the haystack
/// alone, named by [`ci_iw_captures1`].
#[verifier::external_body]
pub(crate) fn regex_ci_iw_captures1(pattern: &str, hay: &str) -> (r: Vec<Option<String>>)
    ensures
        r.deep_view() == ci_iw_captures1(pattern@, hay@),
{
    match regex::RegexBuilder::new(pattern).case_insensitive(true).ignore_whitespace(
        true,
    ).build() {
        Ok(re) => re.captures_iter(hay).map(
            |c| c.get(1).map(|m| m.as_str().to_string()),
        ).collect(),
        Err(_) => Vec::new(),
    }
}

/// The present values of a sequence of optional values, in order.
pub open spec fn somes<T>(s: Seq<Option<T>>) -> Seq<T>
    decreases s.len(),
{
    if s.len() == 0 {
        Seq::empty()
    } else {
        somes(s.drop_last()) + match s.last() {
            Some(x) => seq![x],
            None => Seq::empty(),
        }
    }
}

/// Keep the present capture texts, dropping matches in which the group
/// took no part.
pub fn collect_somes(v: &Vec<Option<String>>) -> (r: Vec<String>)
    ensures
        r.deep_view() == somes(v.deep_view()),
{
    let mut out: Vec<String> = Vec::new();
    let mut i: usize = 0;
    while i < v.len()
        invariant
            i <= v.len(),
            out.deep_view() == somes(v.deep_view().take(i as int)),
        decreases v.len() - i,
    {
        let ghost prev = out.deep_view();
        proof {
            assert(v.deep_view().take(i + 1).drop_last() =~= v.deep_view().take(i as int));
            assert(v.deep_view().take(i + 1).last() == v.deep_view()[i as int]);
        }
        match &v[i] {
            Some(s) => {
                out.push(s.clone());
                proof {
                    assert(out.deep_view() =~= prev + seq![s@]);
                }
            },
            None => {
                proof {
                    assert(somes(v.deep_view().take(i + 1)) =~= prev);
                }
            },
        }
        i += 1;
    }
    proof {
        assert(v.deep_view().take(v.len() as int) =~= v.deep_view());
    }
    out
}

} // verus!
