//! Selection of discovered cases by an optional name pattern, with
//! regular-expression search semantics: a case is kept when its name
//! contains a match for the pattern.

use vstd::prelude::*;
use crate::cases::{TestCase, CaseView, case_views};
use crate::errors::HarnessError;

verus! {

/// Whether the regular-expression engine accepts this pattern.
pub uninterp spec fn regex_ok(pattern: Seq<char>) -> bool;

/// The pattern a compiled regular expression was built from.
pub uninterp spec fn pattern_of(re: regex::Regex) -> Seq<char>;

/// Whether the text contains a match for the pattern.
pub uninterp spec fn regex_found(pattern: Seq<char>, text: Seq<char>) -> bool;

#[verifier::external_type_specification]
#[verifier::external_body]
pub struct ExRegex(regex::Regex);

/// Relies on `regex::Regex::new`: it returns `Ok` exactly on patterns the
/// engine accepts, and the compiled value keeps the pattern it was built
/// from.
#[verifier::external_body]
fn regex_new(pattern: &str) -> (r: Option<regex::Regex>)
    ensures
        r is Some <==> regex_ok(pattern@),
        r is Some ==> pattern_of(r.unwrap()) == pattern@,
{
    regex::Regex::new(pattern).ok()
}

/// Relies on `regex::Regex::is_match`: whether the haystack contains a match
/// for the compiled pattern, a function of pattern and haystack alone.
#[verifier::external_body]
fn regex_is_match(re: &regex::Regex, haystack: &str) -> (r: bool)
    ensures
        r == regex_found(pattern_of(*re), haystack@),
{
    re.is_match(haystack)
}

/// The subsequence of cases whose name contains a match for the pattern, in
/// the order they were given.
pub open spec fn selected(s: Seq<CaseView>, pattern: Seq<char>) -> Seq<CaseView> {
    s.filter(|c: CaseView| regex_found(pattern, c.name))
}

/// Applies the optional name filter: with no pattern the cases come back
/// unchanged; with a pattern, exactly those cases whose name contains a
/// match, in the order they were given. An unparsable pattern is the only error.
pub fn select(cases: Vec<TestCase>, pattern: &Option<String>) -> (r: Result<
    Vec<TestCase>,
    HarnessError,
>)
    ensures
        pattern is None ==> (r matches Ok(v) && v@ == cases@),
        pattern matches Some(p) ==> (if regex_ok(p@) {
            r matches Ok(v) && case_views(v@) == selected(case_views(cases@), p@)
        } else {
            r matches Err(e) && (e matches HarnessError::Pattern { pattern: q } && q@ == p@)
        }),
{
    match pattern {
        Option::None => Ok(cases),
        Option::Some(p) => {
            let re = match regex_new(p.as_str()) {
                Option::Some(re) => re,
                Option::None => {
                    return Err(HarnessError::Pattern { pattern: p.clone() });
                },
            };
            let mut kept: Vec<TestCase> = Vec::new();
            let ghost all: Seq<TestCase> = cases@;
            let mut rest = cases;
            proof {
                reveal(Seq::filter);
                assert(rest@ =~= all.skip(0));
                assert(case_views(all.take(0)) =~= Seq::<CaseView>::empty());
                assert(case_views(kept@) =~= Seq::<CaseView>::empty());
                assert(selected(case_views(all.take(0)), p@) =~= Seq::<CaseView>::empty());
            }
            while rest.len() > 0
                invariant
                    rest@.len() <= all.len(),
                    rest@ == all.skip(all.len() - rest@.len()),
                    pattern_of(re) == p@,
                    case_views(kept@) == selected(case_views(all.take(all.len() - rest@.len())), p@),
                decreases rest@.len(),
            {
                let ghost done: int = all.len() - rest@.len();
                let c = rest.remove(0);
                proof {
                    assert(rest@ =~= all.skip(done + 1));
                    assert(c == all[done]);
                }
                let ghost kept_before: Seq<TestCase> = kept@;
                let keep = regex_is_match(&re, c.name.as_str());
                if keep {
                    kept.push(c);
                    proof {
                        assert(case_views(kept@) =~= case_views(kept_before).push(c@));
                    }
                }
                proof {
                    reveal(Seq::filter);
                    let t = case_views(all.take(done + 1));
                    assert(all.take(done + 1).drop_last() =~= all.take(done));
                    assert(t.drop_last() =~= case_views(all.take(done)));
                    assert(t.last() == c@);
                    assert(t.len() > 0);
                    if keep {
                        assert(selected(t, p@) == selected(t.drop_last(), p@).push(c@));
                    } else {
                        assert(selected(t, p@) == selected(t.drop_last(), p@));
                    }
                }
            }
            proof {
                assert(all.take(all.len() as int) =~= all);
            }
            Ok(kept)
        },
    }
}

} // verus!
