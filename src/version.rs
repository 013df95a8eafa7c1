//! Concrete versions: reading the version out of a graph identifier, and
//! picking, among the versions of a dependency that the graph holds, one that
//! satisfies the declared requirement.

use vstd::prelude::*;

use crate::model::{opt_view, views};
use crate::text::{has_prefix, starts_with};

verus! {

pub open spec fn is_digit(c: char) -> bool {
    '0' <= c && c <= '9'
}

/// The number of digits in the run that starts at `i`.
pub open spec fn digit_run(s: Seq<char>, i: int) -> nat
    decreases s.len() - i,
{
    if 0 <= i < s.len() && is_digit(s[i]) {
        1 + digit_run(s, i + 1)
    } else {
        0
    }
}

/// The length of the text `N.N.N` that starts at `a`, each run of digits
/// taken whole; `None` where no such text starts at `a`.
pub open spec fn triple_len_at(s: Seq<char>, a: int) -> Option<nat> {
    let r1 = digit_run(s, a);
    let d1 = a + r1;
    let r2 = digit_run(s, d1 + 1);
    let d2 = d1 + 1 + r2;
    let r3 = digit_run(s, d2 + 1);
    if r1 > 0 && d1 < s.len() && s[d1] == '.' && r2 > 0 && d2 < s.len() && s[d2] == '.' && r3
        > 0 {
        Some((r1 + r2 + r3 + 2) as nat)
    } else {
        None
    }
}

/// The leftmost text `N.N.N` of `s` that starts at or after `a`.
pub open spec fn version_text_from(s: Seq<char>, a: int) -> Option<Seq<char>>
    decreases s.len() - a,
{
    if a < 0 || a >= s.len() {
        None
    } else {
        match triple_len_at(s, a) {
            Some(n) => Some(s.subrange(a, a + n)),
            None => version_text_from(s, a + 1),
        }
    }
}

/// The version written in a graph identifier (`bar 1.2.0 (registry+...)`):
/// its leftmost text `N.N.N`.
pub open spec fn version_text(s: Seq<char>) -> Option<Seq<char>> {
    version_text_from(s, 0)
}

/// Whether `version` satisfies the requirement `req`, both in semver syntax.
pub uninterp spec fn satisfies(req: Seq<char>, version: Seq<char>) -> bool;

/// Relies on regex::Regex::find for the pattern `[0-9]+\.[0-9]+\.[0-9]+`:
/// it returns the leftmost-first match, in which each greedy run of digits
/// is taken whole.
#[verifier::external_body]
fn extract_pkg_version(id: &str) -> (r: Option<String>)
    ensures
        opt_view(r) == version_text(id@),
{
    let re = regex::Regex::new(r"[0-9]+\.[0-9]+\.[0-9]+").unwrap();
    re.find(id).map(|m| m.as_str().to_string())
}

/// Relies on semver::VersionReq::matches, on the requirement and the version
/// as semver parses them (`VersionReq::parse`, `Version::parse`); a text that
/// does not parse matches nothing.
#[verifier::external_body]
fn requirement_matches(req: &str, version: &str) -> (r: bool)
    ensures
        r == satisfies(req@, version@),
{
    match (semver::VersionReq::parse(req), semver::Version::parse(version)) {
        (Ok(req), Ok(version)) => req.matches(&version),
        _ => false,
    }
}

/// The versions held by the graph identifiers that start with `name`, in
/// the order of the identifiers; an identifier without a version adds none.
pub open spec fn candidate_versions(ids: Seq<Seq<char>>, name: Seq<char>) -> Seq<Seq<char>>
    decreases ids.len(),
{
    if ids.len() == 0 {
        seq![]
    } else {
        let rest = candidate_versions(ids.drop_last(), name);
        let id = ids.last();
        match version_text(id) {
            Some(v) if has_prefix(id, name) => rest.push(v),
            _ => rest,
        }
    }
}

/// The first of `versions` that satisfies `req`.
pub open spec fn first_satisfying(req: Seq<char>, versions: Seq<Seq<char>>) -> Option<
    Seq<char>,
>
    decreases versions.len(),
{
    if versions.len() == 0 {
        None
    } else if satisfies(req, versions[0]) {
        Some(versions[0])
    } else {
        first_satisfying(req, versions.drop_first())
    }
}

/// The versions that the graph identifiers `ids` give for the dependency
/// named `name`.
pub fn version_candidates(ids: &Vec<String>, name: &String) -> (r: Vec<String>)
    ensures
        views(r@) == candidate_versions(views(ids@), name@),
{
    let mut r: Vec<String> = Vec::new();
    let n = ids.len();
    for i in 0..n
        invariant
            n == ids@.len(),
            views(r@) == candidate_versions(views(ids@.subrange(0, i as int)), name@),
    {
        let id = &ids[i];
        assert(views(ids@.subrange(0, i + 1)).drop_last() =~= views(ids@.subrange(0, i as int)));
        if starts_with(id.as_str(), name.as_str()) {
            match extract_pkg_version(id.as_str()) {
                Some(v) => {
                    r.push(v);
                },
                None => {},
            }
        }
        assert(views(r@) =~= candidate_versions(views(ids@.subrange(0, i + 1)), name@));
    }
    assert(ids@.subrange(0, n as int) =~= ids@);
    r
}

/// The first of `versions` that satisfies the requirement `req`, if any.
pub fn select_version(req: &String, versions: &Vec<String>) -> (r: Option<String>)
    ensures
        opt_view(r) == first_satisfying(req@, views(versions@)),
{
    let n = versions.len();
    let mut i: usize = 0;
    assert(views(versions@).subrange(0, n as int) =~= views(versions@));
    while i < n
        invariant
            n == versions@.len(),
            i <= n,
            first_satisfying(req@, views(versions@)) == first_satisfying(
                req@,
                views(versions@).subrange(i as int, n as int),
            ),
        decreases n - i,
    {
        assert(views(versions@).subrange(i as int, n as int).drop_first() =~= views(
            versions@,
        ).subrange(i + 1, n as int));
        if requirement_matches(req.as_str(), versions[i].as_str()) {
            return Some(versions[i].clone());
        }
        i = i + 1;
    }
    None
}

/// A version that resolution picks satisfies the requirement it was picked
/// for, and is one of the versions it was picked from.
pub proof fn lemma_selected_version_satisfies(req: Seq<char>, versions: Seq<Seq<char>>)
    ensures
        match first_satisfying(req, versions) {
            Some(v) => satisfies(req, v) && versions.contains(v),
            None => forall|k: int| 0 <= k < versions.len() ==> !satisfies(req, #[trigger] versions[k]),
        },
    decreases versions.len(),
{
    if versions.len() > 0 {
        lemma_selected_version_satisfies(req, versions.drop_first());
        if !satisfies(req, versions[0]) {
            match first_satisfying(req, versions) {
                Some(v) => {
                    let k = choose|k: int| 0 <= k < versions.drop_first().len() && versions.drop_first()[k] == v;
                    assert(versions[k + 1] == v);
                },
                None => {
                    assert forall|k: int| 0 <= k < versions.len() implies !satisfies(req, #[trigger] versions[k]) by {
                        if k > 0 {
                            assert(versions[k] == versions.drop_first()[k - 1]);
                        }
                    }
                },
            }
        } else {
            assert(versions.contains(versions[0]));
        }
    }
}

} // verus!
