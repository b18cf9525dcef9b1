//! Search and show terms parsed into the parameters of a package database query.
use vstd::prelude::*;

use crate::listing::SearchError;
use crate::range_shape::{has_unhandled_wildcard, unhandled_wildcard};

verus! {

/// Relies on serde_json::Value as an opaque JSON document: an inline manifest is
/// carried through to the package database unread.
#[verifier::external_type_specification]
#[verifier::external_body]
pub struct ExValue(serde_json::Value);

/// A manifest handed to the package database: a file, or an inline JSON document.
pub enum PathOrJson {
    Path(String),
    Json(serde_json::Value),
}

/// A package query: a pattern, an optional version range and the match mode.
pub struct Query {
    /// Matched against package names, and descriptions unless `match_name` is set.
    pub pattern: String,
    /// The version range a matching package must satisfy.
    pub semver: Option<String>,
    /// Whether to match package names exactly.
    pub match_name: bool,
}

/// Everything the package database needs for one search.
pub struct SearchParams {
    pub manifest: PathOrJson,
    pub global_manifest: PathOrJson,
    pub lockfile: Option<PathOrJson>,
    pub query: Query,
}

/// The index of the first `c` in `s` at or after `i`, or the length of `s`.
pub open spec fn first_index(s: Seq<char>, c: char, i: int) -> int
    decreases s.len() - i,
{
    if i < 0 || i >= s.len() || s[i] == c {
        i
    } else {
        first_index(s, c, i + 1)
    }
}

/// The pattern of a search term: everything before its first `@`.
pub open spec fn term_pattern(s: Seq<char>) -> Seq<char> {
    s.subrange(0, first_index(s, '@', 0))
}

/// The version range of a search term: everything after its first `@`, if any.
pub open spec fn term_range(s: Seq<char>) -> Option<Seq<char>> {
    let p = first_index(s, '@', 0);
    if p < s.len() {
        Some(s.subrange(p + 1, s.len() as int))
    } else {
        None
    }
}

/// Whether a text parses as a node-semver version range.
pub uninterp spec fn is_semver_range(s: Seq<char>) -> bool;

/// Relies on node_semver::Range::parse: whether `s` parses as a version range.
/// Texts with a wildcard shape it has no rule for are left out: on those it panics.
#[verifier::external_body]
fn range_parses(s: &str) -> (b: bool)
    requires
        !has_unhandled_wildcard(s@),
    ensures
        b == is_semver_range(s@),
{
    node_semver::Range::parse(s).is_ok()
}

/// Whether a search term has the shape of a query, given whether its range, if any,
/// parses: a non-empty pattern, and after an `@` a non-empty range that parses.
pub open spec fn term_is_well_formed(s: Seq<char>, range_parses: bool) -> bool {
    &&& term_pattern(s).len() > 0
    &&& match term_range(s) {
        Some(r) => r.len() > 0 && range_parses,
        None => true,
    }
}

/// Whether a search term forms a query: a non-empty pattern, and after an `@` a
/// non-empty version range in node-semver syntax with no wildcard shape that the
/// range parser has no rule for.
pub open spec fn term_is_valid(s: Seq<char>) -> bool {
    &&& term_pattern(s).len() > 0
    &&& match term_range(s) {
        Some(r) => r.len() > 0 && !has_unhandled_wildcard(r) && is_semver_range(r),
        None => true,
    }
}

/// The number of occurrences of `c` in `s`.
pub open spec fn count_char(s: Seq<char>, c: char) -> nat
    decreases s.len(),
{
    if s.len() == 0 {
        0
    } else {
        count_char(s.drop_last(), c) + if s.last() == c {
            1nat
        } else {
            0nat
        }
    }
}

/// The package part of a show term `[<input>:]<package>` with at most one `:`.
pub open spec fn show_package(s: Seq<char>) -> Seq<char> {
    let p = first_index(s, ':', 0);
    if p < s.len() {
        s.subrange(p + 1, s.len() as int)
    } else {
        s
    }
}

/// The index of the first `c` in `s`, or its length.
fn find_char(s: &str, c: char) -> (r: usize)
    ensures
        r == first_index(s@, c, 0),
        r <= s@.len(),
{
    let n = s.unicode_len();
    let mut i: usize = 0;
    while i < n && s.get_char(i) != c
        invariant
            i <= n,
            n == s@.len(),
            first_index(s@, c, 0) == first_index(s@, c, i as int),
        decreases n - i,
    {
        i = i + 1;
    }
    i
}

/// The number of occurrences of `c` in `s`.
fn count_of(s: &str, c: char) -> (r: usize)
    ensures
        r == count_char(s@, c),
{
    let n = s.unicode_len();
    let mut i: usize = 0;
    let mut count: usize = 0;
    while i < n
        invariant
            i <= n,
            n == s@.len(),
            count == count_char(s@.subrange(0, i as int), c),
            count <= i,
        decreases n - i,
    {
        assert(s@.subrange(0, i + 1).drop_last() =~= s@.subrange(0, i as int));
        if s.get_char(i) == c {
            count = count + 1;
        }
        i = i + 1;
    }
    assert(s@.subrange(0, n as int) =~= s@);
    count
}

impl Query {
    /// Builds the query of a search term `<pattern>[@<version-range>]`, split at its
    /// first `@`, given whether the range after it parses.
    ///
    /// Fails with `InvalidQuery` carrying the term when the pattern is empty, or an
    /// `@` is followed by an empty range or one that does not parse.
    pub fn from_parts(search_term: &str, match_name: bool, range_parses: bool) -> (r: Result<
        Query,
        SearchError,
    >)
        ensures
            match r {
                Ok(q) => {
                    &&& term_is_well_formed(search_term@, range_parses)
                    &&& q.pattern@ == term_pattern(search_term@)
                    &&& match q.semver {
                        Some(v) => term_range(search_term@) == Some(v@),
                        None => term_range(search_term@) is None,
                    }
                    &&& q.match_name == match_name
                },
                Err(SearchError::InvalidQuery(t)) => !term_is_well_formed(
                    search_term@,
                    range_parses,
                ) && t@ == search_term@,
                Err(_) => false,
            },
    {
        let n = search_term.unicode_len();
        let p = find_char(search_term, '@');
        if p == 0 || (p < n && (p + 1 == n || !range_parses)) {
            proof {
                if p < n && p + 1 == n {
                    assert(search_term@.subrange(p + 1, n as int) =~= Seq::<char>::empty());
                }
            }
            return Err(SearchError::InvalidQuery(search_term.to_owned()));
        }
        let pattern = search_term.substring_char(0, p).to_owned();
        let semver = if p < n {
            Some(search_term.substring_char(p + 1, n).to_owned())
        } else {
            None
        };
        Ok(Query { pattern, semver, match_name })
    }

    /// Parses a search term `<pattern>[@<version-range>]`, split at its first `@`.
    ///
    /// Fails with `InvalidQuery` carrying the term when the pattern is empty, or an
    /// `@` is followed by an empty range, one that is not a node-semver range, or one
    /// holding a wildcard shape that the range parser has no rule for (`=x`, `~x`,
    /// `~1.x.3`).
    pub fn from_str(search_term: &str, match_name: bool) -> (r: Result<Query, SearchError>)
        ensures
            match r {
                Ok(q) => {
                    &&& term_is_valid(search_term@)
                    &&& q.pattern@ == term_pattern(search_term@)
                    &&& match q.semver {
                        Some(v) => term_range(search_term@) == Some(v@),
                        None => term_range(search_term@) is None,
                    }
                    &&& q.match_name == match_name
                },
                Err(SearchError::InvalidQuery(t)) => !term_is_valid(search_term@) && t@
                    == search_term@,
                Err(_) => false,
            },
    {
        let n = search_term.unicode_len();
        let p = find_char(search_term, '@');
        let ok = if p < n && p + 1 < n {
            let range = search_term.substring_char(p + 1, n);
            !unhandled_wildcard(range) && range_parses(range)
        } else {
            true
        };
        Query::from_parts(search_term, match_name, ok)
    }
}

/// The parameters of a search for `search_term` over the given manifests.
///
/// Fails as `Query::from_str` does on the term.
pub fn construct_search_params(
    search_term: &str,
    manifest: PathOrJson,
    global_manifest: PathOrJson,
    lockfile: Option<PathOrJson>,
    match_name: bool,
) -> (r: Result<SearchParams, SearchError>)
    ensures
        match r {
            Ok(params) => {
                &&& term_is_valid(search_term@)
                &&& params.query.pattern@ == term_pattern(search_term@)
                &&& match params.query.semver {
                    Some(v) => term_range(search_term@) == Some(v@),
                    None => term_range(search_term@) is None,
                }
                &&& params.query.match_name == match_name
                &&& params.manifest == manifest
                &&& params.global_manifest == global_manifest
                &&& params.lockfile == lockfile
            },
            Err(SearchError::InvalidQuery(t)) => !term_is_valid(search_term@) && t@
                == search_term@,
            Err(_) => false,
        },
{
    match Query::from_str(search_term, match_name) {
        Ok(query) => Ok(SearchParams { manifest, global_manifest, lockfile, query }),
        Err(e) => Err(e),
    }
}

/// The parameters of a show query for a term `[<input>:]<package>`.
///
/// Fails with `InvalidSearchTerm` carrying the term when it holds more than one
/// `:`, and otherwise as `Query::from_str` does on the package part.
pub fn construct_show_params(
    search_term: &str,
    manifest: PathOrJson,
    global_manifest: PathOrJson,
    lockfile: Option<PathOrJson>,
    match_name: bool,
) -> (r: Result<SearchParams, SearchError>)
    ensures
        match r {
            Ok(params) => {
                let package = show_package(search_term@);
                &&& count_char(search_term@, ':') <= 1
                &&& term_is_valid(package)
                &&& params.query.pattern@ == term_pattern(package)
                &&& match params.query.semver {
                    Some(v) => term_range(package) == Some(v@),
                    None => term_range(package) is None,
                }
                &&& params.query.match_name == match_name
                &&& params.manifest == manifest
                &&& params.global_manifest == global_manifest
                &&& params.lockfile == lockfile
            },
            Err(SearchError::InvalidSearchTerm(t)) => count_char(search_term@, ':') > 1 && t@
                == search_term@,
            Err(SearchError::InvalidQuery(t)) => count_char(search_term@, ':') <= 1
                && !term_is_valid(show_package(search_term@)) && t@ == show_package(search_term@),
            Err(_) => false,
        },
{
    if count_of(search_term, ':') > 1 {
        return Err(SearchError::InvalidSearchTerm(search_term.to_owned()));
    }
    let n = search_term.unicode_len();
    let p = find_char(search_term, ':');
    let package = if p < n {
        search_term.substring_char(p + 1, n)
    } else {
        assert(search_term@.subrange(0, n as int) =~= search_term@);
        search_term.substring_char(0, n)
    };
    match Query::from_str(package, match_name) {
        Ok(query) => Ok(SearchParams { manifest, global_manifest, lockfile, query }),
        Err(e) => Err(e),
    }
}

/// The outcome of a command once its output is written: success, or the package
/// database's exit status code, `-1` when it has none.
pub fn exit_outcome(success: bool, code: Option<i32>) -> (r: Result<(), SearchError>)
    ensures
        success ==> r is Ok,
        !success ==> match r {
            Err(SearchError::ExternalToolFailure(c)) => c == match code {
                Some(x) => x,
                None => -1i32,
            },
            _ => false,
        },
{
    if success {
        Ok(())
    } else {
        match code {
            Some(c) => Err(SearchError::ExternalToolFailure(c)),
            None => Err(SearchError::ExternalToolFailure(-1)),
        }
    }
}

} // verus!
