//! Aggregation of the versions of one package from ranked search results.
use vstd::prelude::*;

use crate::listing::{description_text, label_of, label_spec, SearchError, SearchResult, Subtree, DEFAULT_DESCRIPTION};
use crate::text::{flatten_lines, flatten_spec, join, join_spec, views};

verus! {

/// The end of the run of results from index `i` on that share the label of `s[0]`.
pub open spec fn run_end(s: Seq<SearchResult>, i: int) -> int
    decreases s.len() - i,
{
    if i < 0 || i >= s.len() || label_spec(s[i]) != label_spec(s[0]) {
        i
    } else {
        run_end(s, i + 1)
    }
}

/// The contiguous leading run of results whose label is that of the top result.
pub open spec fn leading_run(s: Seq<SearchResult>) -> Seq<SearchResult> {
    if s.len() == 0 {
        Seq::empty()
    } else {
        s.subrange(0, run_end(s, 1))
    }
}

/// Whether a result is the catalog's `latest` alias of another version.
pub open spec fn is_latest_alias(r: SearchResult) -> bool {
    &&& r.subtree == Subtree::Catalog
    &&& r.abs_path@.len() > 0
    &&& r.abs_path@.last()@ == "latest"@
}

/// The `label@version` entries of the versioned results of `s` that are not aliases.
pub open spec fn version_entries(s: Seq<SearchResult>) -> Seq<Seq<char>>
    decreases s.len(),
{
    if s.len() == 0 {
        Seq::empty()
    } else {
        let p = version_entries(s.drop_last());
        let r = s.last();
        match r.version {
            Some(v) => if is_latest_alias(r) {
                p
            } else {
                p.push(label_spec(r) + seq!['@'] + v@)
            },
            None => p,
        }
    }
}

/// The description shown for a result.
pub open spec fn shown_description(r: SearchResult) -> Seq<char> {
    description_text(
        match r.description {
            Some(d) => Some(flatten_spec(d@)),
            None => None,
        },
    )
}

/// The versions shown for the top result of `s`: every version of the leading
/// run, or only the top result's own.
pub open spec fn shown_versions(s: Seq<SearchResult>, all: bool) -> Seq<char> {
    if all {
        join_spec(version_entries(leading_run(s)), seq![',', ' '])
    } else {
        match s[0].version {
            Some(v) => label_spec(s[0]) + seq!['@'] + v@,
            None => label_spec(s[0]),
        }
    }
}

/// The two lines shown for the top result of `s`.
pub open spec fn show_lines(s: Seq<SearchResult>, all: bool) -> Seq<Seq<char>> {
    let name = label_spec(s[0]);
    seq![
        name + seq![' ', '-', ' '] + shown_description(s[0]),
        seq![' ', ' ', ' ', ' '] + name + seq![' ', '-', ' '] + shown_versions(s, all),
    ]
}

/// Whether `r` is the catalog's `latest` alias.
fn latest_alias(r: &SearchResult) -> (b: bool)
    ensures
        b == is_latest_alias(*r),
{
    let n = r.abs_path.len();
    if r.subtree == Subtree::Catalog && n > 0 {
        let latest = "latest".to_owned();
        r.abs_path[n - 1] == latest
    } else {
        false
    }
}

/// The version entries of the first `end` results.
fn collect_versions(results: &Vec<SearchResult>, end: usize) -> (r: Vec<String>)
    requires
        end <= results@.len(),
    ensures
        views(r@) == version_entries(results@.subrange(0, end as int)),
{
    let ghost s = results@;
    let mut out: Vec<String> = Vec::new();
    let mut k: usize = 0;
    while k < end
        invariant
            k <= end <= s.len(),
            s == results@,
            views(out@) == version_entries(s.subrange(0, k as int)),
        decreases end - k,
    {
        let r = &results[k];
        assert(s.subrange(0, k + 1).drop_last() =~= s.subrange(0, k as int));
        match &r.version {
            Some(v) => {
                if !latest_alias(r) {
                    let mut e = label_of(r);
                    e.append("@");
                    e.append(v.as_str());
                    proof {
                        reveal_strlit("@");
                    }
                    assert("@"@ =~= seq!['@']);
                    let ghost before = out@;
                    out.push(e);
                    assert(views(out@) =~= views(before).push(e@));
                }
            },
            None => {},
        }
        k = k + 1;
    }
    out
}

/// The text shown for the top-ranked package: its name and description, then its
/// version, or with `all` every version of the leading run of results that share
/// its name.
///
/// Fails with `InternalInvariantViolation` when there are no results.
pub fn render_show(search_results: &Vec<SearchResult>, all: bool) -> (r: Result<
    Vec<String>,
    SearchError,
>)
    ensures
        match r {
            Ok(lines) => search_results@.len() > 0 && views(lines@) == show_lines(
                search_results@,
                all,
            ),
            Err(SearchError::InternalInvariantViolation) => search_results@.len() == 0,
            Err(_) => false,
        },
{
    let ghost s = search_results@;
    let n = search_results.len();
    if n == 0 {
        return Err(SearchError::InternalInvariantViolation);
    }
    let top = &search_results[0];
    let name = label_of(top);
    let mut end: usize = 1;
    while end < n && label_of(&search_results[end]) == name
        invariant
            1 <= end <= n,
            n == s.len(),
            s == search_results@,
            name@ == label_spec(s[0]),
            run_end(s, 1) == run_end(s, end as int),
        decreases n - end,
    {
        end = end + 1;
    }
    proof {
        if end < n {
            assert(label_spec(s[end as int]) != label_spec(s[0]));
        }
        assert(run_end(s, end as int) == end);
    }
    let description = match &top.description {
        Some(d) => flatten_lines(d.as_str()),
        None => DEFAULT_DESCRIPTION.to_owned(),
    };
    let versions = if all {
        let entries = collect_versions(search_results, end);
        proof {
            reveal_strlit(", ");
        }
        assert(", "@ =~= seq![',', ' ']);
        join(&entries, ", ")
    } else {
        match &top.version {
            Some(v) => {
                let mut e = name.clone();
                e.append("@");
                e.append(v.as_str());
                proof {
                    reveal_strlit("@");
                }
                assert("@"@ =~= seq!['@']);
                e
            },
            None => name.clone(),
        }
    };
    proof {
        reveal_strlit(" - ");
        reveal_strlit("    ");
    }
    assert(" - "@ =~= seq![' ', '-', ' ']);
    assert("    "@ =~= seq![' ', ' ', ' ', ' ']);
    let mut first = name.clone();
    first.append(" - ");
    first.append(description.as_str());
    let mut second = "    ".to_owned();
    second.append(name.as_str());
    second.append(" - ");
    second.append(versions.as_str());
    let mut lines: Vec<String> = Vec::new();
    lines.push(first);
    lines.push(second);
    assert(views(lines@) =~= show_lines(s, all));
    Ok(lines)
}

/// The text shown for a show query for `search_term`: as `render_show` gives it,
/// or `NoMatches` carrying the term when there are no results.
pub fn show_results(search_term: &str, search_results: &Vec<SearchResult>, all: bool) -> (r:
    Result<Vec<String>, SearchError>)
    ensures
        match r {
            Ok(lines) => search_results@.len() > 0 && views(lines@) == show_lines(
                search_results@,
                all,
            ),
            Err(SearchError::NoMatches(t)) => search_results@.len() == 0 && t@ == search_term@,
            Err(_) => false,
        },
{
    if search_results.len() == 0 {
        return Err(SearchError::NoMatches(search_term.to_owned()));
    }
    render_show(search_results, all)
}

/// Removing a catalog `latest` alias from a result sequence leaves its version
/// entries unchanged: the alias never shows as a version, even with a version string.
pub proof fn lemma_latest_alias_elided(s: Seq<SearchResult>, k: int)
    requires
        0 <= k < s.len(),
        is_latest_alias(s[k]),
    ensures
        version_entries(s.remove(k)) == version_entries(s),
    decreases s.len(),
{
    let t = s.remove(k);
    if k == s.len() - 1 {
        assert(t =~= s.drop_last());
    } else {
        assert(t.drop_last() =~= s.drop_last().remove(k));
        assert(t.last() == s.last());
        lemma_latest_alias_elided(s.drop_last(), k);
    }
}

} // verus!
