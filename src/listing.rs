//! Search results as returned by the package database, and their text listing.
use vstd::prelude::*;

use crate::consolidate::{
    consolidated, dedup_and_disambiguate_display_items, has_pair, item_views,
    lemma_consolidated_unique_in_rank_order, DisplayItem, DisplayItemView,
};
use crate::text::{flatten_lines, flatten_spec, join, join_spec, views};

verus! {

/// Separator between an input's name and a package when both are shown.
pub const SEARCH_INPUT_SEPARATOR: &'static str = ":";

/// Shown in place of a missing package description.
pub const DEFAULT_DESCRIPTION: &'static str = "<no description provided>";

/// The namespace a search result was found in.
#[derive(PartialEq, Eq, Structural, Clone, Copy, Debug)]
pub enum Subtree {
    Packages,
    LegacyPackages,
    Catalog,
}

/// One ranked result of a package search.
pub struct SearchResult {
    /// The input the package was found in.
    pub input: String,
    /// The full attribute path of the package.
    pub abs_path: Vec<String>,
    /// The namespace of the package.
    pub subtree: Subtree,
    /// The attribute path of the package below its namespace.
    pub rel_path: Vec<String>,
    /// The package description.
    pub description: Option<String>,
    /// The package version.
    pub version: Option<String>,
}

/// Errors of building queries and rendering search results.
pub enum SearchError {
    /// The package database found nothing for the term.
    NoMatches(String),
    /// The search term does not form a valid query.
    InvalidQuery(String),
    /// The show term has more than one input separator.
    InvalidSearchTerm(String),
    /// The package database exited with the given status code.
    ExternalToolFailure(i32),
    /// Consolidation or aggregation lost every result of a non-empty input.
    InternalInvariantViolation,
}

/// The displayed name of a result: its relative attribute path joined by dots.
pub open spec fn label_spec(r: SearchResult) -> Seq<char> {
    join_spec(views(r.rel_path@), seq!['.'])
}

/// The display item that a result projects to, before disambiguation.
pub open spec fn display_view(r: SearchResult) -> DisplayItemView {
    DisplayItemView {
        input: r.input@,
        package: label_spec(r),
        description: match r.description {
            Some(d) => Some(flatten_spec(d@)),
            None => None,
        },
        render_with_input: false,
    }
}

/// The display items of a ranked result sequence.
pub open spec fn display_views(s: Seq<SearchResult>) -> Seq<DisplayItemView> {
    s.map_values(|r: SearchResult| display_view(r))
}

/// The label of an item as rendered: prefixed by its input when flagged.
pub open spec fn rendered_label(d: DisplayItemView) -> Seq<char> {
    if d.render_with_input {
        d.input + seq![':'] + d.package
    } else {
        d.package
    }
}

/// The largest rendered label length over `s`, zero when empty.
pub open spec fn max_label_len(s: Seq<DisplayItemView>) -> nat
    decreases s.len(),
{
    if s.len() == 0 {
        0
    } else {
        let m = max_label_len(s.drop_last());
        let l = rendered_label(s.last()).len();
        if l > m {
            l
        } else {
            m
        }
    }
}

/// `label` padded with spaces on the right up to `width` characters.
pub open spec fn padded(label: Seq<char>, width: nat) -> Seq<char> {
    if label.len() >= width {
        label
    } else {
        label + Seq::new((width - label.len()) as nat, |_i: int| ' ')
    }
}

/// The placeholder for a missing description.
pub open spec fn default_description() -> Seq<char> {
    DEFAULT_DESCRIPTION@
}

/// The description of an item, or the placeholder.
pub open spec fn description_text(d: Option<Seq<char>>) -> Seq<char> {
    match d {
        Some(x) => x,
        None => default_description(),
    }
}

/// One line of the listing: the padded label, two spaces and the description.
pub open spec fn listing_line(d: DisplayItemView, width: nat) -> Seq<char> {
    padded(rendered_label(d), width) + seq![' ', ' '] + description_text(d.description)
}

/// The listing of consolidated items, every label padded to the widest one.
pub open spec fn listing_lines(s: Seq<DisplayItemView>) -> Seq<Seq<char>> {
    s.map_values(|d: DisplayItemView| listing_line(d, max_label_len(s)))
}

/// The displayed name of a result: its relative attribute path joined by dots.
pub fn label_of(r: &SearchResult) -> (l: String)
    ensures
        l@ == label_spec(*r),
{
    let l = join(&r.rel_path, ".");
    proof {
        reveal_strlit(".");
    }
    assert("."@ =~= seq!['.']);
    l
}

/// The display item of one search result.
pub fn to_display_item(r: &SearchResult) -> (d: DisplayItem)
    ensures
        d@ == display_view(*r),
{
    let package = label_of(r);
    let description = match &r.description {
        Some(s) => Some(flatten_lines(s.as_str())),
        None => None,
    };
    DisplayItem { input: r.input.clone(), package, description, render_with_input: false }
}

/// The display items of ranked search results, in the same order.
pub fn display_items(results: &Vec<SearchResult>) -> (r: Vec<DisplayItem>)
    ensures
        item_views(r@) == display_views(results@),
{
    let mut out: Vec<DisplayItem> = Vec::new();
    let mut i: usize = 0;
    while i < results.len()
        invariant
            i <= results@.len(),
            item_views(out@) =~= display_views(results@.subrange(0, i as int)),
        decreases results@.len() - i,
    {
        let d = to_display_item(&results[i]);
        let ghost before = out@;
        out.push(d);
        assert(item_views(out@) =~= item_views(before).push(d@));
        assert(results@.subrange(0, i + 1) =~= results@.subrange(0, i as int).push(results@[i as int]));
        i = i + 1;
    }
    assert(results@.subrange(0, results@.len() as int) =~= results@);
    out
}

/// The label of an item as rendered.
pub fn render_label(d: &DisplayItem) -> (r: String)
    ensures
        r@ == rendered_label(d@),
{
    if d.render_with_input {
        let mut s = d.input.clone();
        s.append(SEARCH_INPUT_SEPARATOR);
        s.append(d.package.as_str());
        proof {
            reveal_strlit(":");
        }
        assert(SEARCH_INPUT_SEPARATOR@ =~= seq![':']);
        s
    } else {
        d.package.clone()
    }
}

/// `label` padded with spaces on the right up to `width` characters.
pub fn pad_to(label: &str, width: usize) -> (r: String)
    ensures
        r@ == padded(label@, width as nat),
{
    let mut s = label.to_owned();
    let n = label.unicode_len();
    let mut k: usize = n;
    while k < width
        invariant
            n == label@.len(),
            n <= k <= width || (k == n && n >= width),
            s@ == label@ + Seq::new((k - n) as nat, |_i: int| ' '),
        decreases width - k,
    {
        s.append(" ");
        proof {
            reveal_strlit(" ");
        }
        assert(" "@ =~= seq![' ']);
        assert(s@ =~= label@ + Seq::new((k + 1 - n) as nat, |_i: int| ' '));
        k = k + 1;
    }
    if n >= width {
        assert(s@ =~= label@);
    }
    s
}

/// The text listing of consolidated items, in their order, every label padded
/// to the widest rendered label.
pub fn render_listing(items: &Vec<DisplayItem>) -> (r: Vec<String>)
    ensures
        views(r@) == listing_lines(item_views(items@)),
{
    let ghost s = item_views(items@);
    let mut labels: Vec<String> = Vec::new();
    let mut width: usize = 0;
    let mut i: usize = 0;
    while i < items.len()
        invariant
            i <= items@.len(),
            s == item_views(items@),
            labels@.len() == i,
            forall|k: int| 0 <= k < i ==> (#[trigger] labels@[k])@ == rendered_label(s[k]),
            width == max_label_len(s.subrange(0, i as int)),
        decreases items@.len() - i,
    {
        let label = render_label(&items[i]);
        let len = label.as_str().unicode_len();
        assert(s.subrange(0, i + 1).drop_last() =~= s.subrange(0, i as int));
        if len > width {
            width = len;
        }
        labels.push(label);
        i = i + 1;
    }
    assert(s.subrange(0, s.len() as int) =~= s);
    let mut out: Vec<String> = Vec::new();
    let mut j: usize = 0;
    while j < items.len()
        invariant
            j <= items@.len(),
            s == item_views(items@),
            labels@.len() == items@.len(),
            forall|k: int| 0 <= k < items@.len() ==> (#[trigger] labels@[k])@ == rendered_label(s[k]),
            width == max_label_len(s),
            views(out@) =~= listing_lines(s).subrange(0, j as int),
        decreases items@.len() - j,
    {
        let mut line = pad_to(labels[j].as_str(), width);
        line.append("  ");
        proof {
            reveal_strlit("  ");
            reveal_strlit("<no description provided>");
        }
        assert("  "@ =~= seq![' ', ' ']);
        let ghost head = line@;
        match &items[j].description {
            Some(d) => line.append(d.as_str()),
            None => line.append(DEFAULT_DESCRIPTION),
        }
        assert(line@ == head + description_text(s[j as int].description));
        assert(line@ == listing_line(s[j as int], width as nat));
        let ghost before = out@;
        out.push(line);
        assert(views(out@) =~= views(before).push(line@));
        assert(listing_lines(s).subrange(0, j + 1) =~= listing_lines(s).subrange(0, j as int).push(
            listing_lines(s)[j as int],
        ));
        j = j + 1;
    }
    out
}

/// The largest rendered label length bounds every label of `s` and is reached by one.
proof fn lemma_max_label_len(s: Seq<DisplayItemView>)
    ensures
        forall|k: int| 0 <= k < s.len() ==> rendered_label(#[trigger] s[k]).len() <= max_label_len(s),
        s.len() > 0 ==> exists|k: int|
            0 <= k < s.len() && rendered_label(#[trigger] s[k]).len() == max_label_len(s),
    decreases s.len(),
{
    if s.len() > 0 {
        let p = s.drop_last();
        lemma_max_label_len(p);
        assert forall|k: int| 0 <= k < s.len() implies rendered_label(#[trigger] s[k]).len()
            <= max_label_len(s) by {
            if k < p.len() {
                assert(s[k] == p[k]);
            }
        }
        if rendered_label(s.last()).len() > max_label_len(p) || p.len() == 0 {
            assert(rendered_label(s[s.len() - 1]).len() == max_label_len(s));
        } else {
            let k = choose|k: int| 0 <= k < p.len() && rendered_label(#[trigger] p[k]).len() == max_label_len(p);
            assert(s[k] == p[k]);
            assert(rendered_label(s[k]).len() == max_label_len(s));
        }
    }
}

/// The column width of a listing is the largest rendered label length, reached by
/// some item, and every line starts with its label padded to exactly that width,
/// followed by two spaces and the description.
pub proof fn lemma_listing_width(s: Seq<DisplayItemView>)
    ensures
        forall|k: int| 0 <= k < s.len() ==> rendered_label(#[trigger] s[k]).len() <= max_label_len(s),
        s.len() > 0 ==> exists|k: int|
            0 <= k < s.len() && rendered_label(#[trigger] s[k]).len() == max_label_len(s),
        listing_lines(s).len() == s.len(),
        forall|k: int|
            0 <= k < s.len() ==> {
                let line = #[trigger] listing_lines(s)[k];
                let w = max_label_len(s) as int;
                &&& line.subrange(0, w) == padded(rendered_label(s[k]), max_label_len(s))
                &&& padded(rendered_label(s[k]), max_label_len(s)).len() == w
                &&& line.subrange(w, w + 2) == seq![' ', ' ']
                &&& line.subrange(w + 2, line.len() as int) == description_text(s[k].description)
            },
{
    lemma_max_label_len(s);
    let w = max_label_len(s) as int;
    assert forall|k: int| 0 <= k < s.len() implies {
        let line = #[trigger] listing_lines(s)[k];
        &&& line.subrange(0, w) == padded(rendered_label(s[k]), max_label_len(s))
        &&& padded(rendered_label(s[k]), max_label_len(s)).len() == w
        &&& line.subrange(w, w + 2) == seq![' ', ' ']
        &&& line.subrange(w + 2, line.len() as int) == description_text(s[k].description)
    } by {
        let p = padded(rendered_label(s[k]), max_label_len(s));
        assert(rendered_label(s[k]).len() <= max_label_len(s));
        assert(p.len() == w);
        let line = listing_lines(s)[k];
        assert(line == p + seq![' ', ' '] + description_text(s[k].description));
        assert(line.subrange(0, w) =~= p);
        assert(line.subrange(w, w + 2) =~= seq![' ', ' ']);
        assert(line.subrange(w + 2, line.len() as int) =~= description_text(s[k].description));
    }
}

/// Renders ranked search results as a text listing: projected to display items,
/// deduplicated and disambiguated, each line padded to the widest label.
///
/// Fails with `NoMatches` carrying the term when there are no results.
pub fn render_search_results_user_facing(search_term: &str, results: &Vec<SearchResult>) -> (r:
    Result<Vec<String>, SearchError>)
    ensures
        match r {
            Ok(lines) => results@.len() > 0 && views(lines@) == listing_lines(
                consolidated(display_views(results@)),
            ),
            Err(SearchError::NoMatches(t)) => results@.len() == 0 && t@ == search_term@,
            Err(_) => false,
        },
{
    if results.len() == 0 {
        return Err(SearchError::NoMatches(search_term.to_owned()));
    }
    let items = display_items(results);
    let deduped = dedup_and_disambiguate_display_items(items);
    proof {
        let s = display_views(results@);
        lemma_consolidated_unique_in_rank_order(s);
        assert(s[0] == s[0]);
        assert(has_pair(consolidated(s), s[0]));
    }
    if deduped.len() == 0 {
        return Err(SearchError::InternalInvariantViolation);
    }
    Ok(render_listing(&deduped))
}

} // verus!
