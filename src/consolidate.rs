//! Deduplication and disambiguation of ranked search results.
use vstd::prelude::*;

verus! {

/// An intermediate form of a search result used for rendering.
pub struct DisplayItem {
    /// The input that the package came from.
    pub input: String,
    /// The displayable part of the package's attribute path.
    pub package: String,
    /// The package description.
    pub description: Option<String>,
    /// Whether to join `input` and `package` with a separator when rendering.
    pub render_with_input: bool,
}

/// The value of a display item.
pub struct DisplayItemView {
    pub input: Seq<char>,
    pub package: Seq<char>,
    pub description: Option<Seq<char>>,
    pub render_with_input: bool,
}

/// The view of an optional string.
pub open spec fn opt_view(o: Option<String>) -> Option<Seq<char>> {
    match o {
        Some(s) => Some(s@),
        None => None,
    }
}

impl View for DisplayItem {
    type V = DisplayItemView;

    open spec fn view(&self) -> DisplayItemView {
        DisplayItemView {
            input: self.input@,
            package: self.package@,
            description: opt_view(self.description),
            render_with_input: self.render_with_input,
        }
    }
}

/// The views of a sequence of display items.
pub open spec fn item_views(s: Seq<DisplayItem>) -> Seq<DisplayItemView> {
    s.map_values(|d: DisplayItem| d@)
}

/// Whether two items name the same (package, input) pair.
pub open spec fn same_key(a: DisplayItemView, b: DisplayItemView) -> bool {
    a.package == b.package && a.input == b.input
}

/// Whether the pair of `s[i]` occurs earlier in `s`.
pub open spec fn seen_before(s: Seq<DisplayItemView>, i: int) -> bool {
    exists|j: int| 0 <= j < i && #[trigger] same_key(s[j], s[i])
}

/// Whether `package` occurs in `s` with two different inputs.
pub open spec fn needs_input(s: Seq<DisplayItemView>, package: Seq<char>) -> bool {
    exists|i: int, j: int|
        0 <= i < s.len() && 0 <= j < s.len() && #[trigger] s[i].package == package
            && #[trigger] s[j].package == package && s[i].input != s[j].input
}

/// Whether some item of `f` names the pair of `d`.
pub open spec fn has_pair(f: Seq<DisplayItemView>, d: DisplayItemView) -> bool {
    exists|k: int| 0 <= k < f.len() && #[trigger] same_key(f[k], d)
}

/// Whether the pair of `d` occurs in `s` before index `i`.
pub open spec fn occurs_before(s: Seq<DisplayItemView>, d: DisplayItemView, i: int) -> bool {
    exists|j: int| 0 <= j < i && #[trigger] same_key(s[j], d)
}

/// The first occurrence of each (package, input) pair of `s`, in the order of `s`.
pub open spec fn first_occurrences(s: Seq<DisplayItemView>) -> Seq<DisplayItemView>
    decreases s.len(),
{
    if s.len() == 0 {
        Seq::empty()
    } else if seen_before(s, s.len() - 1) {
        first_occurrences(s.drop_last())
    } else {
        first_occurrences(s.drop_last()).push(s.last())
    }
}

/// `d` with its disambiguation flag set to `flag`.
pub open spec fn marked(d: DisplayItemView, flag: bool) -> DisplayItemView {
    DisplayItemView { render_with_input: flag, ..d }
}

/// The consolidated listing of `s`: first occurrences in rank order, each flagged
/// when its package comes from more than one input anywhere in `s`.
pub open spec fn consolidated(s: Seq<DisplayItemView>) -> Seq<DisplayItemView> {
    first_occurrences(s).map_values(|d: DisplayItemView| marked(d, needs_input(s, d.package)))
}

/// Each item of `first_occurrences(s)` is an item of `s` whose pair does not occur earlier.
proof fn lemma_first_occurrences_from(s: Seq<DisplayItemView>)
    ensures
        forall|k: int|
            0 <= k < first_occurrences(s).len() ==> exists|i: int|
                0 <= i < s.len() && #[trigger] first_occurrences(s)[k] == s[i] && !seen_before(s, i),
    decreases s.len(),
{
    if s.len() > 0 {
        let p = s.drop_last();
        lemma_first_occurrences_from(p);
        assert forall|k: int| 0 <= k < first_occurrences(s).len() implies exists|i: int|
            0 <= i < s.len() && #[trigger] first_occurrences(s)[k] == s[i] && !seen_before(s, i) by {
            if k < first_occurrences(p).len() {
                let i = choose|i: int|
                    0 <= i < p.len() && #[trigger] first_occurrences(p)[k] == p[i] && !seen_before(p, i);
                assert(first_occurrences(s)[k] == s[i]);
                if seen_before(s, i) {
                    let j = choose|j: int| 0 <= j < i && #[trigger] same_key(s[j], s[i]);
                    assert(same_key(p[j], p[i]));
                }
            } else {
                assert(first_occurrences(s)[k] == s[s.len() - 1]);
            }
        }
    }
}

/// The pairs of `first_occurrences(s)` are pairwise distinct.
proof fn lemma_first_occurrences_distinct(s: Seq<DisplayItemView>)
    ensures
        forall|a: int, b: int|
            0 <= a < b < first_occurrences(s).len() ==> !same_key(
                #[trigger] first_occurrences(s)[a],
                #[trigger] first_occurrences(s)[b],
            ),
    decreases s.len(),
{
    if s.len() > 0 {
        let p = s.drop_last();
        let n = s.len() - 1;
        lemma_first_occurrences_distinct(p);
        lemma_first_occurrences_from(p);
        assert forall|a: int, b: int| 0 <= a < b < first_occurrences(s).len() implies !same_key(
            #[trigger] first_occurrences(s)[a],
            #[trigger] first_occurrences(s)[b],
        ) by {
            if b == first_occurrences(p).len() {
                let ia = choose|i: int| 0 <= i < p.len() && #[trigger] first_occurrences(p)[a] == p[i] && !seen_before(p, i);
                assert(first_occurrences(s)[b] == s[n]);
                if same_key(first_occurrences(s)[a], first_occurrences(s)[b]) {
                    assert(same_key(s[ia], s[n]));
                }
            } else {
                assert(first_occurrences(s)[a] == first_occurrences(p)[a] && first_occurrences(s)[b] == first_occurrences(p)[b]);
            }
        }
    }
}

/// Every pair of `s` is the pair of some item of `first_occurrences(s)`.
proof fn lemma_first_occurrences_cover(s: Seq<DisplayItemView>)
    ensures
        forall|i: int|
            #![trigger s[i]]
            0 <= i < s.len() ==> has_pair(first_occurrences(s), s[i]),
    decreases s.len(),
{
    if s.len() > 0 {
        let p = s.drop_last();
        let n = s.len() - 1;
        lemma_first_occurrences_cover(p);
        assert forall|i: int| #![trigger s[i]] 0 <= i < s.len() implies has_pair(first_occurrences(s), s[i]) by {
            if i < n {
                assert(p[i] == s[i]);
                let k = choose|k: int| 0 <= k < first_occurrences(p).len() && #[trigger] same_key(first_occurrences(p)[k], p[i]);
                assert(same_key(first_occurrences(s)[k], s[i]));
            } else if seen_before(s, n) {
                let j = choose|j: int| 0 <= j < n && #[trigger] same_key(s[j], s[n]);
                assert(p[j] == s[j]);
                let k = choose|k: int| 0 <= k < first_occurrences(p).len() && #[trigger] same_key(first_occurrences(p)[k], p[j]);
                assert(same_key(first_occurrences(s)[k], s[i]));
            } else {
                assert(same_key(first_occurrences(s)[first_occurrences(p).len() as int], s[i]));
            }
        }
    }
}

/// The pair of an earlier item of `first_occurrences(s)` occurs in `s` before every
/// occurrence of the pair of a later one.
proof fn lemma_first_occurrences_order(s: Seq<DisplayItemView>)
    ensures
        forall|a: int, b: int, i: int|
            #![trigger same_key(s[i], first_occurrences(s)[b]), first_occurrences(s)[a]]
            0 <= a < b < first_occurrences(s).len() && 0 <= i < s.len() && same_key(
                s[i],
                first_occurrences(s)[b],
            ) ==> occurs_before(s, first_occurrences(s)[a], i),
    decreases s.len(),
{
    if s.len() > 0 {
        let p = s.drop_last();
        let n = s.len() - 1;
        lemma_first_occurrences_order(p);
        lemma_first_occurrences_from(p);
        assert forall|a: int, b: int, i: int|
            #![trigger same_key(s[i], first_occurrences(s)[b]), first_occurrences(s)[a]]
            0 <= a < b < first_occurrences(s).len() && 0 <= i < s.len() && same_key(s[i], first_occurrences(s)[b]) implies occurs_before(s, first_occurrences(s)[a], i) by {
            let ia = choose|x: int| 0 <= x < p.len() && #[trigger] first_occurrences(p)[a] == p[x] && !seen_before(p, x);
            assert(first_occurrences(s)[a] == first_occurrences(p)[a]);
            if b == first_occurrences(p).len() {
                assert(first_occurrences(s)[b] == s[n]);
                if i < n {
                    assert(same_key(s[i], s[n]));
                }
                assert(same_key(s[ia], first_occurrences(s)[a]));
            } else {
                assert(first_occurrences(s)[b] == first_occurrences(p)[b]);
                if i < n {
                    assert(p[i] == s[i]);
                    assert(same_key(p[i], first_occurrences(p)[b]));
                    let j = choose|j: int| 0 <= j < i && #[trigger] same_key(p[j], first_occurrences(p)[a]);
                    assert(same_key(s[j], first_occurrences(s)[a]));
                } else {
                    let ib = choose|x: int| 0 <= x < p.len() && #[trigger] first_occurrences(p)[b] == p[x] && !seen_before(p, x);
                    assert(same_key(p[ib], first_occurrences(p)[b]));
                    let j = choose|j: int| 0 <= j < ib && #[trigger] same_key(p[j], first_occurrences(p)[a]);
                    assert(same_key(s[j], first_occurrences(s)[a]));
                }
            }
        }
    }
}

/// The consolidated listing holds each distinct (package, input) pair of the ranked
/// input exactly once, and orders the pairs by their first occurrence: the pair of an
/// earlier listed item occurs in the input before every occurrence of a later one.
pub proof fn lemma_consolidated_unique_in_rank_order(s: Seq<DisplayItemView>)
    ensures
        forall|a: int, b: int|
            0 <= a < b < consolidated(s).len() ==> !same_key(
                #[trigger] consolidated(s)[a],
                #[trigger] consolidated(s)[b],
            ),
        forall|i: int|
            #![trigger s[i]]
            0 <= i < s.len() ==> has_pair(consolidated(s), s[i]),
        forall|a: int, b: int, i: int|
            #![trigger same_key(s[i], consolidated(s)[b]), consolidated(s)[a]]
            0 <= a < b < consolidated(s).len() && 0 <= i < s.len() && same_key(
                s[i],
                consolidated(s)[b],
            ) ==> occurs_before(s, consolidated(s)[a], i),
{
    lemma_first_occurrences_distinct(s);
    lemma_first_occurrences_cover(s);
    lemma_first_occurrences_order(s);
    assert(consolidated(s).len() == first_occurrences(s).len());
    assert forall|k: int| 0 <= k < consolidated(s).len() implies same_key(#[trigger] consolidated(s)[k], first_occurrences(s)[k]) by {
        assert(consolidated(s)[k] == marked(first_occurrences(s)[k], needs_input(s, first_occurrences(s)[k].package)));
    }
    assert forall|a: int, b: int| 0 <= a < b < consolidated(s).len() implies !same_key(
        #[trigger] consolidated(s)[a],
        #[trigger] consolidated(s)[b],
    ) by {
        assert(same_key(consolidated(s)[a], first_occurrences(s)[a]) && same_key(consolidated(s)[b], first_occurrences(s)[b]));
        assert(!same_key(first_occurrences(s)[a], first_occurrences(s)[b]));
    }
    assert forall|i: int| #![trigger s[i]] 0 <= i < s.len() implies has_pair(consolidated(s), s[i]) by {
        let k = choose|k: int| 0 <= k < first_occurrences(s).len() && #[trigger] same_key(first_occurrences(s)[k], s[i]);
        assert(same_key(consolidated(s)[k], first_occurrences(s)[k]));
        assert(same_key(consolidated(s)[k], s[i]));
    }
    assert forall|a: int, b: int, i: int|
        #![trigger same_key(s[i], consolidated(s)[b]), consolidated(s)[a]]
        0 <= a < b < consolidated(s).len() && 0 <= i < s.len() && same_key(s[i], consolidated(s)[b]) implies occurs_before(s, consolidated(s)[a], i) by {
        assert(same_key(consolidated(s)[a], first_occurrences(s)[a]) && same_key(consolidated(s)[b], first_occurrences(s)[b]));
        assert(same_key(s[i], first_occurrences(s)[b]));
        let j = choose|j: int| 0 <= j < i && #[trigger] same_key(s[j], first_occurrences(s)[a]);
        assert(same_key(s[j], consolidated(s)[a]));
    }
}

/// An item of the consolidated listing is flagged for disambiguation exactly when its
/// package occurs with more than one distinct input anywhere in the ranked input.
pub proof fn lemma_consolidated_disambiguation(s: Seq<DisplayItemView>)
    ensures
        forall|k: int|
            0 <= k < consolidated(s).len() ==> (#[trigger] consolidated(s)[k]).render_with_input
                == needs_input(s, consolidated(s)[k].package),
{
}

fn copy_description(d: &Option<String>) -> (r: Option<String>)
    ensures
        opt_view(r) == opt_view(*d),
{
    match d {
        Some(s) => Some(s.clone()),
        None => None,
    }
}

/// Whether the pair of `items[i]` occurs before index `i`.
fn pair_seen_before(items: &Vec<DisplayItem>, i: usize) -> (r: bool)
    requires
        i < items@.len(),
    ensures
        r == seen_before(item_views(items@), i as int),
{
    let ghost s = item_views(items@);
    let mut j: usize = 0;
    while j < i
        invariant
            j <= i < items@.len(),
            s == item_views(items@),
            forall|k: int| 0 <= k < j ==> !same_key(#[trigger] s[k], s[i as int]),
        decreases i - j,
    {
        if items[j].package == items[i].package && items[j].input == items[i].input {
            assert(same_key(s[j as int], s[i as int]));
            return true;
        }
        j = j + 1;
    }
    false
}

/// Whether the package of `items[i]` occurs with another input anywhere in `items`.
fn package_has_other_input(items: &Vec<DisplayItem>, i: usize) -> (r: bool)
    requires
        i < items@.len(),
    ensures
        r == needs_input(item_views(items@), items@[i as int].package@),
{
    let ghost s = item_views(items@);
    let mut j: usize = 0;
    while j < items.len()
        invariant
            j <= items@.len(),
            i < items@.len(),
            s == item_views(items@),
            forall|k: int|
                0 <= k < j ==> (#[trigger] s[k]).package != s[i as int].package || s[k].input
                    == s[i as int].input,
        decreases items@.len() - j,
    {
        if items[j].package == items[i].package && items[j].input != items[i].input {
            assert(s[j as int].package == s[i as int].package);
            assert(s[i as int].package == s[i as int].package);
            return true;
        }
        j = j + 1;
    }
    proof {
        let p = s[i as int].package;
        if needs_input(s, p) {
            let (a, b) = choose|a: int, b: int|
                0 <= a < s.len() && 0 <= b < s.len() && #[trigger] s[a].package == p
                    && #[trigger] s[b].package == p && s[a].input != s[b].input;
            assert(s[a].input == s[i as int].input);
            assert(s[b].input == s[i as int].input);
        }
    }
    false
}

/// Deduplicates and disambiguates ranked display items.
///
/// The first occurrence of each (package, input) pair is kept, in rank order;
/// an item is flagged for rendering with its input when its package comes from
/// more than one input.
///
/// Packages are grouped by linear scans over the ranked items: one scan per item
/// for an earlier occurrence of its pair, and one for another input of its package.
pub fn dedup_and_disambiguate_display_items(display_items: Vec<DisplayItem>) -> (r: Vec<
    DisplayItem,
>)
    ensures
        item_views(r@) == consolidated(item_views(display_items@)),
{
    let ghost s = item_views(display_items@);
    let mut out: Vec<DisplayItem> = Vec::new();
    let mut i: usize = 0;
    while i < display_items.len()
        invariant
            i <= s.len(),
            s == item_views(display_items@),
            item_views(out@) == first_occurrences(s.subrange(0, i as int)).map_values(
                |d: DisplayItemView| marked(d, needs_input(s, d.package)),
            ),
        decreases s.len() - i,
    {
        let seen = pair_seen_before(&display_items, i);
        proof {
            let sub = s.subrange(0, i + 1);
            assert(sub.drop_last() =~= s.subrange(0, i as int));
            assert(sub.last() == s[i as int]);
            if seen_before(s, i as int) {
                let j = choose|j: int| 0 <= j < i && #[trigger] same_key(s[j], s[i as int]);
                assert(same_key(sub[j], sub[i as int]));
            }
            if seen_before(sub, i as int) {
                let j = choose|j: int| 0 <= j < i && #[trigger] same_key(sub[j], sub[i as int]);
                assert(same_key(s[j], s[i as int]));
            }
        }
        if !seen {
            let flag = package_has_other_input(&display_items, i);
            let d = &display_items[i];
            let item = DisplayItem {
                input: d.input.clone(),
                package: d.package.clone(),
                description: copy_description(&d.description),
                render_with_input: flag,
            };
            let ghost before = out@;
            out.push(item);
            proof {
                let f = |d: DisplayItemView| marked(d, needs_input(s, d.package));
                let sub = s.subrange(0, i + 1);
                assert(item@ == f(s[i as int]));
                assert(item_views(out@) =~= item_views(before).push(item@));
                assert(first_occurrences(sub) == first_occurrences(sub.drop_last()).push(sub.last()));
                assert(first_occurrences(sub).map_values(f) =~= first_occurrences(
                    s.subrange(0, i as int),
                ).map_values(f).push(f(s[i as int])));
            }
        }
        i = i + 1;
    }
    assert(s.subrange(0, s.len() as int) =~= s);
    out
}

} // verus!
