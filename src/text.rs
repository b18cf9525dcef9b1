//! Character-level string helpers shared by the serializer and the renderers.
use vstd::prelude::*;

verus! {

/// The views of a sequence of strings.
pub open spec fn views(v: Seq<String>) -> Seq<Seq<char>> {
    v.map_values(|s: String| s@)
}

/// `parts` joined with `sep` between each two neighbours.
pub open spec fn join_spec(parts: Seq<Seq<char>>, sep: Seq<char>) -> Seq<char>
    decreases parts.len(),
{
    if parts.len() == 0 {
        Seq::empty()
    } else if parts.len() == 1 {
        parts[0]
    } else {
        join_spec(parts.drop_last(), sep) + sep + parts.last()
    }
}

/// Joins the strings of `parts`, putting `sep` between each two neighbours.
pub fn join(parts: &Vec<String>, sep: &str) -> (r: String)
    ensures
        r@ == join_spec(views(parts@), sep@),
{
    let n = parts.len();
    if n == 0 {
        return String::new();
    }
    let mut acc = parts[0].clone();
    let mut i: usize = 1;
    assert(views(parts@).subrange(0, 1) =~= seq![parts@[0]@]);
    while i < n
        invariant
            1 <= i <= n,
            n == parts@.len(),
            acc@ == join_spec(views(parts@).subrange(0, i as int), sep@),
        decreases n - i,
    {
        acc.append(sep);
        acc.append(parts[i].as_str());
        proof {
            let next = views(parts@).subrange(0, i + 1);
            assert(next.drop_last() =~= views(parts@).subrange(0, i as int));
        }
        i = i + 1;
    }
    assert(views(parts@).subrange(0, n as int) =~= views(parts@));
    acc
}

/// `s` with every line break turned into a space.
pub open spec fn flatten_spec(s: Seq<char>) -> Seq<char> {
    s.map_values(|c: char| if c == '\n' { ' ' } else { c })
}

/// Replaces every line break of `s` by a space.
pub fn flatten_lines(s: &str) -> (r: String)
    ensures
        r@ == flatten_spec(s@),
{
    let n = s.unicode_len();
    let mut acc = String::new();
    let mut start: usize = 0;
    let mut i: usize = 0;
    while i < n
        invariant
            start <= i <= n,
            n == s@.len(),
            acc@ + s@.subrange(start as int, i as int) == flatten_spec(s@.subrange(0, i as int)),
            forall|k: int| start <= k < i ==> s@[k] != '\n',
        decreases n - i,
    {
        let c = s.get_char(i);
        proof {
            assert(s@.subrange(0, i + 1) =~= s@.subrange(0, i as int).push(c));
            assert(flatten_spec(s@.subrange(0, i + 1)) =~= flatten_spec(s@.subrange(0, i as int)).push(
                if c == '\n' { ' ' } else { c },
            ));
        }
        if c == '\n' {
            acc.append(s.substring_char(start, i));
            acc.append(" ");
            proof {
                reveal_strlit(" ");
            }
            start = i + 1;
            assert(s@.subrange(start as int, start as int) =~= Seq::<char>::empty());
        } else {
            assert(s@.subrange(start as int, i + 1) =~= s@.subrange(start as int, i as int).push(c));
        }
        i = i + 1;
    }
    acc.append(s.substring_char(start, n));
    assert(s@.subrange(0, n as int) =~= s@);
    acc
}

} // verus!
