//! Version-range shapes whose wildcards the range parser has no rule for.
//!
//! The parser turns `=` followed by a wildcard major version (`=x`, `= v*`, but not
//! `>=x` or `<=*`), and
//! `~` or `~>` followed by a wildcard major version (`~x`) or by a wildcard minor
//! version with a patch after it (`~1.x.3`), into a failure of the whole program
//! rather than an error. The predicate here marks every text in which such a
//! shape starts at some position.
use vstd::prelude::*;

verus! {

/// A space or a tab.
pub open spec fn is_blank(c: char) -> bool {
    c == ' ' || c == '\t'
}

/// A wildcard version component.
pub open spec fn is_wild(c: char) -> bool {
    c == 'x' || c == 'X' || c == '*'
}

/// A decimal digit.
pub open spec fn is_digit(c: char) -> bool {
    '0' <= c && c <= '9'
}

/// The first index at or after `i` that does not hold a blank.
pub open spec fn skip_blanks(s: Seq<char>, i: int) -> int
    decreases s.len() - i,
{
    if i < 0 || i >= s.len() || !is_blank(s[i]) {
        i
    } else {
        skip_blanks(s, i + 1)
    }
}

/// The first index at or after `i` that does not hold a digit.
pub open spec fn skip_digits(s: Seq<char>, i: int) -> int
    decreases s.len() - i,
{
    if i < 0 || i >= s.len() || !is_digit(s[i]) {
        i
    } else {
        skip_digits(s, i + 1)
    }
}

/// Where the major component of a version starting at `i` stands: after blanks,
/// an optional `v`, and blanks again.
pub open spec fn major_at(s: Seq<char>, i: int) -> int {
    let j = skip_blanks(s, i);
    let k = if 0 <= j < s.len() && s[j] == 'v' {
        j + 1
    } else {
        j
    };
    skip_blanks(s, k)
}

/// `=` at `p`, not part of `>=` or `<=`, followed by a version whose major
/// component is a wildcard.
pub open spec fn exact_wild_at(s: Seq<char>, p: int) -> bool {
    let m = major_at(s, p + 1);
    &&& 0 <= p < s.len()
    &&& s[p] == '='
    &&& !(p > 0 && (s[p - 1] == '<' || s[p - 1] == '>'))
    &&& 0 <= m < s.len()
    &&& is_wild(s[m])
}

/// A version at `m` with a numeric major, a wildcard minor, and a patch.
pub open spec fn wild_minor_with_patch_at(s: Seq<char>, m: int) -> bool {
    let d = skip_digits(s, m);
    &&& 0 <= m < s.len()
    &&& is_digit(s[m])
    &&& d + 3 < s.len()
    &&& s[d] == '.'
    &&& is_wild(s[d + 1])
    &&& s[d + 2] == '.'
    &&& (is_wild(s[d + 3]) || is_digit(s[d + 3]))
}

/// `~` or `~>` at `p`, followed by a version with a wildcard major, or with a
/// wildcard minor and a patch.
pub open spec fn tilde_wild_at(s: Seq<char>, p: int) -> bool {
    let j = skip_blanks(s, p + 1);
    let k = if 0 <= j < s.len() && s[j] == '>' {
        j + 1
    } else {
        j
    };
    let m = major_at(s, k);
    &&& 0 <= p < s.len()
    &&& s[p] == '~'
    &&& ((0 <= m < s.len() && is_wild(s[m])) || wild_minor_with_patch_at(s, m))
}

/// Whether a shape the range parser has no rule for starts at `p`.
pub open spec fn unhandled_wildcard_at(s: Seq<char>, p: int) -> bool {
    exact_wild_at(s, p) || tilde_wild_at(s, p)
}

/// Whether a shape the range parser has no rule for starts anywhere in `s`.
pub open spec fn has_unhandled_wildcard(s: Seq<char>) -> bool {
    exists|p: int| 0 <= p < s.len() && #[trigger] unhandled_wildcard_at(s, p)
}

fn wild(c: char) -> (b: bool)
    ensures
        b == is_wild(c),
{
    c == 'x' || c == 'X' || c == '*'
}

fn digit(c: char) -> (b: bool)
    ensures
        b == is_digit(c),
{
    '0' <= c && c <= '9'
}

fn skip_blanks_from(s: &str, n: usize, i: usize) -> (r: usize)
    requires
        n == s@.len(),
        i <= n,
    ensures
        r == skip_blanks(s@, i as int),
        i <= r <= n,
{
    let mut j: usize = i;
    while j < n && (s.get_char(j) == ' ' || s.get_char(j) == '\t')
        invariant
            i <= j <= n,
            n == s@.len(),
            skip_blanks(s@, i as int) == skip_blanks(s@, j as int),
        decreases n - j,
    {
        j = j + 1;
    }
    j
}

fn skip_digits_from(s: &str, n: usize, i: usize) -> (r: usize)
    requires
        n == s@.len(),
        i <= n,
    ensures
        r == skip_digits(s@, i as int),
        i <= r <= n,
{
    let mut j: usize = i;
    while j < n && digit(s.get_char(j))
        invariant
            i <= j <= n,
            n == s@.len(),
            skip_digits(s@, i as int) == skip_digits(s@, j as int),
        decreases n - j,
    {
        j = j + 1;
    }
    j
}

fn major_from(s: &str, n: usize, i: usize) -> (r: usize)
    requires
        n == s@.len(),
        i <= n,
    ensures
        r == major_at(s@, i as int),
        r <= n,
{
    let j = skip_blanks_from(s, n, i);
    let k = if j < n && s.get_char(j) == 'v' {
        j + 1
    } else {
        j
    };
    skip_blanks_from(s, n, k)
}

fn unhandled_at(s: &str, n: usize, p: usize) -> (b: bool)
    requires
        n == s@.len(),
        p < n,
    ensures
        b == unhandled_wildcard_at(s@, p as int),
{
    let c = s.get_char(p);
    if c == '=' {
        if p > 0 && (s.get_char(p - 1) == '<' || s.get_char(p - 1) == '>') {
            return false;
        }
        let m = major_from(s, n, p + 1);
        m < n && wild(s.get_char(m))
    } else if c == '~' {
        let j = skip_blanks_from(s, n, p + 1);
        let k = if j < n && s.get_char(j) == '>' {
            j + 1
        } else {
            j
        };
        let m = major_from(s, n, k);
        if m >= n {
            return false;
        }
        let cm = s.get_char(m);
        if wild(cm) {
            return true;
        }
        if !digit(cm) {
            return false;
        }
        let d = skip_digits_from(s, n, m);
        if d >= n || n - d <= 3 {
            return false;
        }
        s.get_char(d) == '.' && wild(s.get_char(d + 1)) && s.get_char(d + 2) == '.' && (wild(
            s.get_char(d + 3),
        ) || digit(s.get_char(d + 3)))
    } else {
        false
    }
}

/// Whether a shape the range parser has no rule for starts anywhere in `s`.
pub fn unhandled_wildcard(s: &str) -> (b: bool)
    ensures
        b == has_unhandled_wildcard(s@),
{
    let n = s.unicode_len();
    let mut p: usize = 0;
    while p < n
        invariant
            p <= n,
            n == s@.len(),
            forall|q: int| 0 <= q < p ==> !#[trigger] unhandled_wildcard_at(s@, q),
        decreases n - p,
    {
        if unhandled_at(s, n, p) {
            return true;
        }
        p = p + 1;
    }
    false
}

} // verus!
