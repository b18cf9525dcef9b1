//! Typed options serialized into the tokens of an external command line.
use vstd::prelude::*;

use crate::text::{join, join_spec, views};

verus! {

/// The kind of a flag together with the value extracted from its owner.
pub enum FlagType {
    /// A toggle: the flag's name alone when set, nothing otherwise.
    Bool(bool),
    /// The flag followed by all elements joined by spaces into one token.
    List(Vec<String>),
    /// The flag followed by its value, always.
    Arg(String),
    /// The flag followed by each element as its own token.
    Args(Vec<String>),
    /// Exactly the given tokens, with no flag in front.
    Custom(Vec<String>),
}

/// The tokens a flag named `flag` of type `t` contributes to a command line.
pub open spec fn tokens(flag: Seq<char>, t: FlagType) -> Seq<Seq<char>> {
    match t {
        FlagType::Bool(b) => if b {
            seq![flag]
        } else {
            Seq::empty()
        },
        FlagType::List(v) => if v@.len() == 0 {
            Seq::empty()
        } else {
            seq![flag, join_spec(views(v@), seq![' '])]
        },
        FlagType::Arg(s) => seq![flag, s@],
        FlagType::Args(v) => if v@.len() == 0 {
            Seq::empty()
        } else {
            seq![flag] + views(v@)
        },
        FlagType::Custom(v) => views(v@),
    }
}

impl FlagType {
    /// A toggle flag holding `value`.
    pub fn bool(value: bool) -> (r: FlagType)
        ensures
            r == FlagType::Bool(value),
    {
        FlagType::Bool(value)
    }

    /// A list flag over `values`.
    pub fn list(values: Vec<String>) -> (r: FlagType)
        ensures
            r == FlagType::List(values),
    {
        FlagType::List(values)
    }

    /// A single-argument flag with `value`.
    pub fn arg(value: String) -> (r: FlagType)
        ensures
            r == FlagType::Arg(value),
    {
        FlagType::Arg(value)
    }

    /// The command-line tokens of this flag under the name `flag`.
    pub fn to_args(&self, flag: &str) -> (r: Vec<String>)
        ensures
            views(r@) == tokens(flag@, *self),
    {
        match self {
            FlagType::Bool(b) => {
                let mut out: Vec<String> = Vec::new();
                if *b {
                    out.push(flag.to_owned());
                }
                assert(views(out@) =~= tokens(flag@, *self));
                out
            },
            FlagType::List(v) => {
                let mut out: Vec<String> = Vec::new();
                if v.len() > 0 {
                    out.push(flag.to_owned());
                    let joined = join(v, " ");
                    proof {
                        reveal_strlit(" ");
                    }
                    assert(" "@ =~= seq![' ']);
                    out.push(joined);
                }
                assert(views(out@) =~= tokens(flag@, *self));
                out
            },
            FlagType::Arg(s) => {
                let mut out: Vec<String> = Vec::new();
                out.push(flag.to_owned());
                out.push(s.clone());
                assert(views(out@) =~= tokens(flag@, *self));
                out
            },
            FlagType::Args(v) => {
                let mut out: Vec<String> = Vec::new();
                if v.len() > 0 {
                    out.push(flag.to_owned());
                    let mut i: usize = 0;
                    while i < v.len()
                        invariant
                            0 <= i <= v@.len(),
                            views(out@) =~= seq![flag@] + views(v@).subrange(0, i as int),
                        decreases v@.len() - i,
                    {
                        let ghost before = out@;
                        out.push(v[i].clone());
                        assert(views(out@) =~= views(before).push(v@[i as int]@));
                        assert(seq![flag@] + views(v@).subrange(0, i + 1) =~= (seq![flag@] + views(
                            v@,
                        ).subrange(0, i as int)).push(v@[i as int]@));
                        i = i + 1;
                    }
                    assert(views(v@).subrange(0, v@.len() as int) =~= views(v@));
                }
                assert(views(out@) =~= tokens(flag@, *self));
                out
            },
            FlagType::Custom(v) => {
                let mut out: Vec<String> = Vec::new();
                let mut i: usize = 0;
                while i < v.len()
                    invariant
                        0 <= i <= v@.len(),
                        views(out@) =~= views(v@).subrange(0, i as int),
                    decreases v@.len() - i,
                {
                    out.push(v[i].clone());
                    assert(views(v@).subrange(0, i + 1) =~= views(v@).subrange(0, i as int).push(
                        v@[i as int]@,
                    ));
                    i = i + 1;
                }
                assert(views(v@).subrange(0, v@.len() as int) =~= views(v@));
                out
            },
        }
    }
}

/// Token counts per kind: a toggle gives its name when set and nothing otherwise;
/// a list gives nothing when empty and else the name and one joined token; a single
/// argument always gives two tokens; a variadic flag gives nothing when empty and
/// else the name and one token per element; a custom flag gives exactly its tokens.
pub proof fn lemma_token_counts(flag: Seq<char>, t: FlagType)
    ensures
        match t {
            FlagType::Bool(b) => if b {
                tokens(flag, t) == seq![flag]
            } else {
                tokens(flag, t).len() == 0
            },
            FlagType::List(v) => if v@.len() == 0 {
                tokens(flag, t).len() == 0
            } else {
                tokens(flag, t).len() == 2 && tokens(flag, t)[0] == flag
            },
            FlagType::Arg(s) => tokens(flag, t) == seq![flag, s@],
            FlagType::Args(v) => if v@.len() == 0 {
                tokens(flag, t).len() == 0
            } else {
                &&& tokens(flag, t).len() == 1 + v@.len()
                &&& tokens(flag, t)[0] == flag
                &&& forall|i: int| 0 <= i < v@.len() ==> tokens(flag, t)[i + 1] == (#[trigger] v@[i])@
            },
            FlagType::Custom(v) => tokens(flag, t) == views(v@),
        },
{
}

/// A setting that knows its own flag name and how to extract its value.
pub trait Flag: Sized {
    /// The flag's name on the command line.
    spec fn flag_spec() -> Seq<char>;

    /// The flag's kind together with the value taken from `self`.
    spec fn flag_type_spec(&self) -> FlagType;

    /// The flag's name on the command line, such as `--option`.
    fn flag() -> (r: &'static str)
        ensures
            r@ == Self::flag_spec(),
    ;

    /// The flag's kind together with the value taken from `self`.
    fn flag_type(&self) -> (r: FlagType)
        ensures
            r == self.flag_type_spec(),
    ;

    /// The tokens of this setting on a command line: determined by the flag's
    /// name, its kind and the value taken from `self`.
    fn to_args(&self) -> (r: Vec<String>)
        ensures
            views(r@) == tokens(Self::flag_spec(), self.flag_type_spec()),
    {
        let t = self.flag_type();
        let name = Self::flag();
        t.to_args(name)
    }
}

} // verus!
