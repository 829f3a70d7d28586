//! Names that the language declares and reads, and the types it knows of.
use vstd::prelude::*;

use crate::text::{chars_of, opt_view, string_of};

verus! {

/// A name, optionally qualified by a package: `package::name`.
#[derive(Debug, Clone, PartialEq, Eq)]
pub struct Identifier {
    pub package: Option<String>,
    pub name: String,
}

/// The model of an identifier: its package, if any, and its name.
pub struct IdentifierView {
    pub package: Option<Seq<char>>,
    pub name: Seq<char>,
}

impl View for Identifier {
    type V = IdentifierView;

    open spec fn view(&self) -> IdentifierView {
        IdentifierView { package: opt_view(self.package), name: self.name@ }
    }
}

/// `t` holds the package separator `::` at index `i`.
pub open spec fn sep_at(t: Seq<char>, i: int) -> bool {
    0 <= i && i + 1 < t.len() && t[i] == ':' && t[i + 1] == ':'
}

/// Where the last separator starts when `t` is split on `::` from the left,
/// searching from index `i` on, with `last` the one found before `i`.
pub open spec fn last_sep_from(t: Seq<char>, i: int, last: Option<int>) -> Option<int>
    decreases t.len() - i,
{
    if i < 0 || i + 1 >= t.len() {
        last
    } else if sep_at(t, i) {
        last_sep_from(t, i + 2, Some(i))
    } else {
        last_sep_from(t, i + 1, last)
    }
}

/// The identifier that the text `t` denotes: split on `::`, the last part is
/// the name and the parts before it, joined again, the package.
pub open spec fn identifier_of(t: Seq<char>) -> IdentifierView {
    match last_sep_from(t, 0, None) {
        None => IdentifierView { package: None, name: t },
        Some(i) => IdentifierView { package: Some(t.take(i)), name: t.skip(i + 2) },
    }
}

/// The text of an identifier: `package::name`, or the name alone.
pub open spec fn identifier_text(id: IdentifierView) -> Seq<char> {
    match id.package {
        None => id.name,
        Some(p) => p + seq![':', ':'] + id.name,
    }
}

impl Identifier {
    /// Splits `s` into package and name at its package separators.
    pub fn from_str(s: &str) -> (r: Identifier)
        ensures
            r@ == identifier_of(s@),
    {
        let cs = chars_of(s);
        let mut last: Option<usize> = None;
        let mut i: usize = 0;
        while i < cs.len() && i + 1 < cs.len()
            invariant
                cs@ == s@,
                i <= cs@.len(),
                last_sep_from(s@, 0, None) == last_sep_from(s@, i as int, match last {
                    None => None,
                    Some(j) => Some(j as int),
                }),
                last matches Some(j) ==> j + 2 <= i,
            decreases cs@.len() - i,
        {
            if cs[i] == ':' && cs[i + 1] == ':' {
                last = Some(i);
                i = i + 2;
            } else {
                i = i + 1;
            }
        }
        match last {
            None => Identifier { package: None, name: string_of(&cs) },
            Some(j) => {
                let mut pkg: Vec<char> = Vec::new();
                let mut k: usize = 0;
                while k < j
                    invariant
                        cs@ == s@,
                        k <= j,
                        j + 2 <= cs@.len(),
                        pkg@ == cs@.take(k as int),
                    decreases j - k,
                {
                    pkg.push(cs[k]);
                    k = k + 1;
                    assert(pkg@ =~= cs@.take(k as int));
                }
                let mut name: Vec<char> = Vec::new();
                let mut k: usize = j + 2;
                while k < cs.len()
                    invariant
                        cs@ == s@,
                        j + 2 <= k <= cs@.len(),
                        name@ == cs@.subrange(j + 2, k as int),
                    decreases cs@.len() - k,
                {
                    name.push(cs[k]);
                    k = k + 1;
                    assert(name@ =~= cs@.subrange(j + 2, k as int));
                }
                assert(name@ =~= s@.skip(j + 2));
                Identifier { package: Some(string_of(&pkg)), name: string_of(&name) }
            },
        }
    }
}

impl Identifier {
    /// The identifier as it is written: `package::name`, or the name alone.
    pub fn render(&self) -> (r: String)
        ensures
            r@ == identifier_text(self@),
    {
        match &self.package {
            Some(p) => {
                let mut s = p.clone();
                s.append("::");
                s.append(self.name.as_str());
                proof {
                    reveal_strlit("::");
                }
                assert(s@ =~= p@ + seq![':', ':'] + self.name@);
                s
            },
            None => self.name.clone(),
        }
    }
}

/// The types of the language.
pub enum Type {
    Int,
    Float,
    String,
    Bool,
    Void,
    Function(Vec<Type>, Box<Type>),
    Struct(Identifier),
    Enum(Identifier),
    Generic(Identifier),
    Unknown(Identifier),
}

} // verus!
