//! A diagram under construction.

use vstd::prelude::*;
use vstd::string::*;

use crate::ids::{id_of, ids_with, IdEntryV, Ids};
use crate::list::put;

verus! {

/// The text of a diagram so far, and the identifiers used in it.
#[derive(Debug)]
pub struct Pen {
    /// The text.
    pub out: String,
    /// The identifiers.
    pub ids: Ids,
}

/// What a [`Pen`] means.
pub struct PenV {
    pub out: Seq<char>,
    pub ids: Seq<IdEntryV>,
}

impl DeepView for Pen {
    type V = PenV;

    open spec fn deep_view(&self) -> PenV {
        PenV { out: self.out@, ids: self.ids.deep_view() }
    }
}

/// The diagram with one line more.
pub open spec fn wrote(p: PenV, line: Seq<char>) -> PenV {
    PenV { out: p.out + line + "\n"@, ids: p.ids }
}

/// The diagram with more text behind it.
pub open spec fn inked(p: PenV, more: Seq<char>) -> PenV {
    PenV { out: p.out + more, ids: p.ids }
}

/// The identifier of an element.
pub open spec fn named(p: PenV, prefix: Seq<char>, key: Seq<char>) -> Seq<char> {
    id_of(p.ids, prefix, key)
}

/// The diagram once the element has an identifier.
pub open spec fn naming(p: PenV, prefix: Seq<char>, key: Seq<char>) -> PenV {
    PenV { out: p.out, ids: ids_with(p.ids, prefix, key) }
}

impl Pen {
    /// A diagram that starts with `out`.
    pub fn new(out: String) -> (r: Self)
        ensures
            r.deep_view() == (PenV { out: out@, ids: Seq::empty() }),
    {
        Pen { out, ids: Ids::new() }
    }

    /// Writes one line.
    pub fn line(&mut self, s: &str)
        ensures
            final(self).deep_view() == wrote(old(self).deep_view(), s@),
    {
        self.out.append(s);
        self.out.append("\n");
    }

    /// Writes text as it is.
    pub fn ink(&mut self, s: &str)
        ensures
            final(self).deep_view() == inked(old(self).deep_view(), s@),
    {
        self.out.append(s);
    }

    /// The identifier of an element.
    pub fn id(&mut self, prefix: &str, key: &str) -> (r: String)
        ensures
            r@ == named(old(self).deep_view(), prefix@, key@),
            final(self).deep_view() == naming(old(self).deep_view(), prefix@, key@),
    {
        self.ids.get(prefix, key)
    }
}

/// The identifiers of the elements from number `i` on, behind `acc`, and the diagram after that.
pub open spec fn named_from(
    p: PenV,
    prefix: Seq<char>,
    keys: Seq<Seq<char>>,
    i: int,
    acc: Seq<Seq<char>>,
) -> (PenV, Seq<Seq<char>>)
    decreases keys.len() - i,
{
    if i < 0 || i >= keys.len() {
        (p, acc)
    } else {
        named_from(naming(p, prefix, keys[i]), prefix, keys, i + 1, acc.push(named(p, prefix, keys[i])))
    }
}

/// The identifiers of several elements, in order, and the diagram after that.
pub open spec fn all_named(p: PenV, prefix: Seq<char>, keys: Seq<Seq<char>>) -> (PenV, Seq<Seq<char>>) {
    named_from(p, prefix, keys, 0, Seq::empty())
}

impl Pen {
    /// The identifiers of several elements.
    pub fn name_all(&mut self, prefix: &str, keys: &Vec<String>) -> (r: Vec<String>)
        ensures
            (final(self).deep_view(), r.deep_view()) == all_named(
                old(self).deep_view(),
                prefix@,
                keys.deep_view(),
            ),
    {
        let ghost start = self.deep_view();
        let ghost ks = keys.deep_view();
        let mut out: Vec<String> = Vec::new();
        assert(out.deep_view() == Seq::<Seq<char>>::empty());
        let mut i: usize = 0;
        while i < keys.len()
            invariant
                i <= keys@.len(),
                ks == keys.deep_view(),
                all_named(start, prefix@, ks) == named_from(
                    self.deep_view(),
                    prefix@,
                    ks,
                    i as int,
                    out.deep_view(),
                ),
            decreases keys@.len() - i,
        {
            let id = self.id(prefix, keys[i].as_str());
            put(&mut out, id);
            i = i + 1;
        }
        out
    }
}

} // verus!
