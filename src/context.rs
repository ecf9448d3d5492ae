//! The override context: transformers forced on particular paths.

use vstd::prelude::*;

use crate::path::str_eq;
use crate::transformer::Transformer;

verus! {

/// The transformer forced on `p` by `entries`: the latest entry for `p` wins.
pub open spec fn override_in(entries: Seq<(String, Transformer)>, p: Seq<char>) -> Option<Transformer>
    decreases entries.len(),
{
    if entries.len() == 0 {
        None
    } else if entries.last().0@ == p {
        Some(entries.last().1)
    } else {
        override_in(entries.drop_last(), p)
    }
}

/// Transformers forced on exact paths, consulted before any inference from a
/// file name. Built once by the caller and only read while resolving.
pub struct InstanceContext {
    overrides: Vec<(String, Transformer)>,
}

impl View for InstanceContext {
    type V = Map<Seq<char>, Transformer>;

    closed spec fn view(&self) -> Map<Seq<char>, Transformer> {
        Map::new(
            |p: Seq<char>| override_in(self.overrides@, p) is Some,
            |p: Seq<char>| override_in(self.overrides@, p)->Some_0,
        )
    }
}

impl InstanceContext {
    /// A context that forces nothing.
    pub fn new() -> (r: InstanceContext)
        ensures
            r@ == Map::<Seq<char>, Transformer>::empty(),
    {
        let r = InstanceContext { overrides: Vec::new() };
        assert(r@ =~= Map::<Seq<char>, Transformer>::empty());
        r
    }

    /// Forces `transformer` on `path`, replacing any earlier override of it.
    pub fn add_transformer_override(&mut self, path: &str, transformer: Transformer)
        ensures
            final(self)@ == old(self)@.insert(path@, transformer),
    {
        self.overrides.push((path.to_owned(), transformer));
        assert(self.overrides@.drop_last() == old(self).overrides@);
        assert(self@ =~= old(self)@.insert(path@, transformer));
    }

    /// The transformer forced on exactly `path`, if any.
    pub fn get_transformer_override(&self, path: &str) -> (r: Option<Transformer>)
        ensures
            r == (if self@.contains_key(path@) {
                Some(self@[path@])
            } else {
                None
            }),
    {
        let mut i: usize = self.overrides.len();
        assert(self.overrides@.subrange(0, i as int) =~= self.overrides@);
        while i > 0
            invariant
                i <= self.overrides@.len(),
                override_in(self.overrides@, path@) == override_in(self.overrides@.subrange(0, i as int), path@),
            decreases i,
        {
            let entry = &self.overrides[i - 1];
            let ghost prefix = self.overrides@.subrange(0, i as int);
            assert(prefix.last() == self.overrides@[i - 1]);
            if str_eq(entry.0.as_str(), path) {
                return Some(entry.1.duplicate());
            }
            assert(prefix.drop_last() =~= self.overrides@.subrange(0, i - 1));
            i = i - 1;
        }
        assert(self.overrides@.subrange(0, 0).len() == 0);
        None
    }
}

} // verus!
