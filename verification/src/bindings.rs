//! Finite mappings from names to values. The arguments of a selection are one,
//! and so are the variables that a matching pattern captures.

use crate::bytes::same_bytes;
use crate::literal::{Literal, LiteralView};
use vstd::prelude::*;

verus! {

/// A mapping from names to literals. Setting a name again replaces its value.
#[derive(Debug)]
pub struct Bindings {
    entries: Vec<(Vec<u8>, Literal)>,
}

/// The mapping that a list of settings builds, the later ones overriding.
pub open spec fn built(entries: Seq<(Vec<u8>, Literal)>) -> Map<Seq<u8>, LiteralView>
    decreases entries.len(),
{
    if entries.len() == 0 {
        Map::empty()
    } else {
        built(entries.drop_last()).insert(entries.last().0@, entries.last().1@)
    }
}

/// Settings that do not mention `name` leave the mapping at `name` as it was.
proof fn lemma_built_skips(entries: Seq<(Vec<u8>, Literal)>, name: Seq<u8>, i: int)
    requires
        0 <= i <= entries.len(),
        forall|j: int| i <= j < entries.len() ==> entries[j].0@ != name,
    ensures
        built(entries).contains_key(name) == built(entries.take(i)).contains_key(name),
        built(entries).contains_key(name) ==> built(entries)[name] == built(entries.take(i))[name],
    decreases entries.len(),
{
    if i == entries.len() {
        assert(entries.take(i) =~= entries);
    } else {
        let shorter = entries.drop_last();
        lemma_built_skips(shorter, name, i);
        assert(shorter.take(i) =~= entries.take(i));
    }
}

impl View for Bindings {
    type V = Map<Seq<u8>, LiteralView>;

    closed spec fn view(&self) -> Map<Seq<u8>, LiteralView> {
        built(self.entries@)
    }
}

impl Bindings {
    /// The empty mapping.
    pub fn new() -> (r: Bindings)
        ensures
            r@ == Map::<Seq<u8>, LiteralView>::empty(),
    {
        Bindings { entries: Vec::new() }
    }

    /// Maps `name` to `value`, replacing what `name` was mapped to before.
    pub fn set(&mut self, name: Vec<u8>, value: Literal)
        ensures
            final(self)@ == old(self)@.insert(name@, value@),
    {
        self.entries.push((name, value));
        assert(self.entries@.drop_last() =~= old(self).entries@);
    }

    /// The value that `name` is mapped to, if any.
    pub fn get(&self, name: &[u8]) -> (r: Option<&Literal>)
        ensures
            r is Some <==> self@.contains_key(name@),
            r is Some ==> r.unwrap()@ == self@[name@],
    {
        let mut i: usize = self.entries.len();
        while i > 0
            invariant
                i <= self.entries.len(),
                forall|j: int| i <= j < self.entries.len() ==> self.entries@[j].0@ != name@,
            decreases i,
        {
            i -= 1;
            if same_bytes(self.entries[i].0.as_slice(), name) {
                proof {
                    lemma_built_skips(self.entries@, name@, i + 1);
                    assert(self.entries@.take(i + 1).drop_last() =~= self.entries@.take(i as int));
                }
                return Some(&self.entries[i].1);
            }
        }
        proof {
            lemma_built_skips(self.entries@, name@, 0);
        }
        None
    }

    /// Whether `name` is mapped to a value.
    pub fn has(&self, name: &[u8]) -> (r: bool)
        ensures
            r == self@.contains_key(name@),
    {
        self.get(name).is_some()
    }
}

} // verus!
