use vstd::prelude::*;
use crate::assembler::text::{chars_of, same_chars};

verus! {

/// The map that a list of definitions gives: a later definition of a name
/// replaces an earlier one.
pub open spec fn definitions_map(entries: Seq<(Vec<char>, usize)>) -> Map<Seq<char>, usize>
    decreases entries.len(),
{
    if entries.len() == 0 {
        Map::empty()
    } else {
        definitions_map(entries.drop_last()).insert(entries.last().0@, entries.last().1)
    }
}

proof fn lemma_lookup(entries: Seq<(Vec<char>, usize)>, name: Seq<char>, i: int)
    requires
        -1 <= i < entries.len(),
        forall|j: int| i < j < entries.len() ==> (#[trigger] entries[j]).0@ != name,
        i >= 0 ==> entries[i].0@ == name,
    ensures
        i >= 0 ==> definitions_map(entries).contains_key(name) && definitions_map(entries)[name]
            == entries[i].1,
        i < 0 ==> !definitions_map(entries).contains_key(name),
    decreases entries.len(),
{
    if entries.len() > 0 {
        if i < entries.len() - 1 {
            let rest = entries.drop_last();
            assert forall|j: int| i < j < rest.len() implies (#[trigger] rest[j]).0@ != name by {
                assert(rest[j] == entries[j]);
            }
            lemma_lookup(rest, name, i);
            assert(entries.last() == entries[entries.len() - 1]);
        }
    }
}

/// The byte offsets of the labels of a program, by name.
pub struct LabelMap {
    entries: Vec<(Vec<char>, usize)>,
}

impl View for LabelMap {
    type V = Map<Seq<char>, usize>;

    closed spec fn view(&self) -> Map<Seq<char>, usize> {
        definitions_map(self.entries@)
    }
}

impl LabelMap {
    /// A map without labels.
    pub fn new() -> (r: LabelMap)
        ensures
            r@ == Map::<Seq<char>, usize>::empty(),
    {
        LabelMap { entries: Vec::new() }
    }

    /// Defines `name` as `addr`; an earlier definition of the name is replaced.
    pub fn insert(&mut self, name: &str, addr: usize)
        ensures
            final(self)@ == old(self)@.insert(name@, addr),
    {
        self.insert_chars(chars_of(name), addr);
    }

    /// The offset of `name`, if it is defined.
    pub fn get(&self, name: &str) -> (r: Option<usize>)
        ensures
            r == if self@.contains_key(name@) {
                Some(self@[name@])
            } else {
                None::<usize>
            },
    {
        self.get_chars(&chars_of(name))
    }

    /// Defines `name` as `addr`; an earlier definition of the name is replaced.
    pub fn insert_chars(&mut self, name: Vec<char>, addr: usize)
        ensures
            final(self)@ == old(self)@.insert(name@, addr),
    {
        self.entries.push((name, addr));
        assert(self.entries@.drop_last() =~= old(self).entries@);
    }

    /// The offset of `name`, if it is defined.
    pub fn get_chars(&self, name: &Vec<char>) -> (r: Option<usize>)
        ensures
            r == if self@.contains_key(name@) {
                Some(self@[name@])
            } else {
                None::<usize>
            },
    {
        let mut i: usize = self.entries.len();
        while i > 0
            invariant
                i <= self.entries@.len(),
                forall|j: int| i <= j < self.entries@.len() ==> (#[trigger] self.entries@[j]).0@ != name@,
            decreases i,
        {
            i = i - 1;
            if same_chars(&self.entries[i].0, name) {
                proof {
                    lemma_lookup(self.entries@, name@, i as int);
                }
                return Some(self.entries[i].1);
            }
        }
        proof {
            lemma_lookup(self.entries@, name@, -1);
        }
        None
    }
}

} // verus!
