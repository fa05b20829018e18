//! The materials of a scene, found by name.
//!
//! Triangles share materials: a material is entered once under its name, and
//! every triangle that names it gets the index of that one entry. Names do
//! not repeat, and an entry never moves or changes once it is in.
use vstd::prelude::*;

verus! {

/// The materials of a scene in the order in which they came, each under its
/// name. `M` is whatever the scene keeps for a material.
pub struct Materials<M> {
    entries: Vec<(String, M)>,
}

/// Which material of a mesh file's list a model takes.
#[derive(Clone, Copy, Debug, PartialEq, Eq, Structural)]
pub enum Assigned {
    /// The material at this index of the list.
    Listed(usize),
    /// A default material, which the caller adds to the empty list.
    Default,
}

/// The material of a model that names `material_id` in a list of `listed`
/// materials: the one it names; the first of the list where it names none;
/// a default one where it names none and the list is empty.
pub open spec fn assigned(material_id: Option<usize>, listed: usize) -> Option<Assigned> {
    match material_id {
        Some(id) => if id < listed {
            Some(Assigned::Listed(id))
        } else {
            None
        },
        None => if listed > 0 {
            Some(Assigned::Listed(0))
        } else {
            Some(Assigned::Default)
        },
    }
}

/// Picks the material of a model. It fails only where the model names a
/// material that the list does not have.
pub fn assign_material(material_id: Option<usize>, listed: usize) -> (choice: Option<Assigned>)
    ensures
        choice == assigned(material_id, listed),
{
    match material_id {
        Some(id) => if id < listed {
            Some(Assigned::Listed(id))
        } else {
            None
        },
        None => if listed > 0 {
            Some(Assigned::Listed(0))
        } else {
            Some(Assigned::Default)
        },
    }
}

impl<M> Materials<M> {
    #[verifier::type_invariant]
    spec fn well_formed(self) -> bool {
        forall|i: int, j: int|
            0 <= i < j < self.entries@.len() ==> self.entries@[i].0@ != self.entries@[j].0@
    }

    /// The names, in the order of the entries.
    pub closed spec fn names(self) -> Seq<Seq<char>> {
        Seq::new(self.entries@.len(), |i: int| self.entries@[i].0@)
    }

    /// The materials, in the order of the entries.
    pub closed spec fn items(self) -> Seq<M> {
        Seq::new(self.entries@.len(), |i: int| self.entries@[i].1)
    }

    /// Whether `name` stands among `names`.
    pub open spec fn listed(names: Seq<Seq<char>>, name: Seq<char>) -> bool {
        exists|i: int| 0 <= i < names.len() && names[i] == name
    }

    /// No materials.
    pub fn new() -> (table: Self)
        ensures
            table.names().len() == 0,
            table.items().len() == 0,
    {
        Materials { entries: Vec::new() }
    }

    /// The number of materials.
    pub fn len(&self) -> (count: usize)
        ensures
            count == self.items().len(),
            count == self.names().len(),
    {
        self.entries.len()
    }

    /// The index of the material entered under `name`. There is at most one:
    /// no name stands twice.
    pub fn find(&self, name: &String) -> (found: Option<usize>)
        ensures
            match found {
                Some(i) => i < self.names().len() && forall|k: int|
                    0 <= k < self.names().len() ==> (self.names()[k] == name@ <==> k == i),
                None => forall|k: int| 0 <= k < self.names().len() ==> self.names()[k] != name@,
            },
            found is Some <==> Self::listed(self.names(), name@),
    {
        let mut i: usize = 0;
        while i < self.entries.len()
            invariant
                i <= self.entries@.len(),
                forall|k: int| 0 <= k < i ==> self.entries@[k].0@ != name@,
            decreases self.entries@.len() - i,
        {
            if self.entries[i].0 == *name {
                proof {
                    use_type_invariant(self);
                }
                assert forall|k: int| 0 <= k < self.names().len() implies (self.names()[k]
                    == name@ <==> k == i) by {
                    if k < i {
                        assert(self.entries@[k].0@ != self.entries@[i as int].0@);
                    }
                    if i < k {
                        assert(self.entries@[i as int].0@ != self.entries@[k].0@);
                    }
                }
                assert(self.names()[i as int] == name@);
                return Some(i);
            }
            i += 1;
        }
        None
    }

    /// The material at `index`, if there is one.
    pub fn get(&self, index: usize) -> (item: Option<&M>)
        ensures
            match item {
                Some(m) => index < self.items().len() && *m == self.items()[index as int],
                None => index >= self.items().len(),
            },
    {
        if index < self.entries.len() {
            Some(&self.entries[index].1)
        } else {
            None
        }
    }

    /// Enters `item` under `name` and gives its index. Where the name is
    /// taken, nothing changes: the entry that was there first stays, `item`
    /// is dropped, and the index is that of the old entry.
    pub fn insert(&mut self, name: String, item: M) -> (index: usize)
        ensures
            index < final(self).names().len(),
            final(self).names()[index as int] == name@,
            Self::listed(old(self).names(), name@) ==> {
                &&& final(self).names() == old(self).names()
                &&& final(self).items() == old(self).items()
            },
            !Self::listed(old(self).names(), name@) ==> {
                &&& index == old(self).names().len()
                &&& final(self).names() == old(self).names().push(name@)
                &&& final(self).items() == old(self).items().push(item)
            },
    {
        proof {
            use_type_invariant(&*self);
        }
        match self.find(&name) {
            Some(i) => i,
            None => {
                let ghost names = self.names();
                let ghost items = self.items();
                let ghost before = self.entries@;
                assert forall|k: int| 0 <= k < before.len() implies before[k].0@ != name@ by {
                    assert(names[k] == before[k].0@);
                }
                let mut entries: Vec<(String, M)> = Vec::new();
                std::mem::swap(&mut entries, &mut self.entries);
                let index = entries.len();
                entries.push((name, item));
                assert forall|i: int, j: int| 0 <= i < j < entries@.len() implies entries@[i].0@
                    != entries@[j].0@ by {
                    if j < before.len() {
                        assert(before[i].0@ != before[j].0@);
                    }
                }
                self.entries = entries;
                assert(self.names() =~= names.push(name@));
                assert(self.items() =~= items.push(item));
                index
            },
        }
    }
}

} // verus!
