//! A finite set of names kept as a vector without duplicates, the common
//! representation of the exclusive locks of the library.

use vstd::prelude::*;
use crate::text::owned;

verus! {

/// A set of names.
pub struct NameSet {
    names: Vec<String>,
}

impl NameSet {
    #[verifier::type_invariant]
    spec fn no_duplicates(self) -> bool {
        forall|i: int, j: int|
            0 <= i < j < self.names@.len() ==> self.names@[i]@ != self.names@[j]@
    }

    /// The names in the set.
    pub closed spec fn view(self) -> Set<Seq<char>> {
        Set::new(|s: Seq<char>| exists|i: int| 0 <= i < self.names@.len() && self.names@[i]@ == s)
    }

    pub fn new() -> (r: Self)
        ensures
            r.view() == Set::<Seq<char>>::empty(),
    {
        let r = NameSet { names: Vec::new() };
        assert(r.view() =~= Set::<Seq<char>>::empty());
        r
    }

    fn index_of(&self, name: &str) -> (r: Option<usize>)
        ensures
            r matches Some(i) ==> i < self.names@.len() && self.names@[i as int]@ == name@,
            r is None ==> !self.view().contains(name@),
    {
        let target = owned(name);
        let mut i: usize = 0;
        while i < self.names.len()
            invariant
                i <= self.names@.len(),
                target@ == name@,
                forall|j: int| 0 <= j < i ==> self.names@[j]@ != name@,
            decreases self.names.len() - i,
        {
            if self.names[i] == target {
                return Some(i);
            }
            i = i + 1;
        }
        None
    }

    /// Whether `name` is in the set.
    pub fn contains(&self, name: &str) -> (r: bool)
        ensures
            r == self.view().contains(name@),
    {
        match self.index_of(name) {
            Some(i) => {
                assert(self.view().contains(name@));
                true
            },
            None => false,
        }
    }

    /// Adds `name` when absent; returns whether it was added.
    pub fn insert(&mut self, name: &str) -> (r: bool)
        ensures
            r == !old(self).view().contains(name@),
            final(self).view() == old(self).view().insert(name@),
    {
        proof {
            use_type_invariant(&*self);
        }
        match self.index_of(name) {
            Some(i) => {
                assert(self.view().contains(name@));
                assert(self.view().insert(name@) =~= self.view());
                false
            },
            None => {
                let ghost before = self.view();
                let mut names: Vec<String> = Vec::new();
                std::mem::swap(&mut names, &mut self.names);
                let ghost old_names = names@;
                names.push(owned(name));
                proof {
                    assert forall|i: int, j: int|
                        0 <= i < j < names@.len() implies names@[i]@ != names@[j]@ by {
                        if j == names@.len() - 1 {
                            assert(names@[i] == old_names[i]);
                        }
                    }
                }
                self.names = names;
                assert(self.view() =~= before.insert(name@)) by {
                    assert forall|s: Seq<char>| self.view().contains(s) implies before.insert(
                        name@,
                    ).contains(s) by {
                        let i = choose|i: int|
                            0 <= i < self.names@.len() && self.names@[i]@ == s;
                        if i < old_names.len() {
                            assert(old_names[i]@ == s);
                        }
                    }
                    assert forall|s: Seq<char>| before.insert(name@).contains(s) implies self.view().contains(s) by {
                        if s == name@ {
                            assert(self.names@[old_names.len() as int]@ == s);
                        } else {
                            let i = choose|i: int|
                                0 <= i < old_names.len() && old_names[i]@ == s;
                            assert(self.names@[i]@ == s);
                        }
                    }
                }
                true
            },
        }
    }

    /// Removes `name` when present.
    pub fn remove(&mut self, name: &str)
        ensures
            final(self).view() == old(self).view().remove(name@),
    {
        proof {
            use_type_invariant(&*self);
        }
        match self.index_of(name) {
            Some(i) => {
                let ghost before = self.view();
                let mut names: Vec<String> = Vec::new();
                std::mem::swap(&mut names, &mut self.names);
                let ghost old_names = names@;
                names.remove(i);
                proof {
                    assert forall|a: int, b: int|
                        0 <= a < b < names@.len() implies names@[a]@ != names@[b]@ by {
                        let a0 = if a < i { a } else { a + 1 };
                        let b0 = if b < i { b } else { b + 1 };
                        assert(names@[a] == old_names[a0]);
                        assert(names@[b] == old_names[b0]);
                    }
                }
                self.names = names;
                assert(self.view() =~= before.remove(name@)) by {
                    assert forall|s: Seq<char>| self.view().contains(s) implies before.remove(
                        name@,
                    ).contains(s) by {
                        let k = choose|k: int|
                            0 <= k < self.names@.len() && self.names@[k]@ == s;
                        let k0 = if k < i { k } else { k + 1 };
                        assert(self.names@[k] == old_names[k0]);
                        assert(k0 != i);
                    }
                    assert forall|s: Seq<char>| before.remove(name@).contains(s) implies self.view().contains(s) by {
                        let k0 = choose|k: int| 0 <= k < old_names.len() && old_names[k]@ == s;
                        assert(k0 != i);
                        let k = if k0 < i { k0 } else { k0 - 1 };
                        assert(self.names@[k] == old_names[k0]);
                    }
                }
            },
            None => {
                assert(self.view().remove(name@) =~= self.view());
            },
        }
    }
}

} // verus!
