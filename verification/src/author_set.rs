//! The set of author identifiers: unique, case-sensitive, kept in order.

use crate::order::{
    compare, lemma_insert_sorted, lemma_irreflexive, lemma_remove_sorted, lemma_sorted_distinct,
    lemma_sorted_names, lemma_transitive, precedes, sorted_names, strictly_sorted, Rank,
};
use vstd::prelude::*;

verus! {

/// A set of identifiers, held as a sorted vector without repetitions.
pub struct AuthorSet {
    names: Vec<String>,
}

impl View for AuthorSet {
    type V = Set<Seq<char>>;

    closed spec fn view(&self) -> Set<Seq<char>> {
        self.names.deep_view().to_set()
    }
}

impl AuthorSet {
    #[verifier::type_invariant]
    spec fn ordered(self) -> bool {
        strictly_sorted(self.names.deep_view())
    }

    /// The empty set.
    pub fn new() -> (authors: AuthorSet)
        ensures
            authors@ == Set::<Seq<char>>::empty(),
    {
        let authors = AuthorSet { names: Vec::new() };
        assert(authors.names.deep_view().to_set() =~= Set::<Seq<char>>::empty());
        authors
    }

    /// The number of identifiers in the set.
    pub fn len(&self) -> (n: usize)
        ensures
            self@.finite(),
            n == self@.len(),
    {
        proof {
            use_type_invariant(self);
            lemma_sorted_distinct(self.names.deep_view());
            vstd::seq_lib::seq_to_set_is_finite(self.names.deep_view());
        }
        self.names.len()
    }

    /// Whether the set holds no identifier.
    pub fn is_empty(&self) -> (empty: bool)
        ensures
            empty == (self@ == Set::<Seq<char>>::empty()),
    {
        proof {
            if self.names.len() > 0 {
                let listed = self.names.deep_view();
                assert(listed.to_set().contains(listed[0]));
            } else {
                assert(self.names.deep_view().to_set() =~= Set::<Seq<char>>::empty());
            }
        }
        self.names.len() == 0
    }

    /// The identifiers in order, each once.
    pub fn names(&self) -> (names: &Vec<String>)
        ensures
            names.deep_view() == sorted_names(self@),
            strictly_sorted(names.deep_view()),
            names.deep_view().to_set() == self@,
    {
        proof {
            use_type_invariant(self);
            lemma_sorted_names(self.names.deep_view());
        }
        &self.names
    }

    /// The identifiers in order, each once, as a vector of their own.
    pub fn into_names(self) -> (names: Vec<String>)
        ensures
            names.deep_view() == sorted_names(self@),
            strictly_sorted(names.deep_view()),
            names.deep_view().to_set() == self@,
    {
        proof {
            use_type_invariant(&self);
            lemma_sorted_names(self.names.deep_view());
        }
        self.names
    }

    /// The number of identifiers that stand before `name`, and whether
    /// `name` itself is in the set.
    fn locate(&self, name: &str) -> (at: (usize, bool))
        ensures
            at.0 <= self.names.len(),
            forall|k: int| 0 <= k < at.0 ==> precedes(self.names[k]@, name@),
            at.1 ==> at.0 < self.names.len() && self.names[at.0 as int]@ == name@,
            !at.1 ==> at.0 == self.names.len() || precedes(name@, self.names[at.0 as int]@),
            at.1 == self@.contains(name@),
    {
        proof {
            use_type_invariant(self);
        }
        let ghost listed = self.names.deep_view();
        let mut i: usize = 0;
        while i < self.names.len()
            invariant
                i <= self.names.len(),
                listed == self.names.deep_view(),
                strictly_sorted(listed),
                forall|k: int| 0 <= k < i ==> precedes(self.names[k]@, name@),
            decreases self.names.len() - i,
        {
            match compare(self.names[i].as_str(), name) {
                Rank::Before => {
                    i += 1;
                },
                Rank::Same => {
                    assert(listed[i as int] == name@);
                    assert(listed.contains(name@));
                    return (i, true);
                },
                Rank::After => {
                    proof {
                        assert forall|k: int| 0 <= k < listed.len() implies listed[k] != name@ by {
                            lemma_irreflexive(name@);
                            if k > i {
                                assert(precedes(listed[i as int], listed[k]));
                                lemma_transitive(name@, listed[i as int], listed[k]);
                            } else {
                                assert(listed[k] == self.names[k]@);
                            }
                        }
                    }
                    return (i, false);
                },
            }
        }
        proof {
            assert forall|k: int| 0 <= k < listed.len() implies listed[k] != name@ by {
                lemma_irreflexive(name@);
                assert(listed[k] == self.names[k]@);
            }
        }
        (i, false)
    }

    /// Whether `name` is in the set.
    pub fn contains(&self, name: &str) -> (found: bool)
        ensures
            found == self@.contains(name@),
    {
        self.locate(name).1
    }

    /// Adds `name` to the set. Returns whether it was absent before.
    pub fn insert(&mut self, name: String) -> (fresh: bool)
        ensures
            final(self)@ == old(self)@.insert(name@),
            fresh == !old(self)@.contains(name@),
    {
        proof {
            use_type_invariant(&*self);
        }
        let (i, found) = self.locate(name.as_str());
        let ghost before = self.names.deep_view();
        if found {
            assert(before.to_set().insert(name@) =~= before.to_set());
            return false;
        }
        proof {
            lemma_insert_sorted(before, i as int, name@);
        }
        let mut names: Vec<String> = Vec::new();
        core::mem::swap(&mut self.names, &mut names);
        names.insert(i, name);
        assert(names.deep_view() == before.insert(i as int, name@));
        self.names = names;
        true
    }

    /// Takes `name` out of the set. Returns whether it was present.
    pub fn remove(&mut self, name: &str) -> (present: bool)
        ensures
            final(self)@ == old(self)@.remove(name@),
            present == old(self)@.contains(name@),
    {
        proof {
            use_type_invariant(&*self);
        }
        let (i, found) = self.locate(name);
        let ghost before = self.names.deep_view();
        if !found {
            assert(before.to_set().remove(name@) =~= before.to_set());
            return false;
        }
        proof {
            lemma_remove_sorted(before, i as int);
        }
        let mut names: Vec<String> = Vec::new();
        core::mem::swap(&mut self.names, &mut names);
        names.remove(i);
        assert(names.deep_view() == before.remove(i as int));
        self.names = names;
        true
    }
}

} // verus!
