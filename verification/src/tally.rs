//! What adding and removing identifiers does to the set of authors and to
//! the report, one identifier after the other.

use crate::report::ReportView;
use vstd::prelude::*;

verus! {

/// The set of authors as it stands and the report so far.
pub struct Tally {
    pub authors: Set<Seq<char>>,
    pub report: ReportView,
}

impl Tally {
    /// Adds `login`: an identifier that the set lacks goes into the set and
    /// is reported as added, one that it holds is reported as already
    /// present.
    pub open spec fn add(self, login: Seq<char>) -> Tally {
        if self.authors.contains(login) {
            Tally { authors: self.authors, report: self.report.not_added(login) }
        } else {
            Tally { authors: self.authors.insert(login), report: self.report.added(login) }
        }
    }

    /// Removes `login`: an identifier that the set holds leaves the set and
    /// is reported as removed, one that it lacks is reported as absent.
    pub open spec fn remove(self, login: Seq<char>) -> Tally {
        if self.authors.contains(login) {
            Tally { authors: self.authors.remove(login), report: self.report.removed(login) }
        } else {
            Tally { authors: self.authors, report: self.report.not_removed(login) }
        }
    }

    /// Adds the identifiers of `logins` from first to last.
    pub open spec fn add_all(self, logins: Seq<Seq<char>>) -> Tally {
        logins.fold_left(self, |tally: Tally, login: Seq<char>| tally.add(login))
    }

    /// Removes the identifiers of `logins` from first to last.
    pub open spec fn remove_all(self, logins: Seq<Seq<char>>) -> Tally {
        logins.fold_left(self, |tally: Tally, login: Seq<char>| tally.remove(login))
    }

    /// Adding one identifier more is adding the others and then that one.
    pub proof fn lemma_add_all_push(self, logins: Seq<Seq<char>>, login: Seq<char>)
        ensures
            self.add_all(logins.push(login)) == self.add_all(logins).add(login),
    {
        assert(logins.push(login).drop_last() == logins);
    }

    /// Removing one identifier more is removing the others and then that
    /// one.
    pub proof fn lemma_remove_all_push(self, logins: Seq<Seq<char>>, login: Seq<char>)
        ensures
            self.remove_all(logins.push(login)) == self.remove_all(logins).remove(login),
    {
        assert(logins.push(login).drop_last() == logins);
    }

    /// After adding, the set holds what it held and every identifier that
    /// was asked for; each of these is reported once, as added or as already
    /// present, and the lists of removals are as they were.
    pub proof fn lemma_add_all(self, logins: Seq<Seq<char>>)
        ensures
            self.add_all(logins).authors == self.authors.union(logins.to_set()),
            self.add_all(logins).report.added.len() + self.add_all(logins).report.not_added.len()
                == self.report.added.len() + self.report.not_added.len() + logins.len(),
            self.add_all(logins).report.removed == self.report.removed,
            self.add_all(logins).report.not_removed == self.report.not_removed,
        decreases logins.len(),
    {
        if logins.len() == 0 {
            assert(self.authors.union(logins.to_set()) == self.authors);
        } else {
            let before = logins.drop_last();
            self.lemma_add_all(before);
            assert(logins == before.push(logins.last()));
            self.lemma_add_all_push(before, logins.last());
            before.lemma_push_to_set_commute(logins.last());
            assert(self.authors.union(before.to_set()).insert(logins.last()) == self.authors.union(
                before.to_set().insert(logins.last()),
            ));
        }
    }

    /// After removing, the set holds what it held but for the identifiers
    /// that were asked for; each of these is reported once, as removed or as
    /// absent, and the lists of additions are as they were.
    pub proof fn lemma_remove_all(self, logins: Seq<Seq<char>>)
        ensures
            self.remove_all(logins).authors == self.authors.difference(logins.to_set()),
            self.remove_all(logins).report.removed.len() + self.remove_all(
                logins,
            ).report.not_removed.len() == self.report.removed.len() + self.report.not_removed.len()
                + logins.len(),
            self.remove_all(logins).report.added == self.report.added,
            self.remove_all(logins).report.not_added == self.report.not_added,
        decreases logins.len(),
    {
        if logins.len() == 0 {
            assert(self.authors.difference(logins.to_set()) == self.authors);
        } else {
            let before = logins.drop_last();
            self.lemma_remove_all(before);
            assert(logins == before.push(logins.last()));
            self.lemma_remove_all_push(before, logins.last());
            before.lemma_push_to_set_commute(logins.last());
            assert(self.authors.difference(before.to_set()).remove(logins.last())
                == self.authors.difference(before.to_set().insert(logins.last())));
        }
    }

    /// Adding an identifier that the set holds leaves the set as it is and
    /// reports the identifier as already present.
    pub proof fn lemma_add_present(self, login: Seq<char>)
        requires
            self.authors.contains(login),
        ensures
            self.add_all(seq![login]).authors == self.authors,
            self.add_all(seq![login]).report == self.report.not_added(login),
    {
        self.lemma_add_all_push(Seq::empty(), login);
        assert(seq![login] == Seq::<Seq<char>>::empty().push(login));
    }

    /// Removing an identifier that the set lacks leaves the set as it is and
    /// reports the identifier as absent.
    pub proof fn lemma_remove_absent(self, login: Seq<char>)
        requires
            !self.authors.contains(login),
        ensures
            self.remove_all(seq![login]).authors == self.authors,
            self.remove_all(seq![login]).report == self.report.not_removed(login),
    {
        self.lemma_remove_all_push(Seq::empty(), login);
        assert(seq![login] == Seq::<Seq<char>>::empty().push(login));
    }

    /// Adding the same identifiers a second time changes the set no more and
    /// reports each of them as already present.
    pub proof fn lemma_add_twice(self, logins: Seq<Seq<char>>)
        ensures
            self.add_all(logins).add_all(logins).authors == self.add_all(logins).authors,
            self.add_all(logins).add_all(logins).report.added == self.add_all(logins).report.added,
            self.add_all(logins).add_all(logins).report.not_added == self.add_all(
                logins,
            ).report.not_added + logins,
    {
        let once = self.add_all(logins);
        self.lemma_add_all(logins);
        once.lemma_add_held(logins);
    }

    /// Adding identifiers that the set holds one and all leaves the set as
    /// it is and reports each of them as already present.
    pub proof fn lemma_add_held(self, logins: Seq<Seq<char>>)
        requires
            forall|i: int| 0 <= i < logins.len() ==> self.authors.contains(logins[i]),
        ensures
            self.add_all(logins).authors == self.authors,
            self.add_all(logins).report.added == self.report.added,
            self.add_all(logins).report.not_added == self.report.not_added + logins,
            self.add_all(logins).report.removed == self.report.removed,
            self.add_all(logins).report.not_removed == self.report.not_removed,
        decreases logins.len(),
    {
        if logins.len() == 0 {
            assert(self.report.not_added + logins == self.report.not_added);
        } else {
            let before = logins.drop_last();
            self.lemma_add_held(before);
            assert(logins == before.push(logins.last()));
            self.lemma_add_all_push(before, logins.last());
            assert((self.report.not_added + before).push(logins.last()) == self.report.not_added
                + logins);
        }
    }
}

} // verus!
