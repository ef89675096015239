//! The authors file of a project: where it lies, and the commands that list
//! its identifiers, add to them and remove from them.

use crate::error::{text_view, AuthorError, AuthorErrorView};
use crate::order::sorted_names;
use crate::report::{Report, ReportView};
use crate::store::{
    file_authors, file_text, is_identifier, lemma_write_then_read, read_authors, write_authors,
};
use crate::tally::Tally;
use vstd::prelude::*;

verus! {

/// The kind of place in which the authors file was found.
#[derive(Debug, PartialEq, Eq)]
pub enum Directory {
    /// A directory under version control; the path is that of its root.
    GitRepo(String),
    /// A directory that is not under version control and holds an authors
    /// file already.
    Bare,
}

/// A [`Directory`] with its path as a sequence of characters.
pub enum DirectoryView {
    GitRepo(Seq<char>),
    Bare,
}

impl View for Directory {
    type V = DirectoryView;

    open spec fn view(&self) -> DirectoryView {
        match self {
            Directory::GitRepo(root) => DirectoryView::GitRepo(root@),
            Directory::Bare => DirectoryView::Bare,
        }
    }
}

/// One directory on the way from the working directory up to the root of
/// the filesystem, with what was found in it.
#[derive(Debug, PartialEq, Eq)]
pub struct Ancestor {
    /// The path of the directory.
    pub dir: String,
    /// The path that the authors file has in this directory.
    pub file: String,
    /// Whether the directory holds the marker of a repository.
    pub has_marker: bool,
    /// Whether the authors file exists in the directory.
    pub has_file: bool,
}

/// An [`Ancestor`] with its paths as sequences of characters.
pub struct AncestorView {
    pub dir: Seq<char>,
    pub file: Seq<char>,
    pub has_marker: bool,
    pub has_file: bool,
}

impl View for Ancestor {
    type V = AncestorView;

    open spec fn view(&self) -> AncestorView {
        AncestorView {
            dir: self.dir@,
            file: self.file@,
            has_marker: self.has_marker,
            has_file: self.has_file,
        }
    }
}

impl DeepView for Ancestor {
    type V = AncestorView;

    open spec fn deep_view(&self) -> AncestorView {
        self@
    }
}

impl AncestorView {
    /// Whether the search stops at this directory.
    pub open spec fn qualifies(self) -> bool {
        self.has_marker || self.has_file
    }

    /// The manager for the authors file of this directory. The marker of a
    /// repository counts before an authors file.
    pub open spec fn manager(self) -> AuthorManagerView {
        AuthorManagerView {
            directory: if self.has_marker {
                DirectoryView::GitRepo(self.dir)
            } else {
                DirectoryView::Bare
            },
            file: self.file,
            report: ReportView::empty(),
        }
    }
}

/// `at` is the index of the first directory at which the search stops.
pub open spec fn is_nearest(ancestors: Seq<AncestorView>, at: int) -> bool {
    &&& 0 <= at < ancestors.len()
    &&& ancestors[at].qualifies()
    &&& forall|i: int| 0 <= i < at ==> !ancestors[i].qualifies()
}

/// The search stops at none of the directories.
pub open spec fn none_qualifies(ancestors: Seq<AncestorView>) -> bool {
    forall|i: int| 0 <= i < ancestors.len() ==> !ancestors[i].qualifies()
}

/// The authors file of a project and the report of the command at work.
#[derive(Debug, PartialEq, Eq)]
pub struct AuthorManager {
    pub directory: Directory,
    pub file: String,
    pub report: Report,
}

/// An [`AuthorManager`] with its texts as sequences of characters.
pub struct AuthorManagerView {
    pub directory: DirectoryView,
    pub file: Seq<char>,
    pub report: ReportView,
}

impl View for AuthorManager {
    type V = AuthorManagerView;

    open spec fn view(&self) -> AuthorManagerView {
        AuthorManagerView { directory: self.directory@, file: self.file@, report: self.report@ }
    }
}

impl AuthorManagerView {
    /// The line that says where the manager works.
    pub open spec fn describe(self) -> Seq<char> {
        match self.directory {
            DirectoryView::GitRepo(root) => "in git repo "@ + root,
            DirectoryView::Bare => "not in a repo, on lone "@ + self.file + " file"@,
        }
    }

    /// The authors that the file holds and the report so far.
    pub open spec fn tally(self, contents: Option<Seq<char>>) -> Tally {
        Tally { authors: file_authors(contents), report: self.report }
    }

    /// This manager with another report.
    pub open spec fn with_report(self, report: ReportView) -> AuthorManagerView {
        AuthorManagerView { report, ..self }
    }

    /// The identifiers of the file in order, or `NoAuthors` where it holds
    /// none.
    pub open spec fn list_authors(self, contents: Option<Seq<char>>) -> Result<
        Seq<Seq<char>>,
        AuthorErrorView,
    > {
        if file_authors(contents) == Set::<Seq<char>>::empty() {
            Err(AuthorErrorView::NoAuthors)
        } else {
            Ok(sorted_names(file_authors(contents)))
        }
    }

    /// The manager after `logins` were added to the authors of the file.
    /// Without a login nothing is done.
    pub open spec fn after_add(
        self,
        contents: Option<Seq<char>>,
        logins: Seq<Seq<char>>,
    ) -> AuthorManagerView {
        if logins.len() == 0 {
            self
        } else {
            self.with_report(self.tally(contents).add_all(logins).report)
        }
    }

    /// The text to write after `logins` were added to the authors of the
    /// file, or `MissingLogins` where there is no login.
    pub open spec fn add_authors(self, contents: Option<Seq<char>>, logins: Seq<Seq<char>>) -> Result<
        Seq<char>,
        AuthorErrorView,
    > {
        if logins.len() == 0 {
            Err(AuthorErrorView::MissingLogins)
        } else {
            Ok(file_text(sorted_names(self.tally(contents).add_all(logins).authors)))
        }
    }

    /// The manager after `removals` were taken from the authors of the file.
    pub open spec fn after_remove(
        self,
        contents: Option<Seq<char>>,
        removals: Seq<Seq<char>>,
    ) -> AuthorManagerView {
        self.with_report(self.tally(contents).remove_all(removals).report)
    }

    /// The text to write after `removals` were taken from the authors of the
    /// file.
    pub open spec fn remove_authors(
        self,
        contents: Option<Seq<char>>,
        removals: Seq<Seq<char>>,
    ) -> Seq<char> {
        file_text(sorted_names(self.tally(contents).remove_all(removals).authors))
    }

    /// The identifiers among which the operator chooses what to remove: all
    /// that the file holds, in order. `None` where it holds none, and
    /// nothing is asked.
    pub open spec fn prompt_remove(self, contents: Option<Seq<char>>) -> Option<Seq<Seq<char>>> {
        if file_authors(contents) == Set::<Seq<char>>::empty() {
            None
        } else {
            Some(sorted_names(file_authors(contents)))
        }
    }
}

impl AuthorManager {
    /// A manager for the authors file at `file`, with an empty report.
    pub fn new(directory: Directory, file: String) -> (manager: AuthorManager)
        ensures
            manager@ == (AuthorManagerView {
                directory: directory@,
                file: file@,
                report: ReportView::empty(),
            }),
    {
        AuthorManager { directory, file, report: Report::default() }
    }

    /// The index of the nearest directory that holds the marker of a
    /// repository or an authors file. `ancestors` starts with the working
    /// directory and ends with the root of the filesystem.
    pub fn nearest(ancestors: &Vec<Ancestor>) -> (found: Option<usize>)
        ensures
            match found {
                Some(at) => is_nearest(ancestors.deep_view(), at as int),
                None => none_qualifies(ancestors.deep_view()),
            },
    {
        let mut i: usize = 0;
        while i < ancestors.len()
            invariant
                i <= ancestors.len(),
                forall|k: int| 0 <= k < i ==> !ancestors.deep_view()[k].qualifies(),
            decreases ancestors.len() - i,
        {
            if ancestors[i].has_marker || ancestors[i].has_file {
                return Some(i);
            }
            i += 1;
        }
        None
    }

    /// Finds the authors file: that of the nearest directory that holds the
    /// marker of a repository or, failing that, an authors file already.
    /// `ancestors` starts with the working directory and ends with the root
    /// of the filesystem. Where no directory qualifies, the working
    /// directory is not inside a repository.
    pub fn find_author_file(ancestors: &Vec<Ancestor>) -> (found: Result<AuthorManager, AuthorError>)
        ensures
            match found {
                Ok(manager) => exists|at: int| #[trigger]
                    is_nearest(ancestors.deep_view(), at) && manager@
                        == ancestors.deep_view()[at].manager(),
                Err(error) => error@ == AuthorErrorView::NotInRepo && none_qualifies(
                    ancestors.deep_view(),
                ),
            },
    {
        match Self::nearest(ancestors) {
            None => Err(AuthorError::NotInRepo),
            Some(at) => {
                let place = &ancestors[at];
                let directory = if place.has_marker {
                    Directory::GitRepo(place.dir.clone())
                } else {
                    Directory::Bare
                };
                let manager = Self::new(directory, place.file.clone());
                assert(is_nearest(ancestors.deep_view(), at as int));
                Ok(manager)
            },
        }
    }

    /// The line that says where the manager works.
    pub fn describe(&self) -> (line: String)
        ensures
            line@ == self@.describe(),
    {
        match &self.directory {
            Directory::GitRepo(root) => String::from_str("in git repo ").concat(root.as_str()),
            Directory::Bare => {
                String::from_str("not in a repo, on lone ").concat(self.file.as_str()).concat(" file")
            },
        }
    }

    /// The identifiers of the file in order, each once. Fails with
    /// `NoAuthors` where the file holds none or does not exist.
    pub fn list_authors(&self, contents: Option<&str>) -> (listed: Result<Vec<String>, AuthorError>)
        ensures
            match listed {
                Ok(names) => self@.list_authors(contents.deep_view()) == Ok::<
                    Seq<Seq<char>>,
                    AuthorErrorView,
                >(names.deep_view()),
                Err(error) => self@.list_authors(contents.deep_view()) == Err::<
                    Seq<Seq<char>>,
                    AuthorErrorView,
                >(error@),
            },
    {
        let authors = read_authors(contents);
        if authors.is_empty() {
            return Err(AuthorError::NoAuthors);
        }
        Ok(authors.into_names())
    }

    /// Adds `logins` to the authors of the file and records in the report
    /// which of them were added and which were there already. Returns the
    /// text to write to the file. Fails with `MissingLogins`, and records
    /// nothing, where `logins` is empty.
    pub fn add_authors(&mut self, contents: Option<&str>, logins: Vec<String>) -> (written: Result<
        String,
        AuthorError,
    >)
        ensures
            final(self)@ == old(self)@.after_add(contents.deep_view(), logins.deep_view()),
            text_view(written) == old(self)@.add_authors(contents.deep_view(), logins.deep_view()),
    {
        if logins.len() == 0 {
            return Err(AuthorError::MissingLogins);
        }
        let mut authors = read_authors(contents);
        let ghost start = self@.tally(contents.deep_view());
        let ghost all = logins.deep_view();
        let mut i: usize = 0;
        assert(all.take(0) == Seq::<Seq<char>>::empty());
        while i < logins.len()
            invariant
                i <= logins.len(),
                all == logins.deep_view(),
                self.directory == old(self).directory,
                self.file == old(self).file,
                (Tally { authors: authors@, report: self.report@ }) == start.add_all(
                    all.take(i as int),
                ),
            decreases logins.len() - i,
        {
            proof {
                assert(all.take(i + 1) == all.take(i as int).push(all[i as int]));
                start.lemma_add_all_push(all.take(i as int), all[i as int]);
            }
            let ghost before = Tally { authors: authors@, report: self.report@ };
            assert(all[i as int] == logins[i as int]@);
            if authors.insert(logins[i].clone()) {
                self.report.added(logins[i].clone());
            } else {
                self.report.not_added(logins[i].clone());
            }
            assert(authors@ == before.add(all[i as int]).authors);
            assert(self.report@ == before.add(all[i as int]).report);
            i += 1;
        }
        assert(all.take(i as int) == all);
        Ok(write_authors(&authors))
    }

    /// Takes `removals` from the authors of the file and records in the
    /// report which of them were removed and which were not there. Returns
    /// the text to write to the file.
    pub fn remove_authors(&mut self, contents: Option<&str>, removals: Vec<String>) -> (written: String)
        ensures
            final(self)@ == old(self)@.after_remove(contents.deep_view(), removals.deep_view()),
            written@ == old(self)@.remove_authors(contents.deep_view(), removals.deep_view()),
    {
        let mut authors = read_authors(contents);
        let ghost start = self@.tally(contents.deep_view());
        let ghost all = removals.deep_view();
        let mut i: usize = 0;
        assert(all.take(0) == Seq::<Seq<char>>::empty());
        while i < removals.len()
            invariant
                i <= removals.len(),
                all == removals.deep_view(),
                self.directory == old(self).directory,
                self.file == old(self).file,
                (Tally { authors: authors@, report: self.report@ }) == start.remove_all(
                    all.take(i as int),
                ),
            decreases removals.len() - i,
        {
            proof {
                assert(all.take(i + 1) == all.take(i as int).push(all[i as int]));
                start.lemma_remove_all_push(all.take(i as int), all[i as int]);
            }
            let ghost before = Tally { authors: authors@, report: self.report@ };
            assert(all[i as int] == removals[i as int]@);
            if authors.remove(removals[i].as_str()) {
                self.report.removed(removals[i].clone());
            } else {
                self.report.not_removed(removals[i].clone());
            }
            assert(authors@ == before.remove(all[i as int]).authors);
            assert(self.report@ == before.remove(all[i as int]).report);
            i += 1;
        }
        assert(all.take(i as int) == all);
        write_authors(&authors)
    }

    /// The identifiers among which the operator chooses what to remove: all
    /// that the file holds, in order. `None` where it holds none, and
    /// nothing is to be asked.
    pub fn prompt_remove(&self, contents: Option<&str>) -> (options: Option<Vec<String>>)
        ensures
            options.deep_view() == self@.prompt_remove(contents.deep_view()),
    {
        let authors = read_authors(contents);
        if authors.is_empty() {
            return None;
        }
        Some(authors.into_names())
    }
}

/// Adding an identifier that the file holds reports it as already present
/// and gives the text of the authors that the file held.
pub proof fn lemma_add_present(
    manager: AuthorManagerView,
    contents: Option<Seq<char>>,
    login: Seq<char>,
)
    requires
        file_authors(contents).contains(login),
    ensures
        manager.after_add(contents, seq![login]) == manager.with_report(
            manager.report.not_added(login),
        ),
        manager.add_authors(contents, seq![login]) == Ok::<Seq<char>, AuthorErrorView>(
            file_text(sorted_names(file_authors(contents))),
        ),
{
    manager.tally(contents).lemma_add_present(login);
}

/// Removing an identifier that the file lacks reports it as absent and
/// gives the text of the authors that the file held.
pub proof fn lemma_remove_absent(
    manager: AuthorManagerView,
    contents: Option<Seq<char>>,
    login: Seq<char>,
)
    requires
        !file_authors(contents).contains(login),
    ensures
        manager.after_remove(contents, seq![login]) == manager.with_report(
            manager.report.not_removed(login),
        ),
        manager.remove_authors(contents, seq![login]) == file_text(
            sorted_names(file_authors(contents)),
        ),
{
    manager.tally(contents).lemma_remove_absent(login);
}

/// On a file that holds what was written for a set of identifiers, adding
/// one of them writes the file's own text again: nothing changes on disk.
pub proof fn lemma_add_present_keeps_file(
    manager: AuthorManagerView,
    authors: Set<Seq<char>>,
    login: Seq<char>,
)
    requires
        authors.finite(),
        forall|name: Seq<char>| authors.contains(name) ==> is_identifier(name),
        authors.contains(login),
    ensures
        manager.add_authors(Some(file_text(sorted_names(authors))), seq![login]) == Ok::<
            Seq<char>,
            AuthorErrorView,
        >(file_text(sorted_names(authors))),
{
    lemma_write_then_read(authors);
    lemma_add_present(manager, Some(file_text(sorted_names(authors))), login);
}

/// On a file that holds what was written for a set of identifiers, removing
/// an identifier that is not among them writes the file's own text again:
/// nothing changes on disk.
pub proof fn lemma_remove_absent_keeps_file(
    manager: AuthorManagerView,
    authors: Set<Seq<char>>,
    login: Seq<char>,
)
    requires
        authors.finite(),
        forall|name: Seq<char>| authors.contains(name) ==> is_identifier(name),
        !authors.contains(login),
    ensures
        manager.remove_authors(Some(file_text(sorted_names(authors))), seq![login]) == file_text(
            sorted_names(authors),
        ),
{
    lemma_write_then_read(authors);
    lemma_remove_absent(manager, Some(file_text(sorted_names(authors))), login);
}

} // verus!
