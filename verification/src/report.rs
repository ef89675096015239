//! What one command changed and what it left alone.

use crate::style::{green, green_code, red, red_code, styled};
use crate::text::{join, joined};
use vstd::prelude::*;

verus! {

/// The identifiers that a command removed, added, found already present and
/// found absent, each list in the order in which they were met.
#[derive(Debug, PartialEq, Eq)]
pub struct Report {
    pub removed: Vec<String>,
    pub added: Vec<String>,
    pub not_added: Vec<String>,
    pub not_removed: Vec<String>,
}

/// A [`Report`] with its identifiers as sequences of characters.
pub struct ReportView {
    pub removed: Seq<Seq<char>>,
    pub added: Seq<Seq<char>>,
    pub not_added: Seq<Seq<char>>,
    pub not_removed: Seq<Seq<char>>,
}

impl View for Report {
    type V = ReportView;

    open spec fn view(&self) -> ReportView {
        ReportView {
            removed: self.removed.deep_view(),
            added: self.added.deep_view(),
            not_added: self.not_added.deep_view(),
            not_removed: self.not_removed.deep_view(),
        }
    }
}

impl ReportView {
    /// The report of a command that has met no identifier yet.
    pub open spec fn empty() -> ReportView {
        ReportView {
            removed: Seq::empty(),
            added: Seq::empty(),
            not_added: Seq::empty(),
            not_removed: Seq::empty(),
        }
    }

    /// Whether the report lists no identifier at all.
    pub open spec fn is_empty(self) -> bool {
        self == ReportView::empty()
    }

    /// This report with `value` recorded as added.
    pub open spec fn added(self, value: Seq<char>) -> ReportView {
        ReportView { added: self.added.push(value), ..self }
    }

    /// This report with `value` recorded as already present.
    pub open spec fn not_added(self, value: Seq<char>) -> ReportView {
        ReportView { not_added: self.not_added.push(value), ..self }
    }

    /// This report with `value` recorded as removed.
    pub open spec fn removed(self, value: Seq<char>) -> ReportView {
        ReportView { removed: self.removed.push(value), ..self }
    }

    /// This report with `value` recorded as absent.
    pub open spec fn not_removed(self, value: Seq<char>) -> ReportView {
        ReportView { not_removed: self.not_removed.push(value), ..self }
    }

    /// The line that names the removed identifiers, before it is coloured.
    pub open spec fn removed_line(self) -> Seq<char> {
        "-- "@ + joined(self.removed, ", "@)
    }

    /// The line that names the added identifiers, before it is coloured.
    pub open spec fn added_line(self) -> Seq<char> {
        "++ "@ + joined(self.added, ", "@)
    }

    /// The line that names the identifiers that were absent.
    pub open spec fn not_removed_line(self) -> Seq<char> {
        "did not remove "@ + joined(self.not_removed, ", "@) + " (did not exist)"@
    }

    /// The line that names the identifiers that were already present.
    pub open spec fn not_added_line(self) -> Seq<char> {
        "did not add "@ + joined(self.not_added, ", "@) + " (already existed)"@
    }

    /// `line` and a line feed where `shown` holds, else nothing.
    pub open spec fn optional_line(shown: bool, line: Seq<char>) -> Seq<char> {
        if shown {
            line + "\n"@
        } else {
            Seq::empty()
        }
    }

    /// The text of the report, given its first two lines as they came back
    /// from colouring: one line for each list that is not empty, in the
    /// order removed, added, absent, already present.
    pub open spec fn layout(self, removed: Seq<char>, added: Seq<char>) -> Seq<char> {
        Self::optional_line(self.removed.len() > 0, removed) + Self::optional_line(
            self.added.len() > 0,
            added,
        ) + Self::optional_line(self.not_removed.len() > 0, self.not_removed_line())
            + Self::optional_line(self.not_added.len() > 0, self.not_added_line())
    }

    /// `out` is a text of the report: its layout with the line of removed
    /// identifiers rendered in red and that of added ones in green.
    pub open spec fn renders(self, out: Seq<char>) -> bool {
        exists|removed: Seq<char>, added: Seq<char>|
            {
                &&& styled(self.removed_line(), red_code(), removed)
                &&& styled(self.added_line(), green_code(), added)
                &&& out == #[trigger] self.layout(removed, added)
            }
    }
}

impl Default for Report {
    fn default() -> (report: Report)
        ensures
            report@ == ReportView::empty(),
    {
        let report = Report {
            removed: Vec::new(),
            added: Vec::new(),
            not_added: Vec::new(),
            not_removed: Vec::new(),
        };
        assert(report@.removed =~= Seq::empty());
        assert(report@.added =~= Seq::empty());
        assert(report@.not_added =~= Seq::empty());
        assert(report@.not_removed =~= Seq::empty());
        report
    }
}

impl Report {
    /// Records `value` as added.
    pub fn added(&mut self, value: String)
        ensures
            final(self)@ == old(self)@.added(value@),
    {
        self.added.push(value);
        assert(self@.added =~= old(self)@.added.push(value@));
    }

    /// Records `value` as already present.
    pub fn not_added(&mut self, value: String)
        ensures
            final(self)@ == old(self)@.not_added(value@),
    {
        self.not_added.push(value);
        assert(self@.not_added =~= old(self)@.not_added.push(value@));
    }

    /// Records `value` as removed.
    pub fn removed(&mut self, value: String)
        ensures
            final(self)@ == old(self)@.removed(value@),
    {
        self.removed.push(value);
        assert(self@.removed =~= old(self)@.removed.push(value@));
    }

    /// Records `value` as absent.
    pub fn not_removed(&mut self, value: String)
        ensures
            final(self)@ == old(self)@.not_removed(value@),
    {
        self.not_removed.push(value);
        assert(self@.not_removed =~= old(self)@.not_removed.push(value@));
    }

    /// The line that names the removed identifiers, before it is coloured.
    pub fn removed_line(&self) -> (line: String)
        ensures
            line@ == self@.removed_line(),
    {
        String::from_str("-- ").concat(join(&self.removed, ", ").as_str())
    }

    /// The line that names the added identifiers, before it is coloured.
    pub fn added_line(&self) -> (line: String)
        ensures
            line@ == self@.added_line(),
    {
        String::from_str("++ ").concat(join(&self.added, ", ").as_str())
    }

    /// Lays the report out, given its first two lines as they came back from
    /// colouring.
    pub fn layout(&self, removed: &str, added: &str) -> (out: String)
        ensures
            out@ == self@.layout(removed@, added@),
    {
        let mut out = String::new();
        if self.removed.len() > 0 {
            out.append(removed);
            out.append("\n");
        }
        if self.added.len() > 0 {
            out.append(added);
            out.append("\n");
        }
        if self.not_removed.len() > 0 {
            out.append("did not remove ");
            out.append(join(&self.not_removed, ", ").as_str());
            out.append(" (did not exist)");
            out.append("\n");
        }
        if self.not_added.len() > 0 {
            out.append("did not add ");
            out.append(join(&self.not_added, ", ").as_str());
            out.append(" (already existed)");
            out.append("\n");
        }
        assert(out@ =~= self@.layout(removed@, added@));
        out
    }

    /// The text of the report for the terminal. An empty report gives the
    /// empty text.
    pub fn render(&self) -> (out: String)
        ensures
            self@.renders(out@),
            self@.is_empty() ==> out@.len() == 0,
    {
        let removed = if self.removed.len() > 0 {
            red(self.removed_line().as_str())
        } else {
            self.removed_line()
        };
        let added = if self.added.len() > 0 {
            green(self.added_line().as_str())
        } else {
            self.added_line()
        };
        self.layout(removed.as_str(), added.as_str())
    }
}

} // verus!
