//! One run of the tool as a sequence of steps. The library decides what is
//! to be done next; the caller reads and writes the authors file, asks the
//! operator, prints, and hands back what came of it.

use crate::error::{unit_view, AuthorError, AuthorErrorView};
use crate::manager::{AuthorManager, AuthorManagerView};
use crate::order::{compare, Rank};
use crate::report::{Report, ReportView};
use crate::style::{bold_italic, bold_italic_code, italic, italic_code, styled};
use crate::text::{lines, to_lines};
use vstd::prelude::*;

verus! {

/// What the operator asked for.
#[derive(Debug, PartialEq, Eq)]
pub enum Command {
    /// List the authors.
    List,
    /// Add these identifiers.
    Add(Vec<String>),
    /// Remove these identifiers.
    Remove(Vec<String>),
    /// Let the operator choose what to remove.
    Prompt,
}

/// A [`Command`] with its identifiers as sequences of characters.
pub enum CommandView {
    List,
    Add(Seq<Seq<char>>),
    Remove(Seq<Seq<char>>),
    Prompt,
}

impl View for Command {
    type V = CommandView;

    open spec fn view(&self) -> CommandView {
        match self {
            Command::List => CommandView::List,
            Command::Add(logins) => CommandView::Add(logins.deep_view()),
            Command::Remove(removals) => CommandView::Remove(removals.deep_view()),
            Command::Prompt => CommandView::Prompt,
        }
    }
}

impl CommandView {
    /// The command that the arguments behind the program's name stand for:
    /// none lists; `add` adds what follows; `remove` removes what follows
    /// or, with nothing behind it, lets the operator choose; any other
    /// first argument is an unknown command.
    pub open spec fn parse(args: Seq<Seq<char>>) -> Result<CommandView, AuthorErrorView> {
        if args.len() == 0 {
            Ok(CommandView::List)
        } else if args[0] == "add"@ {
            Ok(CommandView::Add(args.skip(1)))
        } else if args[0] == "remove"@ {
            if args.len() == 1 {
                Ok(CommandView::Prompt)
            } else {
                Ok(CommandView::Remove(args.skip(1)))
            }
        } else {
            Err(AuthorErrorView::UnknownCommand(args[0]))
        }
    }
}

/// A command or the reason why there is none, as sequences of characters.
pub open spec fn command_view(parsed: Result<Command, AuthorError>) -> Result<
    CommandView,
    AuthorErrorView,
> {
    match parsed {
        Ok(command) => Ok(command@),
        Err(error) => Err(error@),
    }
}

/// The authors file is to be read for `command`.
#[derive(Debug, PartialEq, Eq)]
pub struct Loading {
    pub manager: AuthorManager,
    pub command: Command,
}

/// The operator is to choose among `options`.
#[derive(Debug, PartialEq, Eq)]
pub struct Choosing {
    pub manager: AuthorManager,
    pub options: Vec<String>,
}

/// The authors file is to be overwritten with `text`.
#[derive(Debug, PartialEq, Eq)]
pub struct Storing {
    pub manager: AuthorManager,
    pub text: String,
}

/// The end of a run: what is printed and how the run ended.
#[derive(Debug, PartialEq, Eq)]
pub struct Outcome {
    /// The authors to print, one on each line.
    pub listing: Vec<String>,
    /// What the command changed and what it left alone.
    pub report: Report,
    /// Whether the list turned out empty, so that a hint is printed.
    pub no_authors: bool,
    /// Success, or the failure to show to the operator.
    pub result: Result<(), AuthorError>,
}

/// What the caller is to do next.
#[derive(Debug, PartialEq, Eq)]
pub enum Step {
    /// Read the authors file, then call `loaded`, or `failed`.
    Load(Loading),
    /// Let the operator choose, then call `chosen`, or `failed`.
    Choose(Choosing),
    /// Overwrite the authors file, then call `stored`, or `failed`.
    Store(Storing),
    /// Print the outcome and stop.
    Exit(Outcome),
}

/// A [`Loading`] as sequences of characters.
pub struct LoadingView {
    pub manager: AuthorManagerView,
    pub command: CommandView,
}

/// A [`Choosing`] as sequences of characters.
pub struct ChoosingView {
    pub manager: AuthorManagerView,
    pub options: Seq<Seq<char>>,
}

/// A [`Storing`] as sequences of characters.
pub struct StoringView {
    pub manager: AuthorManagerView,
    pub text: Seq<char>,
}

/// An [`Outcome`] as sequences of characters.
pub struct OutcomeView {
    pub listing: Seq<Seq<char>>,
    pub report: ReportView,
    pub no_authors: bool,
    pub result: Result<(), AuthorErrorView>,
}

/// A [`Step`] as sequences of characters.
pub enum StepView {
    Load(LoadingView),
    Choose(ChoosingView),
    Store(StoringView),
    Exit(OutcomeView),
}

impl View for Loading {
    type V = LoadingView;

    open spec fn view(&self) -> LoadingView {
        LoadingView { manager: self.manager@, command: self.command@ }
    }
}

impl View for Choosing {
    type V = ChoosingView;

    open spec fn view(&self) -> ChoosingView {
        ChoosingView { manager: self.manager@, options: self.options.deep_view() }
    }
}

impl View for Storing {
    type V = StoringView;

    open spec fn view(&self) -> StoringView {
        StoringView { manager: self.manager@, text: self.text@ }
    }
}

impl View for Outcome {
    type V = OutcomeView;

    open spec fn view(&self) -> OutcomeView {
        OutcomeView {
            listing: self.listing.deep_view(),
            report: self.report@,
            no_authors: self.no_authors,
            result: unit_view(self.result),
        }
    }
}

impl View for Step {
    type V = StepView;

    open spec fn view(&self) -> StepView {
        match self {
            Step::Load(loading) => StepView::Load(loading@),
            Step::Choose(choosing) => StepView::Choose(choosing@),
            Step::Store(storing) => StepView::Store(storing@),
            Step::Exit(outcome) => StepView::Exit(outcome@),
        }
    }
}

impl OutcomeView {
    /// The end of a run whose command gave `result`. The report is shown
    /// whatever the result; an empty list of authors is no failure but
    /// calls for the hint.
    pub open spec fn finish(
        manager: AuthorManagerView,
        listing: Seq<Seq<char>>,
        result: Result<(), AuthorErrorView>,
    ) -> OutcomeView {
        let no_authors = result == Err::<(), AuthorErrorView>(AuthorErrorView::NoAuthors);
        OutcomeView {
            listing,
            report: manager.report,
            no_authors,
            result: if no_authors {
                Ok(())
            } else {
                result
            },
        }
    }
}

impl StepView {
    /// The first step of a run with the arguments `args` behind the
    /// program's name. An unknown command and `add` without identifiers end
    /// the run at once, before the authors file is touched; every other
    /// command starts by reading it.
    pub open spec fn run(manager: AuthorManagerView, args: Seq<Seq<char>>) -> StepView {
        match CommandView::parse(args) {
            Err(error) => StepView::Exit(OutcomeView::finish(manager, Seq::empty(), Err(error))),
            Ok(CommandView::Add(logins)) if logins.len() == 0 => StepView::Exit(
                OutcomeView::finish(manager, Seq::empty(), Err(AuthorErrorView::MissingLogins)),
            ),
            Ok(command) => StepView::Load(LoadingView { manager, command }),
        }
    }

    /// The end of a run that lists nothing.
    pub open spec fn exit(manager: AuthorManagerView, result: Result<(), AuthorErrorView>) -> StepView {
        StepView::Exit(OutcomeView::finish(manager, Seq::empty(), result))
    }
}

impl LoadingView {
    /// The step after the authors file was read. `contents` is its text, or
    /// `None` where it does not exist.
    pub open spec fn loaded(self, contents: Option<Seq<char>>) -> StepView {
        match self.command {
            CommandView::List => match self.manager.list_authors(contents) {
                Ok(names) => StepView::Exit(OutcomeView::finish(self.manager, names, Ok(()))),
                Err(error) => StepView::exit(self.manager, Err(error)),
            },
            CommandView::Add(logins) => match self.manager.add_authors(contents, logins) {
                Ok(text) => StepView::Store(
                    StoringView { manager: self.manager.after_add(contents, logins), text },
                ),
                Err(error) => StepView::exit(self.manager.after_add(contents, logins), Err(error)),
            },
            CommandView::Remove(removals) => StepView::Store(
                StoringView {
                    manager: self.manager.after_remove(contents, removals),
                    text: self.manager.remove_authors(contents, removals),
                },
            ),
            CommandView::Prompt => match self.manager.prompt_remove(contents) {
                Some(options) => StepView::Choose(ChoosingView { manager: self.manager, options }),
                None => StepView::exit(self.manager, Ok(())),
            },
        }
    }

    /// The step after the authors file could not be read.
    pub open spec fn failed(self, error: AuthorErrorView) -> StepView {
        StepView::exit(self.manager, Err(error))
    }
}

impl ChoosingView {
    /// The step after the operator chose `selections`: with none the run
    /// ends, else the authors file is read anew to remove them.
    pub open spec fn chosen(self, selections: Seq<Seq<char>>) -> StepView {
        if selections.len() == 0 {
            StepView::exit(self.manager, Ok(()))
        } else {
            StepView::Load(
                LoadingView { manager: self.manager, command: CommandView::Remove(selections) },
            )
        }
    }

    /// The step after the operator's choice could not be had.
    pub open spec fn failed(self, error: AuthorErrorView) -> StepView {
        StepView::exit(self.manager, Err(error))
    }
}

impl StoringView {
    /// The step after the authors file was written.
    pub open spec fn stored(self) -> StepView {
        StepView::exit(self.manager, Ok(()))
    }

    /// The step after the authors file could not be written. The report
    /// still says what the command meant to change.
    pub open spec fn failed(self, error: AuthorErrorView) -> StepView {
        StepView::exit(self.manager, Err(error))
    }
}

impl Command {
    /// Reads the command from the arguments behind the program's name.
    pub fn parse(args: Vec<String>) -> (parsed: Result<Command, AuthorError>)
        ensures
            command_view(parsed) == CommandView::parse(args.deep_view()),
    {
        let mut rest = args;
        if rest.len() == 0 {
            return Ok(Command::List);
        }
        let name = rest.remove(0);
        assert(name@ == args.deep_view()[0]);
        assert(rest.deep_view() == args.deep_view().skip(1));
        match compare(name.as_str(), "add") {
            Rank::Same => Ok(Command::Add(rest)),
            _ => match compare(name.as_str(), "remove") {
                Rank::Same => if rest.len() == 0 {
                    Ok(Command::Prompt)
                } else {
                    Ok(Command::Remove(rest))
                },
                _ => Err(AuthorError::UnknownCommand(name)),
            },
        }
    }
}

impl Outcome {
    /// The end of a run whose command gave `result`.
    pub fn finish(manager: AuthorManager, listing: Vec<String>, result: Result<(), AuthorError>) -> (outcome: Outcome)
        ensures
            outcome@ == OutcomeView::finish(manager@, listing.deep_view(), unit_view(result)),
    {
        match result {
            Err(AuthorError::NoAuthors) => Outcome {
                listing,
                report: manager.report,
                no_authors: true,
                result: Ok(()),
            },
            other => Outcome { listing, report: manager.report, no_authors: false, result: other },
        }
    }
}

/// The end of a run that lists nothing.
fn exit(manager: AuthorManager, result: Result<(), AuthorError>) -> (step: Step)
    ensures
        step@ == StepView::exit(manager@, unit_view(result)),
{
    let listing: Vec<String> = Vec::new();
    assert(listing.deep_view() == Seq::<Seq<char>>::empty());
    Step::Exit(Outcome::finish(manager, listing, result))
}

/// Starts a run for the authors file of `manager` with the arguments `args`
/// behind the program's name, and says what is to be done first.
pub fn run(manager: AuthorManager, args: Vec<String>) -> (step: Step)
    ensures
        step@ == StepView::run(manager@, args.deep_view()),
{
    match Command::parse(args) {
        Err(error) => exit(manager, Err(error)),
        Ok(Command::Add(logins)) => {
            if logins.len() == 0 {
                exit(manager, Err(AuthorError::MissingLogins))
            } else {
                Step::Load(Loading { manager, command: Command::Add(logins) })
            }
        },
        Ok(command) => Step::Load(Loading { manager, command }),
    }
}

impl Loading {
    /// Goes on after the authors file was read. `contents` is its text, or
    /// `None` where it does not exist.
    pub fn loaded(self, contents: Option<&str>) -> (step: Step)
        ensures
            step@ == self@.loaded(contents.deep_view()),
    {
        let mut manager = self.manager;
        match self.command {
            Command::List => match manager.list_authors(contents) {
                Ok(names) => Step::Exit(Outcome::finish(manager, names, Ok(()))),
                Err(error) => exit(manager, Err(error)),
            },
            Command::Add(logins) => match manager.add_authors(contents, logins) {
                Ok(text) => Step::Store(Storing { manager, text }),
                Err(error) => exit(manager, Err(error)),
            },
            Command::Remove(removals) => {
                let text = manager.remove_authors(contents, removals);
                Step::Store(Storing { manager, text })
            },
            Command::Prompt => match manager.prompt_remove(contents) {
                Some(options) => Step::Choose(Choosing { manager, options }),
                None => exit(manager, Ok(())),
            },
        }
    }

    /// Goes on after the authors file could not be read.
    pub fn failed(self, error: AuthorError) -> (step: Step)
        ensures
            step@ == self@.failed(error@),
    {
        exit(self.manager, Err(error))
    }
}

impl Choosing {
    /// Goes on after the operator chose `selections`.
    pub fn chosen(self, selections: Vec<String>) -> (step: Step)
        ensures
            step@ == self@.chosen(selections.deep_view()),
    {
        if selections.len() == 0 {
            exit(self.manager, Ok(()))
        } else {
            Step::Load(Loading { manager: self.manager, command: Command::Remove(selections) })
        }
    }

    /// Goes on after the operator's choice could not be had.
    pub fn failed(self, error: AuthorError) -> (step: Step)
        ensures
            step@ == self@.failed(error@),
    {
        exit(self.manager, Err(error))
    }
}

impl Storing {
    /// Goes on after the authors file was written.
    pub fn stored(self) -> (step: Step)
        ensures
            step@ == self@.stored(),
    {
        exit(self.manager, Ok(()))
    }

    /// Goes on after the authors file could not be written.
    pub fn failed(self, error: AuthorError) -> (step: Step)
        ensures
            step@ == self@.failed(error@),
    {
        exit(self.manager, Err(error))
    }
}

/// The command that the hint recommends, before it is styled.
pub open spec fn hint_command(program_name: Seq<char>) -> Seq<char> {
    program_name + " add login"@
}

/// `out` is a text of the hint for an empty list: its three parts one after
/// the other, the first and the last in italics and the command between
/// them in bold italics.
pub open spec fn hints(program_name: Seq<char>, out: Seq<char>) -> bool {
    exists|prefix: Seq<char>, command: Seq<char>, suffix: Seq<char>|
        {
            &&& styled("no authors specified, run "@, italic_code(), prefix)
            &&& styled(hint_command(program_name), bold_italic_code(), command)
            &&& styled(" to add them"@, italic_code(), suffix)
            &&& out == #[trigger] (prefix + command + suffix)
        }
}

/// Puts the three parts of the hint together as they came back from
/// styling.
pub fn assemble_hint(prefix: &str, command: &str, suffix: &str) -> (out: String)
    ensures
        out@ == prefix@ + command@ + suffix@,
{
    String::from_str(prefix).concat(command).concat(suffix)
}

/// The hint for an empty list: it names the program and its `add` command.
pub fn no_authors_message(program_name: &str) -> (out: String)
    ensures
        hints(program_name@, out@),
{
    let prefix = italic("no authors specified, run ");
    let command = bold_italic(String::from_str(program_name).concat(" add login").as_str());
    let suffix = italic(" to add them");
    assemble_hint(prefix.as_str(), command.as_str(), suffix.as_str())
}

impl OutcomeView {
    /// The text of the outcome, given the texts of its report and of the
    /// hint: the authors, the report, and the hint where the list was
    /// empty.
    pub open spec fn layout(self, report: Seq<char>, hint: Seq<char>) -> Seq<char> {
        lines(self.listing) + report + ReportView::optional_line(self.no_authors, hint)
    }

    /// `out` is a text of the outcome for the program called
    /// `program_name`.
    pub open spec fn renders(self, program_name: Seq<char>, out: Seq<char>) -> bool {
        exists|report: Seq<char>, hint: Seq<char>|
            {
                &&& self.report.renders(report)
                &&& hints(program_name, hint)
                &&& out == #[trigger] self.layout(report, hint)
            }
    }
}

impl Outcome {
    /// Lays the outcome out, given the texts of its report and of the hint.
    pub fn layout(&self, report: &str, hint: &str) -> (out: String)
        ensures
            out@ == self@.layout(report@, hint@),
    {
        let mut out = to_lines(&self.listing);
        out.append(report);
        if self.no_authors {
            out.append(hint);
            out.append("\n");
        }
        assert(out@ == self@.layout(report@, hint@));
        out
    }

    /// The text to print at the end of the run.
    pub fn render(&self, program_name: &str) -> (out: String)
        ensures
            self@.renders(program_name@, out@),
    {
        let report = self.report.render();
        let hint = no_authors_message(program_name);
        self.layout(report.as_str(), hint.as_str())
    }
}

/// `add` without an identifier ends the run at once with `MissingLogins`:
/// the authors file is neither read nor written, and the report is as it
/// was.
pub proof fn lemma_add_needs_logins(manager: AuthorManagerView, args: Seq<Seq<char>>)
    requires
        args.len() == 1,
        args[0] == "add"@,
    ensures
        StepView::run(manager, args) == StepView::Exit(
            OutcomeView {
                listing: Seq::empty(),
                report: manager.report,
                no_authors: false,
                result: Err(AuthorErrorView::MissingLogins),
            },
        ),
{
}

} // verus!
