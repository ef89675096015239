use author::error::AuthorError;
use author::manager::{AuthorManager, Directory};
use author::report::Report;
use author::session::{assemble_hint, no_authors_message, run, Command, Outcome, Step};

fn strings(items: &[&str]) -> Vec<String> {
    items.iter().map(|s| s.to_string()).collect()
}

fn manager() -> AuthorManager {
    AuthorManager::new(Directory::GitRepo("/w".to_string()), "/w/author.txt".to_string())
}

fn exit_of(step: Step) -> Outcome {
    match step {
        Step::Exit(outcome) => outcome,
        other => panic!("the run goes on: {:?}", other),
    }
}

#[test]
fn arguments_name_the_command() {
    assert_eq!(Command::parse(strings(&[])), Ok(Command::List));
    assert_eq!(Command::parse(strings(&["add", "a", "b"])), Ok(Command::Add(strings(&["a", "b"]))));
    assert_eq!(Command::parse(strings(&["add"])), Ok(Command::Add(strings(&[]))));
    assert_eq!(Command::parse(strings(&["remove", "a"])), Ok(Command::Remove(strings(&["a"]))));
    assert_eq!(Command::parse(strings(&["remove"])), Ok(Command::Prompt));
    assert_eq!(
        Command::parse(strings(&["list", "x"])),
        Err(AuthorError::UnknownCommand("list".to_string()))
    );
    assert_eq!(Command::parse(strings(&["Add"])), Err(AuthorError::UnknownCommand("Add".to_string())));
}

#[test]
fn unknown_command_ends_the_run_before_the_file_is_read() {
    let outcome = exit_of(run(manager(), strings(&["frob"])));
    assert_eq!(outcome.result, Err(AuthorError::UnknownCommand("frob".to_string())));
    assert!(!outcome.no_authors);
    assert_eq!(outcome.report, Report::default());
}

#[test]
fn add_without_identifiers_fails_and_writes_nothing() {
    let outcome = exit_of(run(manager(), strings(&["add"])));
    assert_eq!(outcome.result, Err(AuthorError::MissingLogins));
    assert_eq!(outcome.report, Report::default());
    assert!(outcome.listing.is_empty());
}

#[test]
fn add_alice_bob_to_an_empty_file() {
    colored::control::set_override(false);
    let loading = match run(manager(), strings(&["add", "alice", "bob"])) {
        Step::Load(loading) => loading,
        other => panic!("expected a read, got {:?}", other),
    };
    let storing = match loading.loaded(Some("")) {
        Step::Store(storing) => storing,
        other => panic!("expected a write, got {:?}", other),
    };
    assert_eq!(storing.text, "alice bob\n");
    let outcome = exit_of(storing.stored());
    assert_eq!(outcome.result, Ok(()));
    assert_eq!(outcome.report.added, strings(&["alice", "bob"]));
    assert_eq!(outcome.render("author"), "++ alice, bob\n");
}

#[test]
fn remove_alice_carol_from_alice_bob() {
    colored::control::set_override(false);
    let loading = match run(manager(), strings(&["remove", "alice", "carol"])) {
        Step::Load(loading) => loading,
        other => panic!("expected a read, got {:?}", other),
    };
    let storing = match loading.loaded(Some("alice bob")) {
        Step::Store(storing) => storing,
        other => panic!("expected a write, got {:?}", other),
    };
    assert_eq!(storing.text, "bob\n");
    let outcome = exit_of(storing.stored());
    assert_eq!(outcome.result, Ok(()));
    assert_eq!(outcome.report.removed, strings(&["alice"]));
    assert_eq!(outcome.report.not_removed, strings(&["carol"]));
    assert_eq!(outcome.render("author"), "-- alice\ndid not remove carol (did not exist)\n");
}

#[test]
fn list_without_a_file_prints_the_hint_and_succeeds() {
    colored::control::set_override(false);
    let loading = match run(manager(), strings(&[])) {
        Step::Load(loading) => loading,
        other => panic!("expected a read, got {:?}", other),
    };
    let outcome = exit_of(loading.loaded(None));
    assert_eq!(outcome.result, Ok(()));
    assert!(outcome.no_authors);
    assert!(outcome.listing.is_empty());
    assert_eq!(
        outcome.render("author"),
        "no authors specified, run author add login to add them\n"
    );
}

#[test]
fn list_prints_each_author_on_a_line() {
    colored::control::set_override(false);
    let loading = match run(manager(), strings(&[])) {
        Step::Load(loading) => loading,
        other => panic!("expected a read, got {:?}", other),
    };
    let outcome = exit_of(loading.loaded(Some("bob\nalice\n")));
    assert_eq!(outcome.result, Ok(()));
    assert!(!outcome.no_authors);
    assert_eq!(outcome.listing, strings(&["alice", "bob"]));
    assert_eq!(outcome.render("author"), "alice\nbob\n");
}

#[test]
fn prompt_with_no_authors_asks_nothing() {
    let loading = match run(manager(), strings(&["remove"])) {
        Step::Load(loading) => loading,
        other => panic!("expected a read, got {:?}", other),
    };
    let outcome = exit_of(loading.loaded(None));
    assert_eq!(outcome.result, Ok(()));
    assert!(!outcome.no_authors);
    assert_eq!(outcome.report, Report::default());
}

#[test]
fn prompt_removes_what_the_operator_chose() {
    let loading = match run(manager(), strings(&["remove"])) {
        Step::Load(loading) => loading,
        other => panic!("expected a read, got {:?}", other),
    };
    let choosing = match loading.loaded(Some("bob alice carol")) {
        Step::Choose(choosing) => choosing,
        other => panic!("expected a choice, got {:?}", other),
    };
    assert_eq!(choosing.options, strings(&["alice", "bob", "carol"]));
    let again = match choosing.chosen(strings(&["bob"])) {
        Step::Load(loading) => loading,
        other => panic!("expected a read, got {:?}", other),
    };
    assert_eq!(again.command, Command::Remove(strings(&["bob"])));
    let storing = match again.loaded(Some("bob alice carol")) {
        Step::Store(storing) => storing,
        other => panic!("expected a write, got {:?}", other),
    };
    assert_eq!(storing.text, "alice carol\n");
    assert_eq!(exit_of(storing.stored()).report.removed, strings(&["bob"]));
}

#[test]
fn empty_choice_changes_nothing() {
    let loading = match run(manager(), strings(&["remove"])) {
        Step::Load(loading) => loading,
        other => panic!("expected a read, got {:?}", other),
    };
    let choosing = match loading.loaded(Some("alice")) {
        Step::Choose(choosing) => choosing,
        other => panic!("expected a choice, got {:?}", other),
    };
    let outcome = exit_of(choosing.chosen(Vec::new()));
    assert_eq!(outcome.result, Ok(()));
    assert_eq!(outcome.report, Report::default());
}

#[test]
fn failures_of_the_caller_end_the_run() {
    let loading = match run(manager(), strings(&[])) {
        Step::Load(loading) => loading,
        other => panic!("expected a read, got {:?}", other),
    };
    let outcome = exit_of(loading.failed(AuthorError::Io("denied".to_string())));
    assert_eq!(outcome.result, Err(AuthorError::Io("denied".to_string())));

    let loading = match run(manager(), strings(&["remove"])) {
        Step::Load(loading) => loading,
        other => panic!("expected a read, got {:?}", other),
    };
    let choosing = match loading.loaded(Some("alice")) {
        Step::Choose(choosing) => choosing,
        other => panic!("expected a choice, got {:?}", other),
    };
    let outcome = exit_of(choosing.failed(AuthorError::Inquire("cancelled".to_string())));
    assert_eq!(outcome.result, Err(AuthorError::Inquire("cancelled".to_string())));
}

#[test]
fn failed_write_still_shows_the_report() {
    let loading = match run(manager(), strings(&["add", "alice"])) {
        Step::Load(loading) => loading,
        other => panic!("expected a read, got {:?}", other),
    };
    let storing = match loading.loaded(None) {
        Step::Store(storing) => storing,
        other => panic!("expected a write, got {:?}", other),
    };
    let outcome = exit_of(storing.failed(AuthorError::Io("full".to_string())));
    assert_eq!(outcome.result, Err(AuthorError::Io("full".to_string())));
    assert_eq!(outcome.report.added, strings(&["alice"]));
}

#[test]
fn hint_names_the_program() {
    colored::control::set_override(false);
    assert_eq!(no_authors_message("prog"), "no authors specified, run prog add login to add them");
    assert_eq!(assemble_hint("a", "b", "c"), "abc");
}
