use author::manager::{AuthorManager, Directory};
use author::report::Report;
use author::session::{no_authors_message, Outcome};

#[test]
fn removed_line_is_red_and_added_line_green() {
    colored::control::set_override(true);
    let mut report = Report::default();
    report.removed("alice".to_string());
    report.added("bob".to_string());
    report.added("carol".to_string());
    report.not_removed("dave".to_string());
    report.not_added("erin".to_string());
    assert_eq!(
        report.render(),
        "\u{1b}[31m-- alice\u{1b}[0m\n\u{1b}[32m++ bob, carol\u{1b}[0m\n\
         did not remove dave (did not exist)\ndid not add erin (already existed)\n"
    );
}

#[test]
fn empty_report_renders_as_nothing() {
    colored::control::set_override(true);
    assert_eq!(Report::default().render(), "");
}

#[test]
fn layout_takes_the_lines_as_given() {
    let mut report = Report::default();
    report.removed("a".to_string());
    report.added("b".to_string());
    assert_eq!(report.removed_line(), "-- a");
    assert_eq!(report.added_line(), "++ b");
    assert_eq!(report.layout("R", "G"), "R\nG\n");
    assert_eq!(Report::default().layout("R", "G"), "");
}

#[test]
fn hint_is_italic_with_a_bold_command() {
    colored::control::set_override(true);
    assert_eq!(
        no_authors_message("author"),
        "\u{1b}[3mno authors specified, run \u{1b}[0m\u{1b}[1;3mauthor add login\u{1b}[0m\u{1b}[3m to add them\u{1b}[0m"
    );
}

#[test]
fn outcome_shows_listing_report_and_hint_in_that_order() {
    colored::control::set_override(true);
    let manager = AuthorManager::new(Directory::Bare, "author.txt".to_string());
    let outcome = Outcome::finish(manager, vec!["x".to_string()], Ok(()));
    assert_eq!(outcome.layout("REPORT\n", "HINT"), "x\nREPORT\n");
    let manager = AuthorManager::new(Directory::Bare, "author.txt".to_string());
    let outcome = Outcome::finish(manager, Vec::new(), Err(author::error::AuthorError::NoAuthors));
    assert!(outcome.no_authors);
    assert_eq!(outcome.result, Ok(()));
    assert_eq!(outcome.layout("REPORT\n", "HINT"), "REPORT\nHINT\n");
}
