use author::error::AuthorError;
use author::manager::{Ancestor, AuthorManager, Directory};
use author::report::Report;

fn strings(items: &[&str]) -> Vec<String> {
    items.iter().map(|s| s.to_string()).collect()
}

fn ancestor(dir: &str, has_marker: bool, has_file: bool) -> Ancestor {
    Ancestor {
        dir: dir.to_string(),
        file: format!("{}/author.txt", dir),
        has_marker,
        has_file,
    }
}

fn manager() -> AuthorManager {
    AuthorManager::new(Directory::Bare, "author.txt".to_string())
}

#[test]
fn new_manager_has_an_empty_report() {
    let m = AuthorManager::new(Directory::GitRepo("/w".to_string()), "/w/author.txt".to_string());
    assert_eq!(m.directory, Directory::GitRepo("/w".to_string()));
    assert_eq!(m.file, "/w/author.txt");
    assert_eq!(m.report, Report::default());
    assert!(m.report.added.is_empty() && m.report.removed.is_empty());
    assert!(m.report.not_added.is_empty() && m.report.not_removed.is_empty());
}

#[test]
fn report_records_in_order() {
    let mut report = Report::default();
    report.added("b".to_string());
    report.added("a".to_string());
    report.not_added("c".to_string());
    report.removed("d".to_string());
    report.not_removed("e".to_string());
    assert_eq!(report.added, strings(&["b", "a"]));
    assert_eq!(report.not_added, strings(&["c"]));
    assert_eq!(report.removed, strings(&["d"]));
    assert_eq!(report.not_removed, strings(&["e"]));
}

#[test]
fn search_stops_at_the_nearest_repository() {
    let ancestors = vec![
        ancestor("/w/p/src", false, false),
        ancestor("/w/p", true, false),
        ancestor("/w", true, true),
        ancestor("/", false, false),
    ];
    assert_eq!(AuthorManager::nearest(&ancestors), Some(1));
    let m = AuthorManager::find_author_file(&ancestors).unwrap();
    assert_eq!(m.directory, Directory::GitRepo("/w/p".to_string()));
    assert_eq!(m.file, "/w/p/author.txt");
}

#[test]
fn marker_counts_before_an_existing_file() {
    let ancestors = vec![ancestor("/w", true, true)];
    let m = AuthorManager::find_author_file(&ancestors).unwrap();
    assert_eq!(m.directory, Directory::GitRepo("/w".to_string()));
}

#[test]
fn lone_file_is_found_without_a_repository() {
    let ancestors = vec![
        ancestor("/w/p", false, true),
        ancestor("/w", true, false),
        ancestor("/", false, false),
    ];
    let m = AuthorManager::find_author_file(&ancestors).unwrap();
    assert_eq!(m.directory, Directory::Bare);
    assert_eq!(m.file, "/w/p/author.txt");
}

#[test]
fn no_marker_and_no_file_up_to_the_root_is_not_in_repo() {
    let ancestors = vec![
        ancestor("/w/p", false, false),
        ancestor("/w", false, false),
        ancestor("/", false, false),
    ];
    assert_eq!(AuthorManager::nearest(&ancestors), None);
    assert_eq!(AuthorManager::find_author_file(&ancestors), Err(AuthorError::NotInRepo));
    assert_eq!(AuthorManager::find_author_file(&Vec::new()), Err(AuthorError::NotInRepo));
}

#[test]
fn describe_names_the_place() {
    let repo = AuthorManager::new(Directory::GitRepo("/w/p".to_string()), "/w/p/author.txt".to_string());
    assert_eq!(repo.describe(), "in git repo /w/p");
    let bare = AuthorManager::new(Directory::Bare, "/w/author.txt".to_string());
    assert_eq!(bare.describe(), "not in a repo, on lone /w/author.txt file");
}

#[test]
fn list_of_nothing_is_no_authors() {
    assert_eq!(manager().list_authors(None), Err(AuthorError::NoAuthors));
    assert_eq!(manager().list_authors(Some(" \n")), Err(AuthorError::NoAuthors));
}

#[test]
fn list_is_sorted_and_unique() {
    assert_eq!(manager().list_authors(Some("bob alice bob")), Ok(strings(&["alice", "bob"])));
}

#[test]
fn add_to_an_empty_file() {
    let mut m = manager();
    let text = m.add_authors(Some(""), strings(&["alice", "bob"])).unwrap();
    assert_eq!(text, "alice bob\n");
    assert_eq!(m.report.added, strings(&["alice", "bob"]));
    assert!(m.report.not_added.is_empty());
}

#[test]
fn add_sorts_what_it_writes() {
    let mut m = manager();
    let text = m.add_authors(None, strings(&["bob", "alice"])).unwrap();
    assert_eq!(text, "alice bob\n");
    assert_eq!(m.report.added, strings(&["bob", "alice"]));
}

#[test]
fn add_of_a_present_identifier_changes_nothing() {
    let mut m = manager();
    let text = m.add_authors(Some("alice bob\n"), strings(&["alice"])).unwrap();
    assert_eq!(text, "alice bob\n");
    assert!(m.report.added.is_empty());
    assert_eq!(m.report.not_added, strings(&["alice"]));
}

#[test]
fn add_of_the_same_identifier_twice_reports_both() {
    let mut m = manager();
    let text = m.add_authors(None, strings(&["alice", "alice"])).unwrap();
    assert_eq!(text, "alice\n");
    assert_eq!(m.report.added, strings(&["alice"]));
    assert_eq!(m.report.not_added, strings(&["alice"]));
}

#[test]
fn add_without_logins_is_missing_logins() {
    let mut m = manager();
    assert_eq!(m.add_authors(Some("alice"), Vec::new()), Err(AuthorError::MissingLogins));
    assert_eq!(m.report, Report::default());
}

#[test]
fn remove_present_and_absent() {
    let mut m = manager();
    let text = m.remove_authors(Some("alice bob"), strings(&["alice", "carol"]));
    assert_eq!(text, "bob\n");
    assert_eq!(m.report.removed, strings(&["alice"]));
    assert_eq!(m.report.not_removed, strings(&["carol"]));
}

#[test]
fn remove_of_an_absent_identifier_changes_nothing() {
    let mut m = manager();
    assert_eq!(m.remove_authors(Some("alice bob\n"), strings(&["carol"])), "alice bob\n");
    assert!(m.report.removed.is_empty());
    assert_eq!(m.report.not_removed, strings(&["carol"]));
}

#[test]
fn add_a_second_time_reports_all_as_present() {
    let mut m = manager();
    let first = m.add_authors(None, strings(&["bob", "alice"])).unwrap();
    let second = m.add_authors(Some(&first), strings(&["bob", "alice"])).unwrap();
    assert_eq!(first, second);
    assert_eq!(m.report.added, strings(&["bob", "alice"]));
    assert_eq!(m.report.not_added, strings(&["bob", "alice"]));
}

#[test]
fn remove_of_the_last_identifier_leaves_an_empty_text() {
    let mut m = manager();
    assert_eq!(m.remove_authors(Some("alice\n"), strings(&["alice"])), "");
    assert_eq!(m.report.removed, strings(&["alice"]));
}

#[test]
fn remove_from_nothing_reports_absent() {
    let mut m = manager();
    assert_eq!(m.remove_authors(None, strings(&["alice"])), "");
    assert_eq!(m.report.not_removed, strings(&["alice"]));
}

#[test]
fn prompt_offers_every_author_in_order() {
    assert_eq!(manager().prompt_remove(None), None);
    assert_eq!(manager().prompt_remove(Some("\n")), None);
    assert_eq!(manager().prompt_remove(Some("bob alice")), Some(strings(&["alice", "bob"])));
}

#[test]
fn messages_of_the_errors() {
    assert_eq!(AuthorError::NotInRepo.message(), "Not inside a git repository");
    assert_eq!(AuthorError::UnknownCommand("frob".to_string()).message(), "Unknown command: frob");
    assert_eq!(AuthorError::MissingLogins.message(), "add requires at least one login");
    assert_eq!(AuthorError::Inquire("cancelled".to_string()).message(), "cancelled");
    assert_eq!(AuthorError::Io("denied".to_string()).message(), "denied");
    assert_eq!(AuthorError::NoAuthors.message(), "No authors in list");
}
