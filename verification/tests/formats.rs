use author::author_set::AuthorSet;
use author::order::{compare, Rank};
use author::store::{read_authors, write_authors};
use author::text::{is_whitespace, join, split_words, to_lines};

fn strings(items: &[&str]) -> Vec<String> {
    items.iter().map(|s| s.to_string()).collect()
}

#[test]
fn whitespace_agrees_with_std_on_every_char() {
    for code in 0u32..=0x10ffff {
        if let Some(c) = char::from_u32(code) {
            assert_eq!(is_whitespace(c), c.is_whitespace(), "U+{:04X}", code);
        }
    }
}

#[test]
fn split_words_agrees_with_std() {
    for text in ["", " ", "alice", "  alice\tbob\n", "a\u{a0}b\u{3000}c", "x  y\r\nz ", "é ü"] {
        let expected: Vec<String> = text.split_whitespace().map(str::to_string).collect();
        assert_eq!(split_words(text), expected);
    }
}

#[test]
fn compare_agrees_with_std() {
    let samples = ["", "a", "ab", "b", "B", "é", "z", "\u{10000}", "\u{ffff}", "alice", "alicf"];
    for a in samples {
        for b in samples {
            let expected = match a.cmp(b) {
                std::cmp::Ordering::Less => Rank::Before,
                std::cmp::Ordering::Equal => Rank::Same,
                std::cmp::Ordering::Greater => Rank::After,
            };
            assert_eq!(compare(a, b), expected, "{:?} and {:?}", a, b);
        }
    }
}

#[test]
fn join_puts_the_separator_between_neighbours() {
    assert_eq!(join(&strings(&[]), ", "), "");
    assert_eq!(join(&strings(&["a"]), ", "), "a");
    assert_eq!(join(&strings(&["a", "b", "c"]), ", "), "a, b, c");
}

#[test]
fn to_lines_ends_each_item_with_a_line_feed() {
    assert_eq!(to_lines(&strings(&[])), "");
    assert_eq!(to_lines(&strings(&["a", "b"])), "a\nb\n");
}

#[test]
fn set_keeps_identifiers_sorted_and_unique() {
    let mut set = AuthorSet::new();
    assert!(set.is_empty());
    assert!(set.insert("carol".to_string()));
    assert!(set.insert("alice".to_string()));
    assert!(set.insert("bob".to_string()));
    assert!(!set.insert("alice".to_string()));
    assert_eq!(set.len(), 3);
    assert_eq!(set.names(), &strings(&["alice", "bob", "carol"]));
    assert!(set.contains("bob"));
    assert!(!set.contains("Bob"));
    assert!(set.remove("bob"));
    assert!(!set.remove("bob"));
    assert_eq!(set.into_names(), strings(&["alice", "carol"]));
}

#[test]
fn set_is_case_sensitive() {
    let mut set = AuthorSet::new();
    assert!(set.insert("alice".to_string()));
    assert!(set.insert("Alice".to_string()));
    assert_eq!(set.names(), &strings(&["Alice", "alice"]));
}

#[test]
fn missing_file_holds_no_author() {
    assert!(read_authors(None).is_empty());
    assert!(read_authors(Some("")).is_empty());
    assert!(read_authors(Some(" \n\t")).is_empty());
}

#[test]
fn duplicates_in_the_file_collapse() {
    let set = read_authors(Some("bob alice\nbob\talice carol"));
    assert_eq!(set.names(), &strings(&["alice", "bob", "carol"]));
}

#[test]
fn empty_set_is_written_as_empty_text() {
    assert_eq!(write_authors(&AuthorSet::new()), "");
}

#[test]
fn set_is_written_sorted_on_one_line() {
    let set = read_authors(Some("carol\nalice\nbob"));
    assert_eq!(write_authors(&set), "alice bob carol\n");
    let one = read_authors(Some("alice"));
    assert_eq!(write_authors(&one), "alice\n");
}

#[test]
fn written_text_reads_back_whatever_the_insertion_order() {
    let orders = [["a", "b", "c"], ["c", "b", "a"], ["b", "c", "a"]];
    for order in orders {
        let mut set = AuthorSet::new();
        for name in order {
            set.insert(name.to_string());
        }
        let text = write_authors(&set);
        assert_eq!(text, "a b c\n");
        assert_eq!(read_authors(Some(&text)).into_names(), strings(&["a", "b", "c"]));
    }
}
