//! The authors file as text: identifiers separated by white space when read,
//! and written in order on one line, with one space between neighbours.

use crate::author_set::AuthorSet;
use crate::order::{lemma_sorted_names, lemma_sorted_names_exist, lists, sorted_names};
use crate::text::{is_space, join, joined, lemma_word_found, split_words, words};
use vstd::prelude::*;

verus! {

/// The set of identifiers that a file holds. A file that does not exist, for
/// which `contents` is `None`, holds none.
pub open spec fn file_authors(contents: Option<Seq<char>>) -> Set<Seq<char>> {
    match contents {
        Some(text) => words(text).to_set(),
        None => Set::empty(),
    }
}

/// The text that is written for a list of identifiers: nothing for an empty
/// list, else the identifiers with one space between neighbours and a line
/// feed at the end.
pub open spec fn file_text(names: Seq<Seq<char>>) -> Seq<char> {
    if names.len() == 0 {
        Seq::empty()
    } else {
        joined(names, seq![' ']) + seq!['\n']
    }
}

/// An identifier that the file can hold: not empty and free of white space.
pub open spec fn is_identifier(name: Seq<char>) -> bool {
    name.len() > 0 && forall|i: int| 0 <= i < name.len() ==> !is_space(name[i])
}

/// An identifier at the start of a text, with the text's end or white space
/// behind it, is the text's first word.
proof fn lemma_leading_word(name: Seq<char>, rest: Seq<char>)
    requires
        is_identifier(name),
        rest.len() == 0 || is_space(rest[0]),
    ensures
        words(name + rest) == seq![name] + words(rest),
{
    let text = name + rest;
    assert(text.skip(0) == text);
    lemma_word_found(text, 0, name.len() as int);
    assert(text.take(name.len() as int) == name);
    assert(text.skip(name.len() as int) == rest);
}

/// The words of the text that is written for a list of identifiers are the
/// identifiers of the list.
pub proof fn lemma_words_of_file_text(names: Seq<Seq<char>>)
    requires
        forall|i: int| 0 <= i < names.len() ==> is_identifier(names[i]),
    ensures
        words(file_text(names)) == names,
    decreases names.len(),
{
    let space = seq![' '];
    let feed = seq!['\n'];
    assert(words(feed) == Seq::<Seq<char>>::empty()) by {
        assert(feed.skip(1).len() == 0);
        reveal_with_fuel(words, 2);
    }
    if names.len() == 0 {
        assert(words(file_text(names)) == names);
    } else if names.len() == 1 {
        lemma_leading_word(names[0], feed);
        assert(seq![names[0]] + Seq::<Seq<char>>::empty() == names);
    } else {
        let rest = names.skip(1);
        assert forall|i: int| 0 <= i < rest.len() implies is_identifier(rest[i]) by {
            assert(rest[i] == names[i + 1]);
        }
        lemma_words_of_file_text(rest);
        let tail = space + file_text(rest);
        assert(file_text(names) == names[0] + tail);
        lemma_leading_word(names[0], tail);
        assert(tail.skip(1) == file_text(rest));
        assert(seq![names[0]] + rest == names);
    }
}

/// Writing a set of identifiers and reading the text back gives the set.
pub proof fn lemma_write_then_read(authors: Set<Seq<char>>)
    requires
        authors.finite(),
        forall|name: Seq<char>| authors.contains(name) ==> is_identifier(name),
    ensures
        file_authors(Some(file_text(sorted_names(authors)))) == authors,
{
    lemma_sorted_names_exist(authors);
    let names = sorted_names(authors);
    assert forall|i: int| 0 <= i < names.len() implies is_identifier(names[i]) by {
        assert(names.to_set().contains(names[i]));
    }
    lemma_words_of_file_text(names);
}

/// The text that is written for an empty set holds no identifier.
pub proof fn lemma_empty_file_text()
    ensures
        file_text(sorted_names(Set::empty())).len() == 0,
{
    let names = Seq::<Seq<char>>::empty();
    assert(names.to_set() == Set::<Seq<char>>::empty());
    lemma_sorted_names(names);
}

/// The set of identifiers in the file's contents.
pub fn read_authors(contents: Option<&str>) -> (authors: AuthorSet)
    ensures
        authors@ == file_authors(contents.deep_view()),
{
    let mut authors = AuthorSet::new();
    match contents {
        None => authors,
        Some(text) => {
            let found = split_words(text);
            let ghost all = found.deep_view();
            let mut i: usize = 0;
            while i < found.len()
                invariant
                    i <= found.len(),
                    all == found.deep_view(),
                    authors@ == all.take(i as int).to_set(),
                decreases found.len() - i,
            {
                authors.insert(found[i].clone());
                proof {
                    let upto = all.take(i as int);
                    assert(all.take(i + 1) == upto.push(all[i as int]));
                    upto.lemma_push_to_set_commute(all[i as int]);
                }
                i += 1;
            }
            assert(all.take(i as int) == all);
            authors
        },
    }
}

/// The text to write for a set of identifiers.
pub fn write_authors(authors: &AuthorSet) -> (text: String)
    ensures
        text@ == file_text(sorted_names(authors@)),
        lists(sorted_names(authors@), authors@),
        text@.len() == 0 <==> authors@ == Set::<Seq<char>>::empty(),
{
    let names = authors.names();
    if names.len() == 0 {
        assert(names.deep_view().to_set() == Set::<Seq<char>>::empty());
        return String::new();
    }
    assert(names.deep_view().to_set().contains(names.deep_view()[0]));
    let mut text = join(names, " ");
    text.append("\n");
    proof {
        reveal_strlit(" ");
        reveal_strlit("\n");
        assert(" "@ =~= seq![' ']);
        assert("\n"@ =~= seq!['\n']);
    }
    text
}

} // verus!
