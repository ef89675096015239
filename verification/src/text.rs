//! Text as sequences of characters: white space, the words of a text, and
//! lists of words joined by a separator.

use vstd::prelude::*;

verus! {

/// The characters with the Unicode property `White_Space`.
pub open spec fn is_space(c: char) -> bool {
    let u = c as u32;
    ||| 0x09 <= u <= 0x0d
    ||| u == 0x20
    ||| u == 0x85
    ||| u == 0xa0
    ||| u == 0x1680
    ||| 0x2000 <= u <= 0x200a
    ||| u == 0x2028
    ||| u == 0x2029
    ||| u == 0x202f
    ||| u == 0x205f
    ||| u == 0x3000
}

/// Whether `c` is white space.
pub fn is_whitespace(c: char) -> (space: bool)
    ensures
        space == is_space(c),
{
    let u = c as u32;
    (0x09 <= u && u <= 0x0d) || u == 0x20 || u == 0x85 || u == 0xa0 || u == 0x1680 || (0x2000 <= u
        && u <= 0x200a) || u == 0x2028 || u == 0x2029 || u == 0x202f || u == 0x205f || u == 0x3000
}

/// The characters of `text`, in order.
pub fn chars_of(text: &str) -> (chars: Vec<char>)
    ensures
        chars@ == text@,
{
    let mut chars: Vec<char> = Vec::new();
    for c in it: text.chars()
        invariant
            it.seq() == text@,
            chars@ == text@.take(it.index() as int),
    {
        chars.push(c);
    }
    chars
}

/// The number of characters before the first white space of `text`.
pub open spec fn word_len(text: Seq<char>) -> nat
    decreases text.len(),
{
    if text.len() == 0 || is_space(text[0]) {
        0
    } else {
        1 + word_len(text.skip(1))
    }
}

/// The first word of a text is no longer than the text.
pub proof fn lemma_word_len_bound(text: Seq<char>)
    ensures
        word_len(text) <= text.len(),
    decreases text.len(),
{
    if text.len() > 0 && !is_space(text[0]) {
        lemma_word_len_bound(text.skip(1));
    }
}

/// The words of `text`: its maximal runs of characters that are not white
/// space, from left to right.
pub open spec fn words(text: Seq<char>) -> Seq<Seq<char>>
    decreases text.len(),
{
    if text.len() == 0 {
        Seq::empty()
    } else if is_space(text[0]) {
        words(text.skip(1))
    } else {
        let n = word_len(text) as int;
        proof {
            lemma_word_len_bound(text);
        }
        seq![text.take(n)] + words(text.skip(n))
    }
}

/// A run of characters that are not white space and that ends the text or
/// stands before white space is the first word from where it starts.
pub proof fn lemma_word_found(text: Seq<char>, start: int, end: int)
    requires
        0 <= start <= end <= text.len(),
        forall|k: int| start <= k < end ==> !is_space(text[k]),
        end == text.len() || is_space(text[end]),
    ensures
        word_len(text.skip(start)) == end - start,
    decreases end - start,
{
    let rest = text.skip(start);
    if start < end {
        assert(rest[0] == text[start]);
        assert(rest.skip(1) == text.skip(start + 1));
        lemma_word_found(text, start + 1, end);
    } else if end < text.len() {
        assert(rest[0] == text[end]);
    }
}

/// Splits `text` into its words.
pub fn split_words(text: &str) -> (found: Vec<String>)
    ensures
        found.deep_view() == words(text@),
{
    let chars = chars_of(text);
    let n = chars.len();
    let mut found: Vec<String> = Vec::new();
    let mut i: usize = 0;
    assert(text@.skip(0) == text@);
    assert(found.deep_view() + words(text@) == words(text@));
    while i < n
        invariant
            chars@ == text@,
            n == chars.len(),
            i <= n,
            found.deep_view() + words(text@.skip(i as int)) == words(text@),
        decreases n - i,
    {
        let ghost rest = text@.skip(i as int);
        let ghost before = found.deep_view();
        if is_whitespace(chars[i]) {
            assert(rest.skip(1) == text@.skip(i + 1));
            i += 1;
        } else {
            let start = i;
            while i < n && !is_whitespace(chars[i])
                invariant
                    chars@ == text@,
                    n == chars.len(),
                    start <= i <= n,
                    forall|k: int| start <= k < i ==> !is_space(text@[k]),
                decreases n - i,
            {
                i += 1;
            }
            let word = text.substring_char(start, i);
            found.push(word.to_owned());
            proof {
                lemma_word_found(text@, start as int, i as int);
                assert(rest.take(i - start) == word@);
                assert(rest.skip(i - start) == text@.skip(i as int));
                assert(found.deep_view() == before.push(word@));
                assert(before.push(word@) + words(text@.skip(i as int)) == before + words(rest));
            }
        }
    }
    assert(text@.skip(n as int).len() == 0);
    found
}

/// The items of `items` in order, with `sep` between neighbours.
pub open spec fn joined(items: Seq<Seq<char>>, sep: Seq<char>) -> Seq<char>
    decreases items.len(),
{
    if items.len() == 0 {
        Seq::empty()
    } else if items.len() == 1 {
        items[0]
    } else {
        items[0] + sep + joined(items.skip(1), sep)
    }
}

/// Joins `items` with `sep` between neighbours.
pub fn join(items: &Vec<String>, sep: &str) -> (text: String)
    ensures
        text@ == joined(items.deep_view(), sep@),
{
    let mut text = String::new();
    if items.len() == 0 {
        return text;
    }
    text.append(items[0].as_str());
    let ghost all = items.deep_view();
    let mut i: usize = 1;
    while i < items.len()
        invariant
            all == items.deep_view(),
            1 <= i <= items.len(),
            i < items.len() ==> text@ + sep@ + joined(all.skip(i as int), sep@) == joined(all, sep@),
            i == items.len() ==> text@ == joined(all, sep@),
        decreases items.len() - i,
    {
        let ghost rest = all.skip(i as int);
        let ghost before = text@;
        text.append(sep);
        text.append(items[i].as_str());
        proof {
            assert(rest[0] == items[i as int]@);
            assert(rest.skip(1) == all.skip(i + 1));
            if i + 1 < items.len() {
                assert(text@ + sep@ + joined(all.skip(i + 1), sep@) == before + sep@ + joined(
                    rest,
                    sep@,
                ));
            }
        }
        i += 1;
    }
    text
}

/// The items of `items` in order, each followed by a line feed.
pub open spec fn lines(items: Seq<Seq<char>>) -> Seq<char>
    decreases items.len(),
{
    if items.len() == 0 {
        Seq::empty()
    } else {
        items[0] + seq!['\n'] + lines(items.skip(1))
    }
}

/// Writes each item of `items` on a line of its own.
pub fn to_lines(items: &Vec<String>) -> (text: String)
    ensures
        text@ == lines(items.deep_view()),
{
    let mut text = String::new();
    let ghost all = items.deep_view();
    let mut i: usize = 0;
    assert(all.skip(0) == all);
    assert(text@ + lines(all) == lines(all));
    while i < items.len()
        invariant
            all == items.deep_view(),
            i <= items.len(),
            text@ + lines(all.skip(i as int)) == lines(all),
        decreases items.len() - i,
    {
        let ghost rest = all.skip(i as int);
        let ghost before = text@;
        text.append(items[i].as_str());
        text.append("\n");
        proof {
            reveal_strlit("\n");
            assert("\n"@ == seq!['\n']);
            assert(rest[0] == items[i as int]@);
            assert(rest.skip(1) == all.skip(i + 1));
            assert(text@ + lines(all.skip(i + 1)) == before + lines(rest));
        }
        i += 1;
    }
    assert(all.skip(i as int).len() == 0);
    assert(text@ + Seq::<char>::empty() == text@);
    text
}

} // verus!
