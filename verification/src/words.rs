//! Splitting a command line into words.

use vstd::prelude::*;
use vstd::string::*;

verus! {

/// Whether `c` is white space: a character with the Unicode property
/// `White_Space`.
pub open spec fn is_blank(c: char) -> bool {
    ('\u{9}' <= c && c <= '\u{d}') || c == ' ' || c == '\u{85}' || c == '\u{a0}' || c
        == '\u{1680}' || ('\u{2000}' <= c && c <= '\u{200a}') || c == '\u{2028}' || c
        == '\u{2029}' || c == '\u{202f}' || c == '\u{205f}' || c == '\u{3000}'
}

/// The length of the word that `s` starts with: the number of characters
/// before the first blank, or before the end where there is no blank.
pub open spec fn word_len(s: Seq<char>) -> nat
    decreases s.len(),
{
    if s.len() == 0 || is_blank(s[0]) {
        0
    } else {
        1 + word_len(s.skip(1))
    }
}

/// The words of `s`: its maximal runs of characters that are not blank, in
/// order. Blanks separate words and belong to none, so no word is empty.
pub open spec fn words(s: Seq<char>) -> Seq<Seq<char>>
    decreases s.len(),
    via words_decreases
{
    if s.len() == 0 {
        Seq::empty()
    } else if is_blank(s[0]) {
        words(s.skip(1))
    } else {
        let n = word_len(s);
        seq![s.take(n as int)] + words(s.skip(n as int))
    }
}

#[via_fn]
proof fn words_decreases(s: Seq<char>) {
    lemma_word_len_bound(s);
}

/// The texts of a list of strings.
pub open spec fn texts(list: Seq<String>) -> Seq<Seq<char>> {
    Seq::new(list.len(), |i: int| list[i]@)
}

/// A word is never longer than the text it starts.
pub proof fn lemma_word_len_bound(s: Seq<char>)
    ensures
        word_len(s) <= s.len(),
        s.len() > 0 && !is_blank(s[0]) ==> word_len(s) > 0,
    decreases s.len(),
{
    if s.len() > 0 && !is_blank(s[0]) {
        lemma_word_len_bound(s.skip(1));
    }
}

/// The word that a text starts with holds no blank.
pub proof fn lemma_word_has_no_blank(s: Seq<char>, j: int)
    requires
        0 <= j < word_len(s),
    ensures
        j < s.len(),
        !is_blank(s[j]),
    decreases s.len(),
{
    lemma_word_len_bound(s);
    if j > 0 {
        lemma_word_has_no_blank(s.skip(1), j - 1);
    }
}

/// Every word of a text is a word: it is not empty, and it holds no
/// blank.
pub proof fn lemma_words_are_words(s: Seq<char>, i: int)
    requires
        0 <= i < words(s).len(),
    ensures
        words(s)[i].len() > 0,
        forall|j: int| 0 <= j < words(s)[i].len() ==> !is_blank(#[trigger] words(s)[i][j]),
    decreases s.len(),
{
    lemma_word_len_bound(s);
    if s.len() == 0 {
    } else if is_blank(s[0]) {
        lemma_words_are_words(s.skip(1), i);
    } else {
        let n = word_len(s) as int;
        if i == 0 {
            assert forall|j: int| 0 <= j < n implies !is_blank(#[trigger] s.take(n)[j]) by {
                lemma_word_has_no_blank(s, j);
            }
        } else {
            lemma_words_are_words(s.skip(n), i - 1);
        }
    }
}

/// A text without blanks is one word, and a text of blanks has none.
pub proof fn lemma_words_of_plain_text(s: Seq<char>)
    ensures
        s.len() > 0 && (forall|j: int| 0 <= j < s.len() ==> !is_blank(#[trigger] s[j]))
            ==> words(s) == seq![s],
        (forall|j: int| 0 <= j < s.len() ==> is_blank(#[trigger] s[j])) ==> words(s).len() == 0,
    decreases s.len(),
{
    if s.len() > 0 {
        lemma_words_of_plain_text(s.skip(1));
        if forall|j: int| 0 <= j < s.len() ==> !is_blank(#[trigger] s[j]) {
            lemma_word_len_all(s);
            assert(!is_blank(s[0]));
            assert(s.take(s.len() as int) =~= s);
            assert(s.skip(s.len() as int) =~= Seq::<char>::empty());
            assert(words(s.skip(s.len() as int)) =~= Seq::<Seq<char>>::empty());
            assert(words(s) =~= seq![s]);
        }
        if forall|j: int| 0 <= j < s.len() ==> is_blank(#[trigger] s[j]) {
            assert(is_blank(s[0]));
            assert forall|j: int| 0 <= j < s.skip(1).len() implies is_blank(
                #[trigger] s.skip(1)[j],
            ) by {
                assert(s.skip(1)[j] == s[j + 1]);
            }
        }
    }
}

/// A text without blanks is as long as the word it starts with.
proof fn lemma_word_len_all(s: Seq<char>)
    requires
        forall|j: int| 0 <= j < s.len() ==> !is_blank(#[trigger] s[j]),
    ensures
        word_len(s) == s.len(),
    decreases s.len(),
{
    if s.len() > 0 {
        assert(!is_blank(s[0]));
        assert forall|j: int| 0 <= j < s.skip(1).len() implies !is_blank(
            #[trigger] s.skip(1)[j],
        ) by {
            assert(s.skip(1)[j] == s[j + 1]);
        }
        lemma_word_len_all(s.skip(1));
    }
}

/// The characters of a text, in order.
pub fn chars_of(text: &str) -> (r: Vec<char>)
    ensures
        r@ == text@,
{
    broadcast use group_string_axioms;

    let mut out: Vec<char> = Vec::new();
    for c in it: text.chars()
        invariant
            out@ == it.seq().take(it.index()),
            it.seq() == text@,
    {
        out.push(c);
        assert(out@ =~= it.seq().take(it.index() + 1));
    }
    assert(out@ =~= text@);
    out
}

/// Whether `c` is white space.
pub fn is_whitespace(c: char) -> (r: bool)
    ensures
        r == is_blank(c),
{
    ('\u{9}' <= c && c <= '\u{d}') || c == ' ' || c == '\u{85}' || c == '\u{a0}' || c
        == '\u{1680}' || ('\u{2000}' <= c && c <= '\u{200a}') || c == '\u{2028}' || c
        == '\u{2029}' || c == '\u{202f}' || c == '\u{205f}' || c == '\u{3000}'
}

/// Whether two texts are the same.
pub fn same_text(a: &str, b: &str) -> (r: bool)
    ensures
        r == (a@ == b@),
{
    let x = String::from_str(a);
    let y = String::from_str(b);
    x == y
}

/// Splits a line into its words.
pub fn split_words(line: &str) -> (r: Vec<String>)
    ensures
        texts(r@) == words(line@),
{
    let chars = chars_of(line);
    let n: usize = chars.len();
    let mut out: Vec<String> = Vec::new();
    let mut i: usize = 0;
    assert(line@.skip(0) =~= line@);
    assert(texts(out@) + words(line@) =~= words(line@));
    while i < n
        invariant
            chars@ == line@,
            n == chars@.len(),
            i <= n,
            words(line@) == texts(out@) + words(line@.skip(i as int)),
        decreases n - i,
    {
        let ghost rest = line@.skip(i as int);
        if is_whitespace(chars[i]) {
            assert(rest.skip(1) =~= line@.skip(i + 1));
            i = i + 1;
        } else {
            let mut j: usize = i + 1;
            assert(rest.skip(1) =~= line@.skip(j as int));
            while j < n && !is_whitespace(chars[j])
                invariant
                    chars@ == line@,
                    n == chars@.len(),
                    i < j <= n,
                    word_len(line@.skip(i as int)) == (j - i) + word_len(line@.skip(j as int)),
                decreases n - j,
            {
                assert(line@.skip(j as int).skip(1) =~= line@.skip(j + 1));
                j = j + 1;
            }
            let word = String::from_str(line.substring_char(i, j));
            proof {
                assert(word_len(line@.skip(j as int)) == 0);
                assert(rest.take(j - i) =~= line@.subrange(i as int, j as int));
                assert(rest.skip(j - i) =~= line@.skip(j as int));
                assert(texts(out@.push(word)) =~= texts(out@) + seq![word@]);
                assert(texts(out@.push(word)) + words(line@.skip(j as int)) =~= texts(out@) + (
                seq![word@] + words(line@.skip(j as int))));
            }
            out.push(word);
            i = j;
        }
    }
    assert(texts(out@) + words(line@.skip(n as int)) =~= texts(out@));
    out
}

} // verus!
