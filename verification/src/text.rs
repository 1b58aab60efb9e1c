//! Characters and strings: the few operations on text that the scanner needs.

use vstd::prelude::*;
use vstd::std_specs::iter::IteratorSpec;

verus! {

/// Whether `c` is white space: the code points that Unicode gives the
/// property `White_Space`.
pub open spec fn is_whitespace(c: char) -> bool {
    ||| c == ' '
    ||| '\u{9}' <= c <= '\u{D}'
    ||| c == '\u{85}'
    ||| c == '\u{A0}'
    ||| c == '\u{1680}'
    ||| '\u{2000}' <= c <= '\u{200A}'
    ||| c == '\u{2028}'
    ||| c == '\u{2029}'
    ||| c == '\u{202F}'
    ||| c == '\u{205F}'
    ||| c == '\u{3000}'
}

/// Whether `c` is white space.
pub fn char_is_whitespace(c: char) -> (white: bool)
    ensures
        white == is_whitespace(c),
{
    c == ' ' || ('\u{9}' <= c && c <= '\u{D}') || c == '\u{85}' || c == '\u{A0}' || c == '\u{1680}'
        || ('\u{2000}' <= c && c <= '\u{200A}') || c == '\u{2028}' || c == '\u{2029}' || c
        == '\u{202F}' || c == '\u{205F}' || c == '\u{3000}'
}

/// The characters of each string of `strings`.
pub open spec fn texts(strings: Seq<String>) -> Seq<Seq<char>> {
    Seq::new(strings.len(), |i: int| strings[i]@)
}

/// The predicate that holds of every character but white space.
pub open spec fn visible() -> spec_fn(char) -> bool {
    |c: char| !is_whitespace(c)
}

/// The index of the first `c` in `s` at or after `from`; `s.len()` where
/// there is none.
pub open spec fn index_of(s: Seq<char>, c: char, from: int) -> int
    decreases s.len() - from,
{
    if from < 0 || from >= s.len() {
        s.len() as int
    } else if s[from] == c {
        from
    } else {
        index_of(s, c, from + 1)
    }
}

/// `index_of` is the one index at or after `from` that holds `c` with no `c`
/// before it; it is the length where no `c` follows `from`.
pub proof fn lemma_index_of(s: Seq<char>, c: char, from: int, k: int)
    requires
        0 <= from <= k <= s.len(),
        forall|j: int| from <= j < k ==> s[j] != c,
        k < s.len() ==> s[k] == c,
    ensures
        index_of(s, c, from) == k,
    decreases k - from,
{
    if from < k {
        lemma_index_of(s, c, from + 1, k);
    }
}

/// Appends `c` to `text` with `String::push`, which puts the character at the
/// end of the string and leaves the rest as it was.
#[verifier::external_body]
pub(crate) fn push_char(text: &mut String, c: char)
    ensures
        final(text)@ == old(text)@.push(c),
{
    text.push(c)
}

/// Whether `text` starts with the character `c`.
pub fn starts_with_char(text: &str, c: char) -> (starts: bool)
    ensures
        starts == (text@.len() > 0 && text@[0] == c),
{
    for first in it: text.chars()
        invariant
            it.seq() == text@,
            it.index() == 0,
    {
        return first == c;
    }
    false
}

/// The characters of `s` after the first one; none where `s` is empty.
pub open spec fn after_first(s: Seq<char>) -> Seq<char> {
    if s.len() > 0 {
        s.skip(1)
    } else {
        s
    }
}

/// The characters of `text` after the first one.
pub fn without_first_char(text: &str) -> (rest: String)
    ensures
        rest@ == after_first(text@),
{
    let mut rest = String::new();
    let mut first = true;
    for c in it: text.chars()
        invariant
            it.seq() == text@,
            first == (it.index() == 0),
            rest@ == after_first(text@.take(it.index())),
    {
        if first {
            first = false;
        } else {
            assert(text@.take(it.index() + 1).skip(1) == text@.take(it.index()).skip(1).push(c));
            push_char(&mut rest, c);
        }
    }
    assert(text@.take(text@.len() as int) == text@);
    rest
}

/// A new string with the characters of `text`.
pub fn copy_text(text: &str) -> (copy: String)
    ensures
        copy@ == text@,
{
    text.to_owned()
}

/// Whether two strings hold the same characters.
pub fn same_text(a: &str, b: &str) -> (same: bool)
    ensures
        same == (a@ == b@),
{
    let mut rest = b.chars();
    for c in it: a.chars()
        invariant
            it.seq() == a@,
            rest.obeys_prophetic_iter_laws(),
            it.index() <= b@.len(),
            rest.remaining() == b@.skip(it.index()),
            a@.take(it.index()) == b@.take(it.index()),
    {
        let ghost i = it.index();
        match rest.next() {
            None => {
                assert(a@.len() > b@.len());
                return false;
            },
            Some(d) => {
                assert(d == b@[i]);
                if c != d {
                    assert(a@[i] != b@[i]);
                    return false;
                }
                assert(b@.skip(i).drop_first() == b@.skip(i + 1));
                assert(a@.take(i + 1) == a@.take(i).push(c));
                assert(b@.take(i + 1) == b@.take(i).push(d));
            },
        }
    }
    let ghost n = a@.len() as int;
    assert(a@.take(n) == a@);
    match rest.next() {
        None => {
            assert(b@.skip(n).len() == 0);
            assert(b@.take(n) == b@);
            true
        },
        Some(_) => false,
    }
}

} // verus!
