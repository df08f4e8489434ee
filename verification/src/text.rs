//! Text operations the resolver needs: joining arguments, finding and
//! replacing a pattern, and splitting a line into words.

use vstd::prelude::*;
use vstd::string::StringExecFns;
use vstd::string::StrSliceExecFns;

verus! {

/// `str == str` of the standard library: two string slices are equal when
/// they hold the same characters.
pub assume_specification[ <str as PartialEq>::eq ](a: &str, b: &str) -> (same: bool)
    ensures
        same == (a@ == b@),
;

/// Whether `a` and `b` hold the same text.
pub fn same_text(a: &str, b: &str) -> (same: bool)
    ensures
        same == (a@ == b@),
{
    *a == *b
}

/// The texts of a list of string slices.
pub open spec fn texts(items: Seq<&str>) -> Seq<Seq<char>> {
    items.map_values(|item: &str| item@)
}

/// The items in order, with one space between neighbours.
pub open spec fn joined(items: Seq<Seq<char>>) -> Seq<char>
    decreases items.len(),
{
    if items.len() == 0 {
        Seq::empty()
    } else if items.len() == 1 {
        items[0]
    } else {
        joined(items.drop_last()) + seq![' '] + items.last()
    }
}

/// `pattern` stands in `text` at position `at`.
pub open spec fn occurs_at(text: Seq<char>, pattern: Seq<char>, at: int) -> bool {
    &&& 0 <= at
    &&& at + pattern.len() <= text.len()
    &&& text.subrange(at, at + pattern.len()) == pattern
}

/// `pattern` stands somewhere in `text`.
pub open spec fn occurs(text: Seq<char>, pattern: Seq<char>) -> bool {
    exists|at: int| occurs_at(text, pattern, at)
}

/// `text` with every occurrence of `pattern` replaced by `with`, reading from
/// the left and never looking back into what was already replaced. An empty
/// pattern replaces nothing.
pub open spec fn replaced(text: Seq<char>, pattern: Seq<char>, with: Seq<char>) -> Seq<char>
    decreases text.len(),
{
    if pattern.len() == 0 || text.len() < pattern.len() {
        text
    } else if occurs_at(text, pattern, 0) {
        with + replaced(text.skip(pattern.len() as int), pattern, with)
    } else {
        seq![text[0]] + replaced(text.skip(1), pattern, with)
    }
}

/// The white space characters of Unicode (`White_Space`).
pub open spec fn is_space(c: char) -> bool {
    let code: u32 = c as u32;
    ||| 0x09 <= code <= 0x0D
    ||| code == 0x20
    ||| code == 0x85
    ||| code == 0xA0
    ||| code == 0x1680
    ||| 0x2000 <= code <= 0x200A
    ||| code == 0x2028
    ||| code == 0x2029
    ||| code == 0x202F
    ||| code == 0x205F
    ||| code == 0x3000
}

/// Where the run of characters that are no spaces, starting at `from`, ends.
pub open spec fn word_end(text: Seq<char>, from: int) -> int
    decreases text.len() - from,
{
    if from < 0 || from >= text.len() || is_space(text[from]) {
        from
    } else {
        word_end(text, from + 1)
    }
}

/// The words of `text` when it is read from `from` on: the longest runs of
/// characters that are no spaces, in order.
pub open spec fn words_from(text: Seq<char>, from: int) -> Seq<Seq<char>>
    decreases text.len() - from,
{
    if from < 0 || from >= text.len() {
        Seq::empty()
    } else if is_space(text[from]) {
        words_from(text, from + 1)
    } else {
        proof {
            lemma_word_end_bounds(text, from);
        }
        seq![text.subrange(from, word_end(text, from))] + words_from(text, word_end(text, from))
    }
}

/// The words of `text`.
pub open spec fn words(text: Seq<char>) -> Seq<Seq<char>> {
    words_from(text, 0)
}

/// A word is never empty and ends inside the text.
pub proof fn lemma_word_end_bounds(text: Seq<char>, from: int)
    requires
        0 <= from < text.len(),
        !is_space(text[from]),
    ensures
        from < word_end(text, from) <= text.len(),
        forall|i: int| from <= i < word_end(text, from) ==> !is_space(#[trigger] text[i]),
        word_end(text, from) < text.len() ==> is_space(text[word_end(text, from)]),
    decreases text.len() - from,
{
    if from + 1 < text.len() && !is_space(text[from + 1]) {
        lemma_word_end_bounds(text, from + 1);
    } else {
        assert(word_end(text, from + 1) == from + 1);
    }
}

/// Where nothing is replaced up to `gap`, the text up to there stays as it is.
proof fn lemma_replaced_after_gap(text: Seq<char>, pattern: Seq<char>, with: Seq<char>, gap: int)
    requires
        pattern.len() > 0,
        0 <= gap <= text.len(),
        forall|at: int| 0 <= at < gap ==> !occurs_at(text, pattern, at),
    ensures
        replaced(text, pattern, with) == text.take(gap) + replaced(text.skip(gap), pattern, with),
    decreases gap,
{
    if gap == 0 {
        assert(text.skip(0) =~= text);
    } else if text.len() >= pattern.len() {
        let rest = text.skip(1);
        assert forall|at: int| 0 <= at < gap - 1 implies !occurs_at(rest, pattern, at) by {
            assert(!occurs_at(text, pattern, at + 1));
            if at + pattern.len() <= rest.len() {
                assert(rest.subrange(at, at + pattern.len()) =~= text.subrange(
                    at + 1,
                    at + 1 + pattern.len(),
                ));
            }
        }
        lemma_replaced_after_gap(rest, pattern, with, gap - 1);
        assert(rest.skip(gap - 1) =~= text.skip(gap));
        assert(seq![text[0]] + (rest.take(gap - 1) + replaced(text.skip(gap), pattern, with)) =~= text.take(
            gap,
        ) + replaced(text.skip(gap), pattern, with));
    }
}

/// A text in which the pattern does not occur is left as it is.
pub proof fn lemma_replaced_without_occurrence(text: Seq<char>, pattern: Seq<char>, with: Seq<char>)
    requires
        !occurs(text, pattern),
    ensures
        replaced(text, pattern, with) == text,
{
    if pattern.len() > 0 {
        assert forall|at: int| 0 <= at < text.len() implies !occurs_at(text, pattern, at) by {}
        lemma_replaced_after_gap(text, pattern, with, text.len() as int);
    }
}

/// The characters of `text`.
pub fn chars_of(text: &str) -> (chars: Vec<char>)
    ensures
        chars@ == text@,
{
    let mut chars: Vec<char> = Vec::new();
    for c in walk: text.chars()
        invariant
            chars@ == walk.seq().take(walk.index() as int),
            walk.seq() == text@,
    {
        chars.push(c);
    }
    chars
}

/// Joins the items with single spaces.
pub fn join(items: &[&str]) -> (line: String)
    ensures
        line@ == joined(texts(items@)),
{
    let mut line = String::new();
    let mut i: usize = 0;
    while i < items.len()
        invariant
            i <= items@.len(),
            line@ == joined(texts(items@).take(i as int)),
        decreases items@.len() - i,
    {
        if i > 0 {
            line.append(" ");
        }
        line.append(items[i]);
        proof {
            reveal_strlit(" ");
            assert(texts(items@).take(i + 1).drop_last() =~= texts(items@).take(i as int));
        }
        i += 1;
    }
    proof {
        assert(texts(items@).take(i as int) =~= texts(items@));
    }
    line
}

/// Whether `pattern` stands in `text` at `at`.
fn matches_at(text: &Vec<char>, pattern: &Vec<char>, at: usize) -> (hit: bool)
    requires
        at + pattern@.len() <= text@.len(),
    ensures
        hit == occurs_at(text@, pattern@, at as int),
{
    let length: usize = text.len();
    let mut i: usize = 0;
    while i < pattern.len()
        invariant
            i <= pattern@.len(),
            at + pattern@.len() <= length == text@.len(),
            forall|j: int| 0 <= j < i ==> text@[at + j] == pattern@[j],
        decreases pattern@.len() - i,
    {
        if text[at + i] != pattern[i] {
            return false;
        }
        i += 1;
    }
    proof {
        assert(text@.subrange(at as int, at + pattern@.len()) =~= pattern@);
    }
    true
}

/// The first place at or after `from` where `pattern` stands in `text`.
fn find_from(text: &Vec<char>, pattern: &Vec<char>, from: usize) -> (found: Option<usize>)
    requires
        from <= text@.len(),
    ensures
        match found {
            Some(at) => {
                &&& from <= at
                &&& occurs_at(text@, pattern@, at as int)
                &&& forall|j: int| from <= j < at ==> !occurs_at(text@, pattern@, j)
            },
            None => forall|j: int| from <= j ==> !occurs_at(text@, pattern@, j),
        },
{
    if pattern.len() > text.len() {
        return None;
    }
    let last: usize = text.len() - pattern.len();
    if from > last {
        return None;
    }
    let mut at: usize = from;
    loop
        invariant
            from <= at <= last,
            last + pattern@.len() == text@.len(),
            forall|j: int| from <= j < at ==> !occurs_at(text@, pattern@, j),
        decreases last - at,
    {
        if matches_at(text, pattern, at) {
            return Some(at);
        }
        if at == last {
            return None;
        }
        at += 1;
    }
}

/// Whether `pattern` occurs in `text`.
pub fn contains(text: &str, pattern: &str) -> (found: bool)
    ensures
        found == occurs(text@, pattern@),
{
    let text_chars = chars_of(text);
    let pattern_chars = chars_of(pattern);
    find_from(&text_chars, &pattern_chars, 0).is_some()
}

/// Replaces every occurrence of `pattern` in `text` by `with`.
pub fn replace(text: &str, pattern: &str, with: &str) -> (out: String)
    ensures
        out@ == replaced(text@, pattern@, with@),
{
    let text_chars = chars_of(text);
    let pattern_chars = chars_of(pattern);
    let mut out = String::new();
    if pattern_chars.len() == 0 {
        out.append(text);
        return out;
    }
    let length: usize = text_chars.len();
    let mut done: usize = 0;
    proof {
        assert(text@.skip(0) =~= text@);
    }
    loop
        invariant_except_break
            done <= text@.len(),
            replaced(text@, pattern@, with@) == out@ + replaced(text@.skip(done as int), pattern@, with@),
        invariant
            text_chars@ == text@,
            pattern_chars@ == pattern@,
            pattern@.len() > 0,
            length == text@.len(),
        ensures
            out@ == replaced(text@, pattern@, with@),
        decreases text@.len() - done,
    {
        let ghost rest = text@.skip(done as int);
        match find_from(&text_chars, &pattern_chars, done) {
            Some(at) => {
                out.append(text.substring_char(done, at));
                out.append(with);
                proof {
                    let gap: int = at - done;
                    assert forall|j: int| 0 <= j < gap implies !occurs_at(rest, pattern@, j) by {
                        assert(!occurs_at(text@, pattern@, done + j));
                        if j + pattern@.len() <= rest.len() {
                            assert(rest.subrange(j, j + pattern@.len()) =~= text@.subrange(
                                done + j,
                                done + j + pattern@.len(),
                            ));
                        }
                    }
                    lemma_replaced_after_gap(rest, pattern@, with@, gap);
                    let tail = rest.skip(gap);
                    assert(tail.subrange(0, pattern@.len() as int) =~= text@.subrange(
                        at as int,
                        at + pattern@.len(),
                    ));
                    assert(tail.skip(pattern@.len() as int) =~= text@.skip(at + pattern@.len()));
                }
                done = at + pattern_chars.len();
            },
            None => {
                out.append(text.substring_char(done, length));
                proof {
                    assert forall|j: int| !occurs_at(rest, pattern@, j) by {
                        if 0 <= j && j + pattern@.len() <= rest.len() {
                            assert(!occurs_at(text@, pattern@, done + j));
                            assert(rest.subrange(j, j + pattern@.len()) =~= text@.subrange(
                                done + j,
                                done + j + pattern@.len(),
                            ));
                        }
                    }
                    lemma_replaced_without_occurrence(rest, pattern@, with@);
                }
                break;
            },
        }
    }
    out
}

/// Whether `c` is white space.
pub fn is_whitespace(c: char) -> (space: bool)
    ensures
        space == is_space(c),
{
    let code: u32 = c as u32;
    (0x09 <= code && code <= 0x0D) || code == 0x20 || code == 0x85 || code == 0xA0 || code == 0x1680 || (0x2000
        <= code && code <= 0x200A) || code == 0x2028 || code == 0x2029 || code == 0x202F || code == 0x205F || code
        == 0x3000
}

/// Splits `text` into its words.
pub fn split_words<'a>(text: &'a str) -> (found: Vec<&'a str>)
    ensures
        texts(found@) == words(text@),
{
    let chars = chars_of(text);
    let mut found: Vec<&'a str> = Vec::new();
    let mut i: usize = 0;
    while i < chars.len()
        invariant
            i <= chars@.len(),
            chars@ == text@,
            words(text@) == texts(found@) + words_from(text@, i as int),
        decreases chars@.len() - i,
    {
        if is_whitespace(chars[i]) {
            i += 1;
        } else {
            let mut end: usize = i + 1;
            while end < chars.len() && !is_whitespace(chars[end])
                invariant
                    i < end <= chars@.len(),
                    chars@ == text@,
                    !is_space(text@[i as int]),
                    word_end(text@, i as int) == word_end(text@, end as int),
                decreases chars@.len() - end,
            {
                end += 1;
            }
            found.push(text.substring_char(i, end));
            i = end;
        }
    }
    found
}

} // verus!
