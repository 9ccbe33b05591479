//! Character sequences: searching for a pattern and replacing its occurrences.
//!
//! Strings are modelled by their view, a `Seq<char>`. Positions count
//! characters, not bytes.

use vstd::prelude::*;

verus! {

/// `pattern` stands in `text` at character position `at`.
pub open spec fn occurs_at(text: Seq<char>, pattern: Seq<char>, at: int) -> bool {
    &&& 0 <= at
    &&& at + pattern.len() <= text.len()
    &&& text.subrange(at, at + pattern.len()) == pattern
}

/// `pattern` stands somewhere in `text`. The empty pattern stands everywhere.
pub open spec fn occurs(text: Seq<char>, pattern: Seq<char>) -> bool {
    exists|at: int| occurs_at(text, pattern, at)
}

/// `text` with every occurrence of `pattern` replaced by `with`.
///
/// Occurrences are taken from the left and do not overlap: after a replaced
/// occurrence the search goes on behind it, and what was put in is not
/// searched again. An empty pattern leaves the text as it is.
pub open spec fn replace_all(text: Seq<char>, pattern: Seq<char>, with: Seq<char>) -> Seq<char>
    decreases text.len(),
{
    if pattern.len() == 0 || text.len() < pattern.len() {
        text
    } else if occurs_at(text, pattern, 0) {
        with + replace_all(text.skip(pattern.len() as int), pattern, with)
    } else {
        text.take(1) + replace_all(text.skip(1), pattern, with)
    }
}

/// An occurrence in a suffix is an occurrence in the whole text, shifted.
pub proof fn lemma_occurs_at_suffix(text: Seq<char>, pattern: Seq<char>, from: int, at: int)
    requires
        0 <= from <= text.len(),
        0 <= at,
    ensures
        occurs_at(text.skip(from), pattern, at) <==> occurs_at(text, pattern, from + at),
{
    if at + pattern.len() <= text.len() - from {
        assert(text.skip(from).subrange(at, at + pattern.len()) =~= text.subrange(
            from + at,
            from + at + pattern.len(),
        ));
    }
}

/// A stretch of text in which the pattern does not begin is copied as it is.
pub proof fn lemma_replace_all_skips(
    text: Seq<char>,
    pattern: Seq<char>,
    with: Seq<char>,
    upto: int,
)
    requires
        0 <= upto <= text.len(),
        forall|at: int| 0 <= at < upto ==> !occurs_at(text, pattern, at),
    ensures
        replace_all(text, pattern, with) == text.take(upto) + replace_all(
            text.skip(upto),
            pattern,
            with,
        ),
    decreases upto,
{
    if upto == 0 {
        assert(text.take(0) + replace_all(text.skip(0), pattern, with) =~= replace_all(
            text,
            pattern,
            with,
        ));
    } else if pattern.len() == 0 || text.len() < pattern.len() {
        assert(text.take(upto) + text.skip(upto) =~= text);
    } else {
        let rest = text.skip(1);
        assert forall|at: int| 0 <= at < upto - 1 implies !occurs_at(rest, pattern, at) by {
            lemma_occurs_at_suffix(text, pattern, 1, at);
        }
        lemma_replace_all_skips(rest, pattern, with, upto - 1);
        assert(rest.skip(upto - 1) =~= text.skip(upto));
    }
}

/// Replacing changes nothing where the pattern does not occur.
pub proof fn lemma_replace_all_absent(text: Seq<char>, pattern: Seq<char>, with: Seq<char>)
    requires
        !occurs(text, pattern),
    ensures
        replace_all(text, pattern, with) == text,
{
    lemma_replace_all_skips(text, pattern, with, text.len() as int);
}

/// The texts of a list of strings.
pub open spec fn texts(strings: Seq<String>) -> Seq<Seq<char>> {
    strings.map_values(|s: String| s@)
}

/// The last position at which `mark` stands in `text`, if it stands in it.
pub open spec fn last_index_of(text: Seq<char>, mark: char) -> Option<int>
    decreases text.len(),
{
    if text.len() == 0 {
        None
    } else if text.last() == mark {
        Some(text.len() - 1)
    } else {
        last_index_of(text.drop_last(), mark)
    }
}

/// What `last_index_of` finds is the mark, and no mark stands behind it;
/// where it finds nothing, the text holds no mark.
pub proof fn lemma_last_index_of(text: Seq<char>, mark: char)
    ensures
        match last_index_of(text, mark) {
            Some(at) => {
                &&& 0 <= at < text.len()
                &&& text[at] == mark
                &&& forall|j: int| at < j < text.len() ==> text[j] != mark
            },
            None => forall|j: int| 0 <= j < text.len() ==> text[j] != mark,
        },
    decreases text.len(),
{
    if text.len() > 0 && text.last() != mark {
        let front = text.drop_last();
        lemma_last_index_of(front, mark);
        assert forall|j: int| 0 <= j < front.len() implies front[j] == text[j] by {}
    }
}

/// The characters of `text`, in order.
pub fn to_chars(text: &str) -> (chars: Vec<char>)
    ensures
        chars@ == text@,
{
    let mut chars: Vec<char> = Vec::new();
    for c in iter: text.chars()
        invariant
            chars@ == text@.take(iter.index() as int),
            iter.seq() == text@,
    {
        chars.push(c);
    }
    chars
}

/// Whether `pattern` stands in `text` at position `at`.
pub fn matches_at(text: &Vec<char>, pattern: &Vec<char>, at: usize) -> (found: bool)
    ensures
        found == occurs_at(text@, pattern@, at as int),
{
    if pattern.len() > text.len() || at > text.len() - pattern.len() {
        return false;
    }
    let mut k: usize = 0;
    while k < pattern.len()
        invariant
            k <= pattern.len(),
            at + pattern.len() <= text.len(),
            forall|j: int| 0 <= j < k ==> text@[at + j] == pattern@[j],
        decreases pattern.len() - k,
    {
        if text[at + k] != pattern[k] {
            return false;
        }
        k += 1;
    }
    assert(text@.subrange(at as int, at + pattern.len()) =~= pattern@);
    true
}

/// The first position at or behind `from` at which `pattern` stands in `text`.
pub fn find_from(text: &Vec<char>, pattern: &Vec<char>, from: usize) -> (found: Option<usize>)
    ensures
        match found {
            Some(at) => {
                &&& from <= at
                &&& occurs_at(text@, pattern@, at as int)
                &&& forall|j: int| from <= j < at ==> !occurs_at(text@, pattern@, j)
            },
            None => forall|j: int| from <= j ==> !occurs_at(text@, pattern@, j),
        },
{
    if pattern.len() > text.len() {
        return None;
    }
    let last: usize = text.len() - pattern.len();
    let mut at: usize = from;
    while at <= last
        invariant
            from <= at,
            last == text.len() - pattern.len(),
            forall|j: int| from <= j < at ==> !occurs_at(text@, pattern@, j),
        decreases last + 1 - at,
    {
        if matches_at(text, pattern, at) {
            return Some(at);
        }
        if at == last {
            return None;
        }
        at += 1;
    }
    None
}

/// Whether the two strings hold the same characters.
pub fn same_text(left: &str, right: &str) -> (same: bool)
    ensures
        same == (left@ == right@),
{
    let a = to_chars(left);
    let b = to_chars(right);
    if a.len() != b.len() {
        return false;
    }
    let same = matches_at(&a, &b, 0);
    proof {
        assert(a@.subrange(0, a@.len() as int) =~= a@);
    }
    same
}

/// Whether `pattern` occurs in `text`.
pub fn contains(text: &str, pattern: &str) -> (found: bool)
    ensures
        found == occurs(text@, pattern@),
{
    let chars = to_chars(text);
    let wanted = to_chars(pattern);
    find_from(&chars, &wanted, 0).is_some()
}

/// `text` with every occurrence of `pattern` replaced by `with`, from the
/// left and without overlap.
pub fn replace(text: &str, pattern: &str, with: &str) -> (replaced: String)
    ensures
        replaced@ == replace_all(text@, pattern@, with@),
{
    let chars = to_chars(text);
    let wanted = to_chars(pattern);
    if wanted.len() == 0 {
        return text.to_owned();
    }
    let mut replaced = String::new();
    let mut from: usize = 0;
    proof {
        assert(text@.skip(0) =~= text@);
    }
    loop
        invariant
            chars@ == text@,
            wanted@ == pattern@,
            wanted.len() > 0,
            from <= chars.len(),
            replace_all(text@, pattern@, with@) == replaced@ + replace_all(
                text@.skip(from as int),
                pattern@,
                with@,
            ),
        decreases chars.len() - from,
    {
        let ghost rest = text@.skip(from as int);
        match find_from(&chars, &wanted, from) {
            Some(at) => {
                proof {
                    assert forall|j: int| 0 <= j < at - from implies !occurs_at(
                        rest,
                        pattern@,
                        j,
                    ) by {
                        lemma_occurs_at_suffix(text@, pattern@, from as int, j);
                    }
                    lemma_replace_all_skips(rest, pattern@, with@, at - from);
                    lemma_occurs_at_suffix(text@, pattern@, at as int, 0);
                    assert(rest.skip(at - from) =~= text@.skip(at as int));
                    assert(text@.skip(at as int).skip(pattern@.len() as int) =~= text@.skip(
                        at + pattern@.len(),
                    ));
                }
                replaced.append(text.substring_char(from, at));
                replaced.append(with);
                from = at + wanted.len();
            },
            None => {
                proof {
                    assert forall|j: int| 0 <= j < rest.len() implies !occurs_at(
                        rest,
                        pattern@,
                        j,
                    ) by {
                        lemma_occurs_at_suffix(text@, pattern@, from as int, j);
                    }
                    lemma_replace_all_skips(rest, pattern@, with@, rest.len() as int);
                }
                replaced.append(text.substring_char(from, chars.len()));
                return replaced;
            },
        }
    }
}

/// The last position at which `mark` stands in `text`.
pub fn rfind(text: &Vec<char>, mark: char) -> (found: Option<usize>)
    ensures
        match found {
            Some(at) => last_index_of(text@, mark) == Some(at as int),
            None => last_index_of(text@, mark) is None,
        },
{
    let mut end: usize = text.len();
    proof {
        assert(text@.take(end as int) =~= text@);
    }
    while end > 0
        invariant
            end <= text.len(),
            last_index_of(text@, mark) == last_index_of(text@.take(end as int), mark),
        decreases end,
    {
        if text[end - 1] == mark {
            return Some(end - 1);
        }
        proof {
            assert(text@.take(end as int).drop_last() =~= text@.take(end - 1));
        }
        end -= 1;
    }
    None
}

} // verus!
