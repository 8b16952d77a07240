//! Texts as sequences of characters: searching, trimming and splitting into
//! lines.

use crate::unicode::{char_is_whitespace, is_whitespace};
use vstd::prelude::*;

verus! {

/// Position of the first element of `s` that satisfies `p`, or `s.len()` when
/// none does.
pub open spec fn first_where(s: Seq<char>, p: spec_fn(char) -> bool) -> int
    decreases s.len(),
{
    if s.len() == 0 {
        0
    } else if p(s[0]) {
        0
    } else {
        1 + first_where(s.skip(1), p)
    }
}

/// `first_where` is in range, nothing before it satisfies `p`, and it points
/// at an element that does unless it ran off the end.
pub proof fn lemma_first_where(s: Seq<char>, p: spec_fn(char) -> bool)
    ensures
        0 <= first_where(s, p) <= s.len(),
        forall|j: int| 0 <= j < first_where(s, p) ==> !p(s[j]),
        first_where(s, p) < s.len() ==> p(s[first_where(s, p)]),
    decreases s.len(),
{
    if s.len() != 0 && !p(s[0]) {
        lemma_first_where(s.skip(1), p);
        assert forall|j: int| 0 <= j < first_where(s, p) implies !p(s[j]) by {
            if j > 0 {
                assert(s[j] == s.skip(1)[j - 1]);
            }
        }
    }
}

/// Any position that `lemma_first_where` describes is `first_where`.
pub proof fn lemma_first_where_is(s: Seq<char>, p: spec_fn(char) -> bool, i: int)
    requires
        0 <= i <= s.len(),
        forall|j: int| 0 <= j < i ==> !p(s[j]),
        i < s.len() ==> p(s[i]),
    ensures
        first_where(s, p) == i,
    decreases s.len(),
{
    if s.len() != 0 && !p(s[0]) {
        assert forall|j: int| 0 <= j < i - 1 implies !p(s.skip(1)[j]) by {
            assert(s.skip(1)[j] == s[j + 1]);
        }
        lemma_first_where_is(s.skip(1), p, i - 1);
    }
}

/// The characters equal to `c`.
pub open spec fn equal_to(c: char) -> spec_fn(char) -> bool {
    |x: char| x == c
}

/// The whitespace characters.
pub open spec fn whitespace() -> spec_fn(char) -> bool {
    |x: char| is_whitespace(x)
}

/// The characters that are not whitespace.
pub open spec fn non_whitespace() -> spec_fn(char) -> bool {
    |x: char| !is_whitespace(x)
}

/// Position of the first `c` in `s`, or `s.len()` when `s` holds none.
pub open spec fn index_of(s: Seq<char>, c: char) -> int {
    first_where(s, equal_to(c))
}

/// `s` without its leading whitespace.
pub open spec fn trim_start(s: Seq<char>) -> Seq<char> {
    s.skip(first_where(s, non_whitespace()))
}

/// Whether `c` occurs nowhere in `s`.
pub open spec fn lacks(s: Seq<char>, c: char) -> bool {
    forall|i: int| 0 <= i < s.len() ==> s[i] != c
}

/// The first line of `s`: everything before the first line feed, less one
/// carriage return directly in front of that line feed. A last line that no
/// line feed ends keeps a final carriage return.
pub open spec fn first_line(s: Seq<char>) -> Seq<char> {
    let end = index_of(s, '\n');
    if 0 < end < s.len() && s[end - 1] == '\r' {
        s.take(end - 1)
    } else {
        s.take(end)
    }
}

/// What follows the first line of `s` and its line feed.
pub open spec fn after_first_line(s: Seq<char>) -> Seq<char> {
    let end = index_of(s, '\n');
    if end < s.len() {
        s.skip(end + 1)
    } else {
        Seq::empty()
    }
}

/// The lines of `s`. Each line feed ends a line, a carriage return directly
/// in front of it belongs to the line ending, and the last line need not be
/// ended. The empty text has no lines.
pub open spec fn lines(s: Seq<char>) -> Seq<Seq<char>>
    decreases s.len(),
{
    if s.len() == 0 {
        Seq::empty()
    } else {
        proof {
            lemma_first_where(s, equal_to('\n'));
        }
        seq![first_line(s)] + lines(after_first_line(s))
    }
}

/// Whether two line feeds stand at positions `i` and `i + 1` of `s`.
pub open spec fn blank_at(s: Seq<char>, i: int) -> bool {
    0 <= i && i + 1 < s.len() && s[i] == '\n' && s[i + 1] == '\n'
}

/// Whether `i` is the first position of `s` at which two line feeds stand.
pub open spec fn is_first_blank(s: Seq<char>, i: int) -> bool {
    blank_at(s, i) && forall|j: int| 0 <= j < i ==> !blank_at(s, j)
}

/// Whether `i` is the last position of `s` at which two line feeds stand.
pub open spec fn is_last_blank(s: Seq<char>, i: int) -> bool {
    blank_at(s, i) && forall|j: int| i < j ==> !blank_at(s, j)
}

/// The parts of `s` before and after its first pair of line feeds.
pub open spec fn split_at_first_blank(s: Seq<char>) -> Option<(Seq<char>, Seq<char>)> {
    if exists|i: int| blank_at(s, i) {
        let i = choose|i: int| is_first_blank(s, i);
        Some((s.take(i), s.skip(i + 2)))
    } else {
        None
    }
}

/// The part of `s` after its last pair of line feeds; `s` itself when it has
/// no such pair.
pub open spec fn after_last_blank(s: Seq<char>) -> Seq<char> {
    if exists|i: int| blank_at(s, i) {
        let i = choose|i: int| is_last_blank(s, i);
        s.skip(i + 2)
    } else {
        s
    }
}

/// The texts that a vector of strings holds.
pub open spec fn texts(strings: Seq<String>) -> Seq<Seq<char>> {
    Seq::new(strings.len(), |i: int| strings[i]@)
}

/// The text that an optional string holds.
pub open spec fn text_of(string: Option<String>) -> Option<Seq<char>> {
    match string {
        Some(s) => Some(s@),
        None => None,
    }
}

/// Copies the characters of a string into a vector.
pub fn to_chars(s: &str) -> (v: Vec<char>)
    ensures
        v@ == s@,
{
    let mut v: Vec<char> = Vec::new();
    for c in it: s.chars()
        invariant
            v@ == it.seq().take(it.index() as int),
            it.seq() == s@,
    {
        v.push(c);
    }
    v
}

/// Whether `s` spells exactly the string `word`.
pub fn spells(s: &[char], word: &str) -> (b: bool)
    ensures
        b == (s@ == word@),
{
    let w = to_chars(word);
    if s.len() != w.len() {
        return false;
    }
    let mut i: usize = 0;
    while i < s.len()
        invariant
            i <= s@.len(),
            s@.len() == w@.len(),
            w@ == word@,
            forall|j: int| 0 <= j < i ==> s@[j] == w@[j],
        decreases s@.len() - i,
    {
        if s[i] != w[i] {
            return false;
        }
        i += 1;
    }
    assert(s@ =~= w@);
    true
}

/// Finds the first `c` at or after `from`.
pub fn find_char(s: &[char], from: usize, c: char) -> (i: usize)
    requires
        from <= s@.len(),
    ensures
        i == from + index_of(s@.skip(from as int), c),
        from <= i <= s@.len(),
{
    let mut i: usize = from;
    while i < s.len() && s[i] != c
        invariant
            from <= i <= s@.len(),
            forall|j: int| from <= j < i ==> s@[j] != c,
        decreases s@.len() - i,
    {
        i += 1;
    }
    proof {
        lemma_first_where_is(s@.skip(from as int), equal_to(c), i - from);
    }
    i
}

/// Finds the first whitespace character at or after `from`.
pub fn find_whitespace(s: &[char], from: usize) -> (i: usize)
    requires
        from <= s@.len(),
    ensures
        i == from + first_where(s@.skip(from as int), whitespace()),
        from <= i <= s@.len(),
{
    let mut i: usize = from;
    while i < s.len() && !char_is_whitespace(s[i])
        invariant
            from <= i <= s@.len(),
            forall|j: int| from <= j < i ==> !is_whitespace(s@[j]),
        decreases s@.len() - i,
    {
        i += 1;
    }
    proof {
        lemma_first_where_is(s@.skip(from as int), whitespace(), i - from);
    }
    i
}

/// Finds the first character at or after `from` that is not whitespace.
pub fn skip_whitespace(s: &[char], from: usize) -> (i: usize)
    requires
        from <= s@.len(),
    ensures
        i == from + first_where(s@.skip(from as int), non_whitespace()),
        from <= i <= s@.len(),
        s@.skip(i as int) == trim_start(s@.skip(from as int)),
{
    let mut i: usize = from;
    while i < s.len() && char_is_whitespace(s[i])
        invariant
            from <= i <= s@.len(),
            forall|j: int| from <= j < i ==> is_whitespace(s@[j]),
        decreases s@.len() - i,
    {
        i += 1;
    }
    proof {
        lemma_first_where_is(s@.skip(from as int), non_whitespace(), i - from);
        assert(s@.skip(i as int) =~= s@.skip(from as int).skip(i - from));
    }
    i
}

/// Bounds of the line that starts at `pos`: the line is `s[pos..stop]` and
/// the text after it starts at `next`.
pub fn line_at(s: &[char], pos: usize) -> (bounds: (usize, usize))
    requires
        pos < s@.len(),
    ensures
        pos <= bounds.0 <= bounds.1 <= s@.len(),
        pos < bounds.1,
        s@.subrange(pos as int, bounds.0 as int) == first_line(s@.skip(pos as int)),
        s@.skip(bounds.1 as int) == after_first_line(s@.skip(pos as int)),
{
    let end = find_char(s, pos, '\n');
    let ghost rest = s@.skip(pos as int);
    if end < s.len() {
        let stop = if end > pos && s[end - 1] == '\r' {
            end - 1
        } else {
            end
        };
        proof {
            assert(s@.subrange(pos as int, stop as int) =~= rest.take(stop - pos));
            assert(s@.skip(end + 1) =~= rest.skip(end - pos + 1));
        }
        (stop, end + 1)
    } else {
        proof {
            assert(s@.subrange(pos as int, end as int) =~= rest.take(end - pos));
            assert(s@.skip(end as int) =~= Seq::<char>::empty());
        }
        (end, end)
    }
}

/// Whether every line of `s` satisfies `p`.
pub open spec fn all_lines(s: Seq<char>, p: spec_fn(Seq<char>) -> bool) -> bool {
    forall|k: int| 0 <= k < lines(s).len() ==> p(#[trigger] lines(s)[k])
}

/// The empty text has no lines and every other text has one.
pub proof fn lemma_lines_empty(s: Seq<char>)
    ensures
        lines(s).len() == 0 <==> s.len() == 0,
{
}

/// Every line of a text satisfies `p` exactly when its first line does and
/// every line after it does.
pub proof fn lemma_all_lines_step(s: Seq<char>, p: spec_fn(Seq<char>) -> bool)
    requires
        s.len() > 0,
    ensures
        all_lines(s, p) <==> p(first_line(s)) && all_lines(after_first_line(s), p),
{
    let rest = lines(after_first_line(s));
    assert(lines(s) =~= seq![first_line(s)] + rest);
    if all_lines(s, p) {
        assert(lines(s)[0] == first_line(s));
        assert forall|k: int| 0 <= k < rest.len() implies p(#[trigger] rest[k]) by {
            assert(lines(s)[k + 1] == rest[k]);
        }
    }
    if p(first_line(s)) && all_lines(after_first_line(s), p) {
        assert forall|k: int| 0 <= k < lines(s).len() implies p(#[trigger] lines(s)[k]) by {
            if k > 0 {
                assert(lines(s)[k] == rest[k - 1]);
            }
        }
    }
}

/// Finds the first pair of line feeds.
pub fn first_blank(s: &[char]) -> (at: Option<usize>)
    ensures
        match at {
            Some(i) => is_first_blank(s@, i as int),
            None => forall|j: int| !blank_at(s@, j),
        },
{
    let mut i: usize = 1;
    while i < s.len()
        invariant
            1 <= i,
            forall|j: int| 0 <= j < i - 1 ==> !blank_at(s@, j),
        decreases s@.len() - i,
    {
        if s[i - 1] == '\n' && s[i] == '\n' {
            return Some(i - 1);
        }
        i += 1;
    }
    None
}

/// Finds the last pair of line feeds.
pub fn last_blank(s: &[char]) -> (at: Option<usize>)
    ensures
        match at {
            Some(i) => is_last_blank(s@, i as int),
            None => forall|j: int| !blank_at(s@, j),
        },
{
    if s.len() < 2 {
        return None;
    }
    let mut i: usize = s.len() - 1;
    while i > 0
        invariant
            i < s@.len(),
            forall|j: int| i <= j ==> !blank_at(s@, j),
        decreases i,
    {
        i -= 1;
        if s[i] == '\n' && s[i + 1] == '\n' {
            return Some(i);
        }
    }
    None
}

/// Copies `s` without its whitespace characters.
pub fn without_whitespace(s: &[char]) -> (v: Vec<char>)
    ensures
        v@ == s@.filter(non_whitespace()),
{
    let mut v: Vec<char> = Vec::new();
    let mut i: usize = 0;
    proof {
        reveal(Seq::filter);
        assert(s@.take(0) =~= Seq::<char>::empty());
    }
    while i < s.len()
        invariant
            i <= s@.len(),
            v@ == s@.take(i as int).filter(non_whitespace()),
        decreases s@.len() - i,
    {
        proof {
            reveal(Seq::filter);
            assert(s@.take(i + 1).drop_last() =~= s@.take(i as int));
        }
        if !char_is_whitespace(s[i]) {
            v.push(s[i]);
        }
        i += 1;
    }
    assert(s@.take(s@.len() as int) =~= s@);
    v
}

} // verus!
