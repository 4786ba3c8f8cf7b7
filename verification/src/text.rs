//! Character sequences: searching, trimming and splitting into lines.
//!
//! A string is handled as the sequence of its characters, which is also its
//! view, so every function here is stated over `Seq<char>`.

use vstd::prelude::*;
use vstd::std_specs::iter::IteratorSpec;

verus! {

/// Whether `c` carries the Unicode property `White_Space`.
pub uninterp spec fn is_white_space(c: char) -> bool;

/// `char::is_whitespace` reports the `White_Space` property of its argument.
pub assume_specification[ char::is_whitespace ](c: char) -> (b: bool)
    ensures
        b == is_white_space(c),
;

/// `String::push` appends one character to the end of the string.
pub assume_specification[ String::push ](s: &mut String, c: char)
    ensures
        final(s)@ == old(s)@.push(c),
;

/// Index of the first `c` in `s` at or after `from`; `s.len()` where there is none.
pub open spec fn find_from(s: Seq<char>, c: char, from: int) -> int
    decreases s.len() - from,
{
    if from >= s.len() {
        s.len() as int
    } else if s[from] == c {
        from
    } else {
        find_from(s, c, from + 1)
    }
}

/// `find_from` lands on the first occurrence and skips nothing that matches.
pub proof fn lemma_find_from(s: Seq<char>, c: char, from: int)
    requires
        0 <= from <= s.len(),
    ensures
        from <= find_from(s, c, from) <= s.len(),
        find_from(s, c, from) < s.len() ==> s[find_from(s, c, from)] == c,
        forall|j: int| from <= j < find_from(s, c, from) ==> s[j] != c,
    decreases s.len() - from,
{
    if from < s.len() && s[from] != c {
        lemma_find_from(s, c, from + 1);
    }
}

/// A line without the carriage return that preceded its line feed.
pub open spec fn without_cr(line: Seq<char>) -> Seq<char> {
    if line.len() > 0 && line.last() == '\r' {
        line.drop_last()
    } else {
        line
    }
}

/// The lines of `s` that begin at or after `start`.
pub open spec fn lines_from(s: Seq<char>, start: int) -> Seq<Seq<char>>
    decreases s.len() - start,
{
    if start < 0 || start >= s.len() {
        Seq::empty()
    } else {
        let end = find_from(s, '\n', start);
        proof {
            lemma_find_from(s, '\n', start);
        }
        if end >= s.len() {
            seq![s.subrange(start, s.len() as int)]
        } else {
            seq![without_cr(s.subrange(start, end))] + lines_from(s, end + 1)
        }
    }
}

/// The lines of `s`. A line ends at a line feed, or at a carriage return
/// directly followed by one; neither belongs to the line. The last line needs
/// no line ending, and a line ending at the very end opens no further line.
pub open spec fn lines(s: Seq<char>) -> Seq<Seq<char>> {
    lines_from(s, 0)
}

/// `s` without its leading and trailing white space.
pub open spec fn trimmed(s: Seq<char>) -> Seq<char> {
    s.subrange(trim_start_index(s, 0), trim_end_index(s, trim_start_index(s, 0), s.len() as int))
}

/// Index of the first character at or after `from` that is no white space.
pub open spec fn trim_start_index(s: Seq<char>, from: int) -> int
    decreases s.len() - from,
{
    if 0 <= from < s.len() && is_white_space(s[from]) {
        trim_start_index(s, from + 1)
    } else {
        from
    }
}

/// End of the part of `s[low..to]` that remains once trailing white space is cut.
pub open spec fn trim_end_index(s: Seq<char>, low: int, to: int) -> int
    decreases to - low,
{
    if low < to <= s.len() && is_white_space(s[to - 1]) {
        trim_end_index(s, low, to - 1)
    } else {
        to
    }
}

/// Whether `token` stands in `text` at index `at`.
pub open spec fn occurs_at(text: Seq<char>, token: Seq<char>, at: int) -> bool {
    0 <= at && at + token.len() <= text.len() && text.subrange(at, at + token.len()) == token
}

/// Number of indices below `end` at which `token` stands in `text`.
pub open spec fn occurrences_before(text: Seq<char>, token: Seq<char>, end: int) -> nat
    decreases end,
{
    if end <= 0 {
        0
    } else {
        occurrences_before(text, token, end - 1) + (if occurs_at(text, token, end - 1) {
            1nat
        } else {
            0nat
        })
    }
}

/// Number of times `token` occurs in `text`.
pub open spec fn occurrences(text: Seq<char>, token: Seq<char>) -> nat {
    occurrences_before(text, token, text.len() as int)
}

/// A token occurs in itself once.
pub proof fn lemma_occurs_once_in_itself(token: Seq<char>)
    requires
        token.len() > 0,
    ensures
        occurrences(token, token) == 1,
{
    assert(token.subrange(0, token.len() as int) =~= token);
    lemma_no_occurrence_past_start(token, token.len() as int);
}

proof fn lemma_no_occurrence_past_start(token: Seq<char>, end: int)
    requires
        token.len() > 0,
        1 <= end <= token.len(),
        occurs_at(token, token, 0),
    ensures
        occurrences_before(token, token, end) == 1,
    decreases end,
{
    if end > 1 {
        lemma_no_occurrence_past_start(token, end - 1);
    } else {
        assert(occurrences_before(token, token, 0) == 0);
    }
}

/// Up to the line feed, a token occurs in `a + "\n" + b` where it occurs in `a`.
proof fn lemma_occurrences_left(a: Seq<char>, b: Seq<char>, token: Seq<char>, end: int)
    requires
        token.len() > 0,
        !token.contains('\n'),
        0 <= end <= a.len() + 1,
    ensures
        occurrences_before(a + seq!['\n'] + b, token, end) == occurrences_before(
            a,
            token,
            if end <= a.len() {
                end
            } else {
                a.len() as int
            },
        ),
    decreases end,
{
    let text = a + seq!['\n'] + b;
    if end > 0 {
        lemma_occurrences_left(a, b, token, end - 1);
        let at = end - 1;
        if occurs_at(text, token, at) {
            if at + token.len() > a.len() {
                let k = a.len() - at;
                assert(text.subrange(at, at + token.len())[k] == text[at + k]);
                assert(token[k] == '\n');
                assert(false);
            }
            assert(a.subrange(at, at + token.len()) =~= text.subrange(at, at + token.len()));
        }
        if occurs_at(a, token, at) {
            assert(a.subrange(at, at + token.len()) =~= text.subrange(at, at + token.len()));
        }
    }
}

/// Behind the line feed, a token occurs in `a + "\n" + b` where it occurs in `b`.
proof fn lemma_occurrences_right(a: Seq<char>, b: Seq<char>, token: Seq<char>, end: int)
    requires
        token.len() > 0,
        !token.contains('\n'),
        0 <= end <= b.len(),
    ensures
        occurrences_before(a + seq!['\n'] + b, token, a.len() + 1 + end) == occurrences(a, token)
            + occurrences_before(b, token, end),
    decreases end,
{
    let text = a + seq!['\n'] + b;
    if end > 0 {
        lemma_occurrences_right(a, b, token, end - 1);
        let at = end - 1;
        let shifted = a.len() + 1 + at;
        if at + token.len() <= b.len() {
            assert(b.subrange(at, at + token.len()) =~= text.subrange(
                shifted,
                shifted + token.len(),
            ));
        }
    } else {
        lemma_occurrences_left(a, b, token, a.len() as int + 1);
    }
}

/// A token without a line feed occurs in two texts joined by a line feed as
/// often as in the two apart.
pub proof fn lemma_occurrences_across_line_feed(a: Seq<char>, b: Seq<char>, token: Seq<char>)
    requires
        token.len() > 0,
        !token.contains('\n'),
    ensures
        occurrences(a + seq!['\n'] + b, token) == occurrences(a, token) + occurrences(b, token),
{
    lemma_occurrences_right(a, b, token, b.len() as int);
}

/// The strings of `strings`, each as its characters.
pub open spec fn texts(strings: Seq<String>) -> Seq<Seq<char>> {
    strings.map_values(|s: String| s@)
}

/// The characters of `s`, in order.
pub fn chars_of(s: &str) -> (out: Vec<char>)
    ensures
        out@ == s@,
{
    let mut out: Vec<char> = Vec::new();
    for c in it: s.chars()
        invariant
            out@ == it.seq().take(it.index()),
            it.seq() == s@,
    {
        out.push(c);
    }
    out
}

/// The string that holds exactly the characters of `chars`.
pub fn string_of(chars: &[char]) -> (out: String)
    ensures
        out@ == chars@,
{
    let mut out = String::new();
    let mut i: usize = 0;
    while i < chars.len()
        invariant
            i <= chars.len(),
            out@ == chars@.take(i as int),
        decreases chars.len() - i,
    {
        out.push(chars[i]);
        i += 1;
    }
    out
}

/// A copy of `text[from..to]`.
pub fn copy_range(text: &[char], from: usize, to: usize) -> (out: Vec<char>)
    requires
        from <= to <= text.len(),
    ensures
        out@ == text@.subrange(from as int, to as int),
{
    let mut out: Vec<char> = Vec::new();
    let mut i: usize = from;
    while i < to
        invariant
            from <= i <= to <= text.len(),
            out@ == text@.subrange(from as int, i as int),
        decreases to - i,
    {
        out.push(text[i]);
        i += 1;
    }
    out
}

/// Position of the first `c` in `text` at or after `from`, or `text.len()`.
pub fn find_char(text: &[char], c: char, from: usize) -> (at: usize)
    requires
        from <= text.len(),
    ensures
        at == find_from(text@, c, from as int),
        from <= at <= text.len(),
{
    let mut i: usize = from;
    while i < text.len() && text[i] != c
        invariant
            from <= i <= text.len(),
            find_from(text@, c, from as int) == find_from(text@, c, i as int),
        decreases text.len() - i,
    {
        i += 1;
    }
    i
}

/// Whether `text` begins with `prefix`.
pub fn starts_with(text: &[char], prefix: &[char]) -> (yes: bool)
    ensures
        yes == prefix@.is_prefix_of(text@),
{
    if prefix.len() > text.len() {
        return false;
    }
    let mut i: usize = 0;
    while i < prefix.len()
        invariant
            i <= prefix.len() <= text.len(),
            forall|j: int| 0 <= j < i ==> text@[j] == prefix@[j],
        decreases prefix.len() - i,
    {
        if text[i] != prefix[i] {
            return false;
        }
        i += 1;
    }
    assert(prefix@ =~= text@.subrange(0, prefix@.len() as int));
    true
}

/// `text` without its leading and trailing white space.
pub fn trim(text: &[char]) -> (out: Vec<char>)
    ensures
        out@ == trimmed(text@),
{
    let mut low: usize = 0;
    while low < text.len() && text[low].is_whitespace()
        invariant
            low <= text.len(),
            trim_start_index(text@, 0) == trim_start_index(text@, low as int),
        decreases text.len() - low,
    {
        low += 1;
    }
    let mut high: usize = text.len();
    while low < high && text[high - 1].is_whitespace()
        invariant
            low <= high <= text.len(),
            trim_end_index(text@, low as int, text@.len() as int) == trim_end_index(
                text@,
                low as int,
                high as int,
            ),
        decreases high - low,
    {
        high -= 1;
    }
    copy_range(text, low, high)
}

/// The lines of `text`.
pub fn split_lines(text: &[char]) -> (out: Vec<Vec<char>>)
    ensures
        out@.len() == lines(text@).len(),
        forall|i: int| 0 <= i < out@.len() ==> (#[trigger] out@[i])@ == lines(text@)[i],
{
    let mut out: Vec<Vec<char>> = Vec::new();
    let mut start: usize = 0;
    while start < text.len()
        invariant
            start <= text.len(),
            lines(text@).len() == out@.len() + lines_from(text@, start as int).len(),
            forall|i: int| 0 <= i < out@.len() ==> (#[trigger] out@[i])@ == lines(text@)[i],
            forall|i: int|
                0 <= i < lines_from(text@, start as int).len() ==> lines(text@)[out@.len() + i]
                    == #[trigger] lines_from(text@, start as int)[i],
        decreases text.len() - start,
    {
        let end: usize = find_char(text, '\n', start);
        let ghost rest = lines_from(text@, start as int);
        let ghost done = out@.len() as int;
        if end < text.len() {
            let cut: usize = if start < end && text[end - 1] == '\r' {
                (end - 1) as usize
            } else {
                end
            };
            let line = copy_range(text, start, cut);
            assert(line@ == rest[0]) by {
                let whole = text@.subrange(start as int, end as int);
                if cut < end {
                    assert(whole.last() == '\r');
                    assert(whole.drop_last() =~= text@.subrange(start as int, cut as int));
                }
            }
            out.push(line);
            assert(rest =~= seq![rest[0]] + lines_from(text@, end + 1));
            start = end + 1;
            assert forall|i: int| 0 <= i < lines_from(text@, start as int).len() implies lines(
                text@,
            )[out@.len() + i] == #[trigger] lines_from(text@, start as int)[i] by {
                assert(lines_from(text@, start as int)[i] == rest[i + 1]);
            }
        } else {
            let line = copy_range(text, start, end);
            assert(line@ == rest[0]);
            out.push(line);
            start = end;
        }
        assert(lines(text@)[done] == rest[0]);
    }
    out
}

} // verus!
