//! Character-level text model: extracting the characters of a string,
//! ASCII lowercasing, substring containment and splitting text into lines.
//!
//! Lines are maximal runs of characters terminated by `\n`, `\r\n` or the
//! end of the text; the terminator is not part of the line.

use vstd::prelude::*;
use vstd::string::StrSliceExecFns;

verus! {

/// The ASCII simple lowercase mapping: uppercase letters are shifted into
/// the lowercase range, every other character is left as it is.
pub open spec fn lower_char(c: char) -> char {
    if 'A' <= c && c <= 'Z' {
        ((c as u32 + 32) as char)
    } else {
        c
    }
}

/// A sequence of characters, lowercased character by character.
pub open spec fn lower_seq(s: Seq<char>) -> Seq<char> {
    s.map_values(|c: char| lower_char(c))
}

/// Lowercase a single character, ASCII-only.
pub fn to_lower_char(c: char) -> (r: char)
    ensures
        r == lower_char(c),
{
    match c {
        'A' => 'a',
        'B' => 'b',
        'C' => 'c',
        'D' => 'd',
        'E' => 'e',
        'F' => 'f',
        'G' => 'g',
        'H' => 'h',
        'I' => 'i',
        'J' => 'j',
        'K' => 'k',
        'L' => 'l',
        'M' => 'm',
        'N' => 'n',
        'O' => 'o',
        'P' => 'p',
        'Q' => 'q',
        'R' => 'r',
        'S' => 's',
        'T' => 't',
        'U' => 'u',
        'V' => 'v',
        'W' => 'w',
        'X' => 'x',
        'Y' => 'y',
        'Z' => 'z',
        _ => c,
    }
}

/// Lowercase a vector of characters, ASCII-only.
pub fn lower_vec(v: &Vec<char>) -> (r: Vec<char>)
    ensures
        r@ == lower_seq(v@),
{
    let mut r: Vec<char> = Vec::new();
    let n = v.len();
    for i in 0..n
        invariant
            n == v@.len(),
            r@ =~= lower_seq(v@.take(i as int)),
    {
        r.push(to_lower_char(v[i]));
        proof {
            assert(v@.take(i + 1) =~= v@.take(i as int).push(v@[i as int]));
        }
    }
    proof {
        assert(v@.take(n as int) =~= v@);
    }
    r
}

/// The characters of a string slice, as a vector.
pub fn chars_of(s: &str) -> (v: Vec<char>)
    ensures
        v@ == s@,
{
    let n = s.unicode_len();
    let mut v: Vec<char> = Vec::new();
    for i in 0..n
        invariant
            n == s@.len(),
            v@ =~= s@.subrange(0, i as int),
    {
        v.push(s.get_char(i));
    }
    proof {
        assert(v@ =~= s@);
    }
    v
}

/// `needle` occurs in `hay` starting at index `i`.
pub open spec fn contains_at(hay: Seq<char>, needle: Seq<char>, i: int) -> bool {
    0 <= i && i + needle.len() <= hay.len() && hay.subrange(i, i + needle.len()) == needle
}

/// `needle` occurs somewhere in `hay` as a contiguous run.
/// The empty needle occurs in every haystack.
pub open spec fn has_substring(hay: Seq<char>, needle: Seq<char>) -> bool {
    exists|i: int| contains_at(hay, needle, i)
}

fn match_at(hay: &Vec<char>, needle: &Vec<char>, at: usize) -> (b: bool)
    requires
        at + needle@.len() <= hay@.len(),
    ensures
        b == contains_at(hay@, needle@, at as int),
{
    let hn = hay.len();
    let n = needle.len();
    let mut j: usize = 0;
    while j < n
        invariant
            n == needle@.len(),
            hn == hay@.len(),
            at + n <= hn,
            j <= n,
            forall|k: int| 0 <= k < j ==> hay@[at + k] == needle@[k],
        decreases n - j,
    {
        if hay[at + j] != needle[j] {
            proof {
                assert(hay@.subrange(at as int, at + needle@.len())[j as int] == hay@[at + j]);
            }
            return false;
        }
        j += 1;
    }
    proof {
        assert(hay@.subrange(at as int, at + needle@.len()) =~= needle@);
    }
    true
}

/// Does `needle` occur contiguously in `hay`?
pub fn contains_sub(hay: &Vec<char>, needle: &Vec<char>) -> (b: bool)
    ensures
        b == has_substring(hay@, needle@),
{
    if needle.len() > hay.len() {
        return false;
    }
    if needle.len() == 0 {
        proof {
            assert(hay@.subrange(0, 0) =~= needle@);
            assert(contains_at(hay@, needle@, 0));
        }
        return true;
    }
    let hn = hay.len();
    let n = hn - needle.len();
    let mut i: usize = 0;
    while i <= n
        invariant
            1 <= needle@.len() <= hay@.len(),
            hn == hay@.len(),
            n == hay@.len() - needle@.len(),
            i <= n + 1,
            forall|k: int| 0 <= k < i ==> !contains_at(hay@, needle@, k),
        decreases n + 1 - i,
    {
        if match_at(hay, needle, i) {
            return true;
        }
        i += 1;
    }
    false
}

/// The index of the first occurrence of `c` in `s`, or `s.len()` if there
/// is none.
pub open spec fn first_index_of<A>(s: Seq<A>, c: A) -> int
    decreases s.len(),
{
    if s.len() == 0 {
        0
    } else if s[0] == c {
        0
    } else {
        1 + first_index_of(s.drop_first(), c)
    }
}

pub proof fn lemma_first_index_of<A>(s: Seq<A>, c: A)
    ensures
        0 <= first_index_of(s, c) <= s.len(),
        first_index_of(s, c) < s.len() ==> s[first_index_of(s, c)] == c,
        forall|k: int| 0 <= k < first_index_of(s, c) ==> s[k] != c,
    decreases s.len(),
{
    if s.len() == 0 {
    } else if s[0] == c {
    } else {
        lemma_first_index_of(s.drop_first(), c);
        assert forall|k: int| 0 <= k < first_index_of(s, c) implies s[k] != c by {
            if k > 0 {
                assert(s.drop_first()[k - 1] == s[k]);
            }
        }
    }
}

/// The index of the first occurrence of `c` in `v`, or the length of `v`
/// if there is none.
pub fn find_char(v: &Vec<char>, c: char) -> (r: usize)
    ensures
        r as int == first_index_of(v@, c),
{
    let n = v.len();
    let mut i: usize = 0;
    while i < n
        invariant
            n == v@.len(),
            i <= n,
            forall|k: int| 0 <= k < i ==> v@[k] != c,
        decreases n - i,
    {
        if v[i] == c {
            proof {
                lemma_first_index_of(v@, c);
            }
            return i;
        }
        i += 1;
    }
    proof {
        lemma_first_index_of(v@, c);
    }
    n
}

/// What `last_char_of_first_line` returns: the last character of the
/// first line of the text, or nothing when that line is empty or the text
/// has no line at all. A carriage return is dropped only as part of a
/// `\r\n` terminator; on an unterminated final line it is content.
pub open spec fn last_char_of_first_line_spec(t: Seq<char>) -> Option<char> {
    let f = first_index_of(t, '\n');
    let line = if f < t.len() {
        strip_cr(t.subrange(0, f))
    } else {
        t
    };
    if line.len() == 0 {
        None
    } else {
        Some(line.last())
    }
}

/// The last character of the first line of `text`, if any.
pub fn last_char_of_first_line(text: &str) -> (r: Option<char>)
    ensures
        r == last_char_of_first_line_spec(text@),
{
    let v = chars_of(text);
    let f = find_char(&v, '\n');
    proof {
        lemma_first_index_of(text@, '\n');
    }
    let end = if f < v.len() && f > 0 && v[f - 1] == '\r' {
        f - 1
    } else {
        f
    };
    proof {
        if (f as int) < text@.len() {
            assert(strip_cr(text@.subrange(0, f as int)) =~= text@.subrange(0, end as int));
        } else {
            assert(text@.subrange(0, end as int) =~= text@);
        }
    }
    if end == 0 {
        None
    } else {
        Some(v[end - 1])
    }
}

/// A line as yielded to the caller: a trailing carriage return left by a
/// `\r\n` terminator is not part of the line.
pub open spec fn strip_cr(l: Seq<char>) -> Seq<char> {
    if l.len() > 0 && l.last() == '\r' {
        l.drop_last()
    } else {
        l
    }
}

/// The lines of a text, split at `\n`, with a `\r` immediately before the
/// `\n` dropped; a final non-terminated line is kept, while a final line
/// terminator opens no further line.
pub open spec fn lines_spec(s: Seq<char>) -> Seq<Seq<char>>
    decreases s.len(),
{
    if s.len() == 0 {
        Seq::empty()
    } else {
        let i = first_index_of(s, '\n');
        if 0 <= i < s.len() {
            seq![strip_cr(s.subrange(0, i))] + lines_spec(s.subrange(i + 1, s.len() as int))
        } else {
            seq![s]
        }
    }
}

/// Splitting off the first line: if the first `\n` of the tail of `c`
/// starting at `start` is at `i`, the lines of that tail are the stripped
/// segment up to `i` followed by the lines after `i`.
proof fn lemma_lines_split(c: Seq<char>, start: int, i: int)
    requires
        0 <= start <= i < c.len(),
        c[i] == '\n',
        forall|k: int| start <= k < i ==> c[k] != '\n',
    ensures
        lines_spec(c.subrange(start, c.len() as int)) == seq![
            strip_cr(c.subrange(start, i)),
        ] + lines_spec(c.subrange(i + 1, c.len() as int)),
{
    let s = c.subrange(start, c.len() as int);
    lemma_first_index_of(s, '\n');
    let f = first_index_of(s, '\n');
    assert(s[i - start] == c[i]);
    if f < i - start {
        assert(s[f] == c[start + f]);
        assert(false);
    }
    if f > i - start {
        assert(false);
    }
    assert(s.subrange(0, f) =~= c.subrange(start, i));
    assert(s.subrange(f + 1, s.len() as int) =~= c.subrange(i + 1, c.len() as int));
}

/// A tail without `\n` forms a single final line, or no line at all when
/// it is empty.
proof fn lemma_lines_tail(c: Seq<char>, start: int)
    requires
        0 <= start <= c.len(),
        forall|k: int| start <= k < c.len() ==> c[k] != '\n',
    ensures
        lines_spec(c.subrange(start, c.len() as int)) == if start == c.len() {
            Seq::<Seq<char>>::empty()
        } else {
            seq![c.subrange(start, c.len() as int)]
        },
{
    let s = c.subrange(start, c.len() as int);
    lemma_first_index_of(s, '\n');
    let f = first_index_of(s, '\n');
    if start < c.len() {
        if f < s.len() {
            assert(s[f] == c[start + f]);
            assert(false);
        }
    }
}

/// The views of a vector of string slices.
pub open spec fn views_of(lines: Seq<&str>) -> Seq<Seq<char>> {
    lines.map_values(|l: &str| l@)
}

/// Split a text into its lines. Each yielded line is a slice of the
/// input, without its terminator.
pub fn split_lines<'a>(contents: &'a str) -> (lines: Vec<&'a str>)
    ensures
        views_of(lines@) == lines_spec(contents@),
{
    let cv = chars_of(contents);
    let n = cv.len();
    let mut lines: Vec<&'a str> = Vec::new();
    let mut start: usize = 0;
    let mut i: usize = 0;
    proof {
        assert(contents@.subrange(0, n as int) =~= contents@);
    }
    while i < n
        invariant
            cv@ == contents@,
            n == cv@.len(),
            start <= i <= n,
            views_of(lines@) + lines_spec(contents@.subrange(start as int, n as int))
                == lines_spec(contents@),
            forall|k: int| start <= k < i ==> contents@[k] != '\n',
        decreases n - i,
    {
        if cv[i] == '\n' {
            let end = if i > start && cv[i - 1] == '\r' {
                i - 1
            } else {
                i
            };
            let line = contents.substring_char(start, end);
            proof {
                lemma_lines_split(contents@, start as int, i as int);
                assert(strip_cr(contents@.subrange(start as int, i as int)) =~= contents@.subrange(
                    start as int,
                    end as int,
                ));
                assert(views_of(lines@.push(line)) =~= views_of(lines@).push(line@));
                assert(views_of(lines@).push(line@) + lines_spec(
                    contents@.subrange(i + 1, n as int),
                ) =~= views_of(lines@) + (seq![line@] + lines_spec(
                    contents@.subrange(i + 1, n as int),
                )));
            }
            lines.push(line);
            start = i + 1;
        }
        i += 1;
    }
    proof {
        lemma_lines_tail(contents@, start as int);
    }
    if start < n {
        let line = contents.substring_char(start, n);
        proof {
            assert(views_of(lines@.push(line)) =~= views_of(lines@).push(line@));
            assert(views_of(lines@).push(line@) =~= views_of(lines@) + seq![line@]);
        }
        lines.push(line);
    }
    lines
}

} // verus!
