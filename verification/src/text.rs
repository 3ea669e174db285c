//! Text: white space, lines, lists of revsets and decimal numbers.

use vstd::prelude::*;

verus! {

/// `String::push` appends one character to the end of the string.
pub assume_specification[ String::push ](s: &mut String, ch: char)
    ensures
        final(s)@ == old(s)@.push(ch),
;

/// The contents of several strings.
pub open spec fn texts(strings: Seq<String>) -> Seq<Seq<char>> {
    strings.map_values(|s: String| s@)
}

/// The contents of a string that may be missing.
pub open spec fn option_text(string: Option<String>) -> Option<Seq<char>> {
    match string {
        Some(s) => Some(s@),
        None => None,
    }
}

/// The characters with the Unicode property `White_Space`.
pub open spec fn white_space(c: char) -> bool {
    ||| '\u{9}' <= c <= '\u{d}'
    ||| c == '\u{20}'
    ||| c == '\u{85}'
    ||| c == '\u{a0}'
    ||| c == '\u{1680}'
    ||| '\u{2000}' <= c <= '\u{200a}'
    ||| c == '\u{2028}'
    ||| c == '\u{2029}'
    ||| c == '\u{202f}'
    ||| c == '\u{205f}'
    ||| c == '\u{3000}'
}

/// `s` without the white space that it starts with.
pub open spec fn trim_start(s: Seq<char>) -> Seq<char>
    decreases s.len(),
{
    if s.len() > 0 && white_space(s.first()) {
        trim_start(s.drop_first())
    } else {
        s
    }
}

/// `s` without the white space that it ends with.
pub open spec fn trim_end(s: Seq<char>) -> Seq<char>
    decreases s.len(),
{
    if s.len() > 0 && white_space(s.last()) {
        trim_end(s.drop_last())
    } else {
        s
    }
}

/// `s` without the white space on either side.
pub open spec fn trim(s: Seq<char>) -> Seq<char> {
    trim_end(trim_start(s))
}

/// How many characters of `s` stand before its first line feed, or in all of it.
pub open spec fn first_line_len(s: Seq<char>) -> nat
    decreases s.len(),
{
    if s.len() == 0 || s.first() == '\n' {
        0
    } else {
        1 + first_line_len(s.drop_first())
    }
}

/// `s` without the carriage return that it may end with.
pub open spec fn without_carriage_return(s: Seq<char>) -> Seq<char> {
    if s.len() > 0 && s.last() == '\r' {
        s.drop_last()
    } else {
        s
    }
}

/// The lines of a text.
///
/// A line ends in a line feed or in a carriage return and a line feed, which are not part of
/// it. The last line need not have an end.
pub open spec fn lines(s: Seq<char>) -> Seq<Seq<char>>
    decreases s.len(),
{
    let n = first_line_len(s) as int;
    if s.len() == 0 {
        seq![]
    } else if n >= s.len() {
        seq![s]
    } else {
        seq![without_carriage_return(s.take(n))] + lines(s.skip(n + 1))
    }
}

/// Whether a trimmed line is a revset: neither blank nor a comment.
pub open spec fn is_revset(line: Seq<char>) -> bool {
    line.len() > 0 && line.first() != '#'
}

/// The revsets among lines: the lines, each trimmed, without the blank ones and those that start
/// with `#`.
pub open spec fn revsets_among(lines: Seq<Seq<char>>) -> Seq<Seq<char>> {
    lines.map_values(|line: Seq<char>| trim(line)).filter(|line: Seq<char>| is_revset(line))
}

/// The revsets that a file lists.
pub open spec fn revset_lines(text: Seq<char>) -> Seq<Seq<char>> {
    revsets_among(lines(text))
}

/// Tells white space from other characters.
pub fn is_whitespace(c: char) -> (r: bool)
    ensures
        r == white_space(c),
{
    ('\u{9}' <= c && c <= '\u{d}') || c == '\u{20}' || c == '\u{85}' || c == '\u{a0}' || c
        == '\u{1680}' || ('\u{2000}' <= c && c <= '\u{200a}') || c == '\u{2028}' || c
        == '\u{2029}' || c == '\u{202f}' || c == '\u{205f}' || c == '\u{3000}'
}

/// The characters of a string.
pub(crate) fn chars_of(s: &str) -> (v: Vec<char>)
    ensures
        v@ == s@,
{
    let mut v: Vec<char> = Vec::new();
    for c in iter: s.chars()
        invariant
            iter.seq() == s@,
            v@ == s@.take(iter.index()),
    {
        v.push(c);
        assert(s@.take(iter.index() + 1) == s@.take(iter.index()).push(c));
    }
    assert(s@.take(s@.len() as int) == s@);
    v
}

/// The string of the characters from `from` up to `to`.
fn string_of(chars: &Vec<char>, from: usize, to: usize) -> (s: String)
    requires
        from <= to <= chars@.len(),
    ensures
        s@ == chars@.subrange(from as int, to as int),
{
    let mut s = String::new();
    for i in from..to
        invariant
            to <= chars@.len(),
            s@ == chars@.subrange(from as int, i as int),
    {
        s.push(chars[i]);
        assert(chars@.subrange(from as int, i + 1) == chars@.subrange(from as int, i as int).push(
            chars@[i as int],
        ));
    }
    s
}

/// The text between two positions, without the white space on either side.
fn trimmed_string(chars: &Vec<char>, from: usize, to: usize) -> (s: String)
    requires
        from <= to <= chars@.len(),
    ensures
        s@ == trim(chars@.subrange(from as int, to as int)),
{
    let mut start: usize = from;
    while start < to && is_whitespace(chars[start])
        invariant
            from <= start <= to <= chars@.len(),
            trim_start(chars@.subrange(from as int, to as int)) == trim_start(
                chars@.subrange(start as int, to as int),
            ),
        decreases to - start,
    {
        assert(chars@.subrange(start as int, to as int).drop_first() == chars@.subrange(
            start + 1,
            to as int,
        ));
        start = start + 1;
    }
    let mut end: usize = to;
    while start < end && is_whitespace(chars[end - 1])
        invariant
            from <= start <= end <= to <= chars@.len(),
            trim_end(chars@.subrange(start as int, to as int)) == trim_end(
                chars@.subrange(start as int, end as int),
            ),
        decreases end - start,
    {
        assert(chars@.subrange(start as int, end as int).drop_last() == chars@.subrange(
            start as int,
            end - 1,
        ));
        end = end - 1;
    }
    string_of(chars, start, end)
}

/// The position of the first line feed at or after `from`, or the end of the text.
fn line_end(chars: &Vec<char>, from: usize) -> (end: usize)
    requires
        from <= chars@.len(),
    ensures
        end == from + first_line_len(chars@.skip(from as int)),
        end <= chars@.len(),
        end < chars@.len() ==> chars@[end as int] == '\n',
{
    let mut end: usize = from;
    while end < chars.len() && chars[end] != '\n'
        invariant
            from <= end <= chars@.len(),
            from + first_line_len(chars@.skip(from as int)) == end + first_line_len(
                chars@.skip(end as int),
            ),
        decreases chars@.len() - end,
    {
        assert(chars@.skip(end as int).drop_first() == chars@.skip(end + 1));
        end = end + 1;
    }
    end
}

/// Reads the revsets that a file lists, in order: one to a line, where white space around it
/// does not count, and blank lines and lines that start with `#` are passed over.
pub fn parse_revset_file(text: &str) -> (revsets: Vec<String>)
    ensures
        texts(revsets@) == revset_lines(text@),
        revsets@.len() == revset_lines(text@).len(),
        forall|i: int| 0 <= i < revsets@.len() ==> (#[trigger] revsets@[i])@ == revset_lines(text@)[i],
{
    let chars = chars_of(text);
    let ghost all = lines(text@);
    let ghost trimmed = all.map_values(|line: Seq<char>| trim(line));
    let ghost kept = |line: Seq<char>| is_revset(line);
    let ghost mut done: int = 0;
    let mut revsets: Vec<String> = Vec::new();
    let mut pos: usize = 0;
    proof {
        assert(chars@.skip(0) == chars@);
        assert(all.skip(0) == all);
        assert(texts(revsets@) == trimmed.take(0).filter(kept));
    }
    while pos < chars.len()
        invariant
            chars@ == text@,
            all == lines(text@),
            trimmed == all.map_values(|line: Seq<char>| trim(line)),
            kept == (|line: Seq<char>| is_revset(line)),
            pos <= chars@.len(),
            0 <= done <= all.len(),
            lines(chars@.skip(pos as int)) == all.skip(done),
            texts(revsets@) == trimmed.take(done).filter(kept),
        decreases chars@.len() - pos,
    {
        let ghost rest = chars@.skip(pos as int);
        let end = line_end(&chars, pos);
        let mut stop: usize = end;
        if end < chars.len() && pos < end && chars[end - 1] == '\r' {
            stop = end - 1;
        }
        let line = trimmed_string(&chars, pos, stop);
        proof {
            let n = first_line_len(rest) as int;
            assert(lines(rest).len() > 0);
            assert(rest.take(n) == chars@.subrange(pos as int, end as int));
            assert(lines(rest)[0] == chars@.subrange(pos as int, stop as int));
            assert(all.skip(done)[0] == all[done]);
            assert(line@ == trimmed[done]);
            if n < rest.len() {
                assert(lines(rest).drop_first() == lines(rest.skip(n + 1)));
                assert(rest.skip(n + 1) == chars@.skip(end + 1));
            } else {
                assert(chars@.skip(end as int) == Seq::<char>::empty());
                assert(lines(rest).drop_first() == lines(chars@.skip(end as int)));
            }
            assert(all.skip(done).drop_first() == all.skip(done + 1));
            assert(trimmed.take(done + 1).drop_last() == trimmed.take(done));
            assert(trimmed.take(done + 1).last() == line@);
            reveal(Seq::filter);
        }
        let comment = !line.as_str().is_empty() && line.as_str().get_char(0) == '#';
        if !line.as_str().is_empty() && !comment {
            let ghost before = revsets@;
            revsets.push(line);
            assert(texts(revsets@) == texts(before).push(line@));
        }
        proof {
            done = done + 1;
        }
        pos = if end < chars.len() { end + 1 } else { end };
    }
    proof {
        assert(all.skip(done).len() == 0);
        assert(trimmed.take(done) == trimmed);
        assert forall|i: int| 0 <= i < revsets@.len() implies (#[trigger] revsets@[i])@
            == revset_lines(text@)[i] by {
            assert(texts(revsets@)[i] == revsets@[i]@);
        }
    }
    revsets
}

/// The decimal digit of a number below ten.
pub open spec fn digit(n: nat) -> char {
    ('0' as nat + n) as char
}

/// A number in decimal notation.
pub open spec fn decimal(n: nat) -> Seq<char>
    decreases n,
{
    if n < 10 {
        seq![digit(n)]
    } else {
        decimal(n / 10).push(digit(n % 10))
    }
}

/// Writes a number in decimal notation.
pub fn format_decimal(n: usize) -> (s: String)
    ensures
        s@ == decimal(n as nat),
    decreases n,
{
    let mut s = if n < 10 {
        String::new()
    } else {
        format_decimal(n / 10)
    };
    let d: u8 = (n % 10) as u8;
    s.push(('0' as u8 + d) as char);
    s
}

} // verus!
