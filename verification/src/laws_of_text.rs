//! What the reading of text and the writing of numbers are for.

use vstd::prelude::*;

use crate::laws::{
    law_revset_lines_of_parts, lemma_one_line, lemma_trim_end, lemma_trim_start,
};
use crate::report::{duration_text, revset_report, Elapsed};
use crate::text::{
    decimal, option_text, revset_lines, texts, trim, trim_end, trim_start, white_space,
};

verus! {

/// The contents of strings are those of each string, in order.
pub proof fn law_texts(strings: Seq<String>, i: int)
    requires
        0 <= i < strings.len(),
    ensures
        texts(strings).len() == strings.len(),
        texts(strings)[i] == strings[i]@,
{
}

/// The contents of a string that may be missing are there where the string is.
pub proof fn law_option_text(string: Option<String>)
    ensures
        string is None ==> option_text(string) is None,
        string is Some ==> option_text(string) == Some((string->0)@),
{
}

/// White space is: tab, line feed, vertical tab, form feed, carriage return, space, next line,
/// no-break space, Ogham space, the spaces from en quad to hair space, line separator, paragraph
/// separator, narrow no-break space, mathematical space and ideographic space.
pub proof fn law_white_space(c: char)
    ensures
        white_space(c) <==> {
            let n = c as int;
            ||| 0x9 <= n <= 0xd
            ||| n == 0x20
            ||| n == 0x85
            ||| n == 0xa0
            ||| n == 0x1680
            ||| 0x2000 <= n <= 0x200a
            ||| n == 0x2028
            ||| n == 0x2029
            ||| n == 0x202f
            ||| n == 0x205f
            ||| n == 0x3000
        },
{
}

proof fn lemma_trim_start_blank(blank: Seq<char>, s: Seq<char>)
    requires
        forall|i: int| 0 <= i < blank.len() ==> white_space(#[trigger] blank[i]),
    ensures
        trim_start(blank + s) == trim_start(s),
    decreases blank.len(),
{
    if blank.len() == 0 {
        assert(blank + s == s);
    } else {
        let rest = blank.drop_first();
        assert(white_space(blank[0]));
        assert((blank + s).drop_first() == rest + s);
        assert forall|i: int| 0 <= i < rest.len() implies white_space(#[trigger] rest[i]) by {
            assert(rest[i] == blank[i + 1]);
        }
        lemma_trim_start_blank(rest, s);
    }
}

proof fn lemma_trim_end_blank(s: Seq<char>, blank: Seq<char>)
    requires
        forall|i: int| 0 <= i < blank.len() ==> white_space(#[trigger] blank[i]),
    ensures
        trim_end(s + blank) == trim_end(s),
    decreases blank.len(),
{
    if blank.len() == 0 {
        assert(s + blank == s);
    } else {
        let rest = blank.drop_last();
        assert(white_space(blank[blank.len() - 1]));
        assert((s + blank).drop_last() == s + rest);
        assert forall|i: int| 0 <= i < rest.len() implies white_space(#[trigger] rest[i]) by {
            assert(rest[i] == blank[i]);
        }
        lemma_trim_end_blank(s, rest);
    }
}

/// Trimming takes away exactly the white space on either side, however much it is, and nothing
/// within.
pub proof fn law_trim_takes_white_space(before: Seq<char>, kept: Seq<char>, after: Seq<char>)
    requires
        forall|i: int| 0 <= i < before.len() ==> white_space(#[trigger] before[i]),
        forall|i: int| 0 <= i < after.len() ==> white_space(#[trigger] after[i]),
        kept.len() > 0 ==> !white_space(kept.first()) && !white_space(kept.last()),
    ensures
        trim(before + kept + after) == kept,
{
    assert(before + kept + after == before + (kept + after));
    lemma_trim_start_blank(before, kept + after);
    if kept.len() > 0 {
        assert((kept + after).first() == kept.first());
        lemma_trim_end_blank(kept, after);
    } else {
        let none = Seq::<char>::empty();
        assert(kept + after == after + none);
        lemma_trim_start_blank(after, none);
        assert(trim(before + kept + after) == kept);
    }
}

/// One line lists what is left of it once it is trimmed, unless nothing is left or it starts
/// with `#`. These are the only lines that are passed over.
pub proof fn law_one_line(line: Seq<char>)
    requires
        !line.contains('\n'),
    ensures
        trim(line).len() > 0 && trim(line)[0] != '#' ==> revset_lines(line) == seq![trim(line)],
        trim(line).len() == 0 || trim(line)[0] == '#' ==> revset_lines(line) == Seq::<
            Seq<char>,
        >::empty(),
{
    lemma_one_line(line);
}

/// A line with a revset on it lists that revset, as it stands, whatever the white space around
/// it. Any text is a revset that is not empty, does not start with `#`, and neither starts nor
/// ends with white space.
pub proof fn law_revset_on_a_line(before: Seq<char>, revset: Seq<char>, after: Seq<char>)
    requires
        forall|i: int| 0 <= i < before.len() ==> white_space(#[trigger] before[i]),
        forall|i: int| 0 <= i < after.len() ==> white_space(#[trigger] after[i]),
        revset.len() > 0,
        revset[0] != '#',
        !white_space(revset.first()),
        !white_space(revset.last()),
        !(before + revset + after).contains('\n'),
    ensures
        revset_lines(before + revset + after) == seq![revset],
{
    law_trim_takes_white_space(before, revset, after);
    law_one_line(before + revset + after);
}

/// A blank line lists nothing.
pub proof fn law_blank_line(line: Seq<char>)
    requires
        forall|i: int| 0 <= i < line.len() ==> white_space(#[trigger] line[i]),
        !line.contains('\n'),
    ensures
        revset_lines(line) == Seq::<Seq<char>>::empty(),
{
    let none = Seq::<char>::empty();
    law_trim_takes_white_space(line, none, none);
    assert(line + none + none == line);
    law_one_line(line);
}

/// A comment, which may stand after white space, lists nothing.
pub proof fn law_comment(before: Seq<char>, comment: Seq<char>)
    requires
        forall|i: int| 0 <= i < before.len() ==> white_space(#[trigger] before[i]),
        !(before + seq!['#'] + comment).contains('\n'),
    ensures
        revset_lines(before + seq!['#'] + comment) == Seq::<Seq<char>>::empty(),
{
    let line = before + seq!['#'] + comment;
    let rest = seq!['#'] + comment;
    assert(line == before + rest);
    lemma_trim_start_blank(before, rest);
    assert(rest.first() == '#');
    assert(trim_start(rest) == rest);
    lemma_trim_end(rest);
    if trim_end(rest).len() == 0 {
        lemma_trim_end_empty(rest);
        assert(white_space(rest[0]));
    }
    assert(trim(line)[0] == '#');
    law_one_line(line);
}

proof fn lemma_trim_end_empty(s: Seq<char>)
    requires
        trim_end(s).len() == 0,
    ensures
        forall|i: int| 0 <= i < s.len() ==> white_space(#[trigger] s[i]),
    decreases s.len(),
{
    if s.len() > 0 {
        lemma_trim_end_empty(s.drop_last());
        assert forall|i: int| 0 <= i < s.len() implies white_space(#[trigger] s[i]) by {
            if i < s.len() - 1 {
                assert(s[i] == s.drop_last()[i]);
            }
        }
    }
}

/// A line is passed over only where it is white space throughout, or where its first character
/// that is not white space is `#`.
pub proof fn law_passed_over(line: Seq<char>)
    requires
        !line.contains('\n'),
        revset_lines(line).len() == 0,
    ensures
        (forall|i: int| 0 <= i < line.len() ==> white_space(#[trigger] line[i])) || exists|k: int|
            0 <= k < line.len() && #[trigger] line[k] == '#' && forall|j: int|
                0 <= j < k ==> white_space(#[trigger] line[j]),
{
    law_one_line(line);
    let t = trim_start(line);
    let k = line.len() - t.len();
    lemma_trim_start(line);
    lemma_trim_end(t);
    lemma_trim_start_skips_white_space(line);
    if trim(line).len() == 0 {
        if t.len() > 0 {
            lemma_trim_end_empty(t);
            assert(white_space(t[0]));
        }
    } else {
        assert(trim(line)[0] == t[0]);
        assert(line[k] == '#');
    }
}

proof fn lemma_trim_start_skips_white_space(s: Seq<char>)
    ensures
        trim_start(s).len() <= s.len(),
        forall|j: int| 0 <= j < s.len() - trim_start(s).len() ==> white_space(#[trigger] s[j]),
    decreases s.len(),
{
    if s.len() > 0 && white_space(s.first()) {
        let rest = s.drop_first();
        lemma_trim_start_skips_white_space(rest);
        assert forall|j: int| 0 <= j < s.len() - trim_start(s).len() implies white_space(
            #[trigger] s[j],
        ) by {
            if j > 0 {
                assert(s[j] == rest[j - 1]);
            }
        }
    }
}

/// Wherever a line stands in a file, it adds to what the file lists its own revset, in its place,
/// and changes nothing else.
pub proof fn law_line_in_a_file(before: Seq<char>, line: Seq<char>, after: Seq<char>)
    requires
        !line.contains('\n'),
    ensures
        revset_lines(before + seq!['\n'] + (line + seq!['\n'] + after)) == revset_lines(before) + (
        if trim(line).len() > 0 && trim(line)[0] != '#' {
            seq![trim(line)]
        } else {
            seq![]
        }) + revset_lines(after),
        revset_lines(line + seq!['\n'] + after) == (if trim(line).len() > 0 && trim(line)[0]
            != '#' {
            seq![trim(line)]
        } else {
            seq![]
        }) + revset_lines(after),
{
    law_revset_lines_of_parts(before, line + seq!['\n'] + after);
    law_revset_lines_of_parts(line, after);
    law_one_line(line);
    assert(revset_lines(before) + (revset_lines(line) + revset_lines(after)) == revset_lines(before)
        + revset_lines(line) + revset_lines(after));
}

/// The number that decimal digits stand for.
pub open spec fn decimal_value(digits: Seq<char>) -> int
    decreases digits.len(),
{
    if digits.len() == 0 {
        0
    } else {
        decimal_value(digits.drop_last()) * 10 + (digits.last() as int - '0' as int)
    }
}

/// A number is written in digits from `0` to `9`, without zeros in front, and the digits stand
/// for the number.
pub proof fn law_decimal(n: nat)
    ensures
        decimal_value(decimal(n)) == n,
        decimal(n).len() > 0,
        forall|i: int| 0 <= i < decimal(n).len() ==> '0' <= #[trigger] decimal(n)[i] <= '9',
        decimal(n).len() > 1 ==> decimal(n)[0] != '0',
    decreases n,
{
    let s = decimal(n);
    reveal_with_fuel(decimal_value, 2);
    if n < 10 {
        assert(s.drop_last() == Seq::<char>::empty());
        assert(s.last() as int == '0' as int + n);
    } else {
        let rest = decimal(n / 10);
        law_decimal(n / 10);
        assert(s.drop_last() == rest);
        assert(s.last() as int == '0' as int + n % 10);
        assert forall|i: int| 0 <= i < s.len() implies '0' <= #[trigger] s[i] <= '9' by {
            if i < rest.len() {
                assert(s[i] == rest[i]);
            }
        }
        assert(s[0] == rest[0]);
        if rest.len() == 1 {
            assert(rest.drop_last() == Seq::<char>::empty());
        }
    }
}

/// Different numbers are written differently.
pub proof fn law_decimal_differs(n: nat, m: nat)
    requires
        n != m,
    ensures
        decimal(n) != decimal(m),
{
    law_decimal(n);
    law_decimal(m);
}

/// The line printed once a revset has been walked tells the time and the number of commits:
/// between the fixed words stands the duration, and then digits that stand for the number.
pub proof fn law_revset_report(elapsed: Elapsed, count: nat)
    ensures
        ({
            let line = revset_report(elapsed, count);
            let took = duration_text(elapsed.secs, elapsed.nanos);
            let start: int = 15 + took.len() as int + 14;
            let digits = line.subrange(start, line.len() - 8);
            &&& line.len() > start + 8
            &&& line.take(15) == "First run took "@
            &&& line.subrange(15, 15 + took.len() as int) == took
            &&& line.subrange(15 + took.len() as int, start) == " and produced "@
            &&& line.skip(line.len() - 8) == " commits"@
            &&& forall|i: int| 0 <= i < digits.len() ==> '0' <= #[trigger] digits[i] <= '9'
            &&& decimal_value(digits) == count
            &&& digits.len() > 1 ==> digits[0] != '0'
        }),
{
    reveal_strlit("First run took ");
    reveal_strlit(" and produced ");
    reveal_strlit(" commits");
    law_decimal(count);
    let line = revset_report(elapsed, count);
    let took = duration_text(elapsed.secs, elapsed.nanos);
    let start: int = 15 + took.len() as int + 14;
    assert(line.subrange(start, line.len() - 8) == decimal(count));
    assert(line.take(15) == "First run took "@);
    assert(line.subrange(15, 15 + took.len() as int) == took);
    assert(line.subrange(15 + took.len() as int, start) == " and produced "@);
    assert(line.skip(line.len() - 8) == " commits"@);
}

/// Revsets with different numbers of commits are reported differently.
pub proof fn law_revset_report_tells_the_count(elapsed: Elapsed, count1: nat, count2: nat)
    requires
        count1 != count2,
    ensures
        revset_report(elapsed, count1) != revset_report(elapsed, count2),
{
    law_revset_report(elapsed, count1);
    law_revset_report(elapsed, count2);
}

} // verus!
