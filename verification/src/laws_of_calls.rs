//! What the functions of the library give back, whatever they are called with.
//!
//! Each of these laws is about the result of a call: `call_ensures(f, arguments, result)` says
//! that `f` can give back that result for those arguments.

use criterion::BenchmarkId;
use vstd::prelude::*;

use crate::args::{ArgsError, BenchCommands, BenchRevsetArgs, CriterionArgs};
use crate::hex_prefix::HexPrefix;
use crate::laws::{
    hex_digits_only, law_hex_digits, law_hex_is_lower_case, law_revset_lines_of_parts, lower_case,
};
use crate::laws_of_text::{
    decimal_value, law_blank_line, law_comment, law_decimal, law_revset_on_a_line, law_white_space,
};
use crate::report::{
    announce_revset, benchmark_id_parts, duration_text, name_common_ancestors, name_is_ancestor,
    name_resolve_prefix, report_revset, report_run, revset_benchmark_id, Elapsed,
};
use crate::session::{Action, ActionView, BenchSession, Reply, ReplyView, SessionView};
use crate::settings::{criterion_settings, CriterionSettings};
use crate::text::{
    decimal, format_decimal, is_whitespace, parse_revset_file, revset_lines, white_space,
};

verus! {

/// The options of a benchmark are taken as they are given. Without them the baseline `base` is
/// saved and the sample size is a hundred. They are refused exactly where the sample is below
/// ten, or where one baseline is to be saved and another to be compared with.
pub proof fn law_criterion_args(
    save_baseline: Option<String>,
    baseline: Option<String>,
    sample_size: Option<u32>,
    r: Result<CriterionArgs, ArgsError>,
)
    requires
        call_ensures(CriterionArgs::new, (save_baseline, baseline, sample_size), r),
    ensures
        r is Ok <==> (sample_size is Some ==> sample_size->0 >= 10) && (save_baseline is None
            || baseline is None),
        r matches Ok(args) ==> {
            &&& sample_size is Some ==> args.sample_size == sample_size->0
            &&& sample_size is None ==> args.sample_size == 100
            &&& save_baseline is Some ==> args.save_baseline@ == (save_baseline->0)@
            &&& save_baseline is None ==> args.save_baseline@ == "base"@
            &&& args.baseline == baseline
        },
        r matches Err(error) ==> error == (if sample_size is Some && sample_size->0 < 10 {
            ArgsError::SampleSizeTooSmall(sample_size->0)
        } else {
            ArgsError::ConflictingBaselines
        }),
{
}

/// Revsets are taken as they are given, any number of them, or a file that lists them: one of the
/// two, and not both.
pub proof fn law_revset_args(
    revisions: Vec<String>,
    file: Option<String>,
    criterion: CriterionArgs,
    r: Result<BenchRevsetArgs, ArgsError>,
)
    requires
        call_ensures(BenchRevsetArgs::new, (revisions, file, criterion), r),
    ensures
        r is Ok <==> (revisions@.len() > 0) != (file is Some),
        r matches Ok(args) ==> args.revisions == revisions && args.file == file && args.criterion
            == criterion,
        r matches Err(error) ==> error == (if file is Some {
            ArgsError::ConflictingRevsets
        } else {
            ArgsError::MissingRevsets
        }),
{
}

/// The runner is set up as the arguments ask: the sample has the size that they name, with a
/// baseline to compare with and without one.
pub proof fn law_criterion_settings(
    color: bool,
    args: CriterionArgs,
    settings: CriterionSettings,
)
    requires
        call_ensures(criterion_settings, (color, &args), settings),
    ensures
        settings.output_color == color,
        settings.sample_size == args.sample_size,
        args.baseline is Some ==> settings.baseline is Retain && settings.baseline->name@ == (
        args.baseline->0)@ && !settings.baseline->strict,
        args.baseline is None ==> settings.baseline is Save && (settings.baseline->0)@
            == args.save_baseline@,
{
}

/// A prefix is read if and only if it consists of hexadecimal digits, any number of them.
pub proof fn law_prefix_is_read(prefix: &str, r: Option<HexPrefix>)
    requires
        call_ensures(HexPrefix::new, (prefix,), r),
    ensures
        r is Some <==> hex_digits_only(prefix@),
        r matches Some(p) ==> p@.len() == prefix@.len(),
{
    law_hex_digits(prefix@);
}

/// A prefix that was read is written as it was given, in lower case.
pub proof fn law_prefix_is_written(prefix: &str, p: HexPrefix, written: String)
    requires
        call_ensures(HexPrefix::new, (prefix,), Some(p)),
        call_ensures(HexPrefix::hex, (&p,), written),
    ensures
        written@ == prefix@.map_values(|c: char| lower_case(c)),
{
    law_hex_is_lower_case(prefix@);
}

/// White space is told by the code point of the character.
pub proof fn law_is_whitespace(c: char, r: bool)
    requires
        call_ensures(is_whitespace, (c,), r),
    ensures
        r <==> {
            let n = c as int;
            ||| 0x9 <= n <= 0xd
            ||| n == 0x20
            ||| n == 0x85
            ||| n == 0xa0
            ||| n == 0x1680
            ||| 0x2000 <= n <= 0x200a
            ||| n == 0x2028
            ||| n == 0x2029
            ||| n == 0x202f
            ||| n == 0x205f
            ||| n == 0x3000
        },
{
    law_white_space(c);
}

/// A file of one line with a revset on it gives that revset, as it stands, whatever the white
/// space around it. Any text is a revset that is not empty, does not start with `#`, and neither
/// starts nor ends with white space.
pub proof fn law_file_of_one_revset(
    text: &str,
    before: Seq<char>,
    revset: Seq<char>,
    after: Seq<char>,
    revsets: Vec<String>,
)
    requires
        call_ensures(parse_revset_file, (text,), revsets),
        text@ == before + revset + after,
        !text@.contains('\n'),
        forall|i: int| 0 <= i < before.len() ==> white_space(#[trigger] before[i]),
        forall|i: int| 0 <= i < after.len() ==> white_space(#[trigger] after[i]),
        revset.len() > 0,
        revset[0] != '#',
        !white_space(revset.first()),
        !white_space(revset.last()),
    ensures
        revsets@.len() == 1,
        revsets@[0]@ == revset,
{
    law_revset_on_a_line(before, revset, after);
}

/// A file of one line that is white space throughout, or a comment, gives nothing.
pub proof fn law_file_of_no_revset(
    text: &str,
    before: Seq<char>,
    comment: Seq<char>,
    revsets: Vec<String>,
)
    requires
        call_ensures(parse_revset_file, (text,), revsets),
        text@ == before || text@ == before + seq!['#'] + comment,
        !text@.contains('\n'),
        forall|i: int| 0 <= i < before.len() ==> white_space(#[trigger] before[i]),
    ensures
        revsets@.len() == 0,
{
    if text@ == before {
        law_blank_line(before);
    } else {
        law_comment(before, comment);
    }
}

/// A file gives what its parts give, one after the other, wherever it is parted at the end of a
/// line.
pub proof fn law_file_of_parts(
    text: &str,
    part1: &str,
    part2: &str,
    revsets: Vec<String>,
    revsets1: Vec<String>,
    revsets2: Vec<String>,
    i: int,
)
    requires
        call_ensures(parse_revset_file, (text,), revsets),
        call_ensures(parse_revset_file, (part1,), revsets1),
        call_ensures(parse_revset_file, (part2,), revsets2),
        text@ == part1@ + seq!['\n'] + part2@,
    ensures
        revsets@.len() == revsets1@.len() + revsets2@.len(),
        0 <= i < revsets1@.len() ==> revsets@[i]@ == revsets1@[i]@,
        0 <= i < revsets2@.len() ==> revsets@[revsets1@.len() + i]@ == revsets2@[i]@,
{
    law_revset_lines_of_parts(part1@, part2@);
    let all = revset_lines(text@);
    assert(all == revset_lines(part1@) + revset_lines(part2@));
    if 0 <= i < revsets1@.len() {
        assert(revsets@[i]@ == all[i]);
    }
    if 0 <= i < revsets2@.len() {
        assert(revsets@[revsets1@.len() + i]@ == all[revsets1@.len() + i]);
    }
}

/// A number is written in digits from `0` to `9` that stand for it, without zeros in front.
pub proof fn law_format_decimal(n: usize, written: String)
    requires
        call_ensures(format_decimal, (n,), written),
    ensures
        decimal_value(written@) == n,
        written@.len() > 0,
        forall|i: int| 0 <= i < written@.len() ==> '0' <= #[trigger] written@[i] <= '9',
        written@.len() > 1 ==> written@[0] != '0',
{
    law_decimal(n as nat);
}

/// The names of benchmarks: the command, and then what it is about.
pub proof fn law_names(
    first: &str,
    second: &str,
    common_ancestors: String,
    is_ancestor: String,
    resolve_prefix: String,
    revset: BenchmarkId,
)
    requires
        call_ensures(name_common_ancestors, (first, second), common_ancestors),
        call_ensures(name_is_ancestor, (first, second), is_ancestor),
        call_ensures(name_resolve_prefix, (first,), resolve_prefix),
        call_ensures(revset_benchmark_id, (first,), revset),
    ensures
        common_ancestors@ == "commonancestors-"@ + first@ + "-"@ + second@,
        is_ancestor@ == "isancestor-"@ + first@ + "-"@ + second@,
        resolve_prefix@ == "resolveprefix-"@ + first@,
        benchmark_id_parts(revset) == (None::<Seq<char>>, Some(first@)),
{
}

/// The lines that are printed: the revset that is to be benchmarked, and the time that a first
/// run took with what it produced.
pub proof fn law_lines(
    elapsed: Elapsed,
    text: &str,
    announced: String,
    reported: String,
)
    requires
        call_ensures(announce_revset, (text,), announced),
        call_ensures(report_run, (elapsed, text), reported),
    ensures
        announced@ == "----------Testing revset: "@ + text@ + "----------"@,
        reported@ == "First run took "@ + duration_text(elapsed.secs, elapsed.nanos)
            + " and produced: "@ + text@,
{
}

/// The line about a walk of a revset: the time, and the number of commits in decimal notation,
/// whatever the number.
pub proof fn law_line_of_a_walk(
    elapsed: Elapsed,
    count: usize,
    written: String,
    reported: String,
)
    requires
        call_ensures(format_decimal, (count,), written),
        call_ensures(report_revset, (elapsed, count), reported),
    ensures
        decimal_value(written@) == count,
        reported@ == "First run took "@ + duration_text(elapsed.secs, elapsed.nanos)
            + " and produced "@ + written@ + " commits"@,
{
    law_decimal(count as nat);
}

/// A session is at the start of the run of its command, with the arguments as they are.
pub proof fn law_session(command: BenchCommands, color: bool, session: BenchSession)
    requires
        call_ensures(BenchSession::new, (command, color), session),
    ensures
        session@.valid(),
        session@ == SessionView::start(command@, color),
{
}

/// A step hands back an error as it is, and only an error; after it nothing is waited for.
/// Otherwise the session goes on as the reply has it: a first run is reported, with the time and
/// with what it produced, before anything else is done.
pub proof fn law_step<E>(session: &mut BenchSession, reply: Result<Reply, E>, r: Result<Action, E>)
    requires
        call_ensures(BenchSession::step::<E>, (session, reply), r),
    ensures
        r is Ok <==> reply is Ok,
        reply matches Err(error) ==> {
            &&& r == Err::<Action, E>(error)
            &&& forall|next: ReplyView| !final(session)@.awaits.accepts(next)
            &&& !final(session)@.awaits.accepts_error()
        },
        reply matches Ok(told) ==> (final(session)@, (r->Ok_0)@) == old(session)@.next(told@),
        reply matches Ok(Reply::RoutineRan(elapsed, produced)) ==> {
            &&& (r->Ok_0)@ == ActionView::PrintLine(
                "First run took "@ + duration_text(elapsed.secs, elapsed.nanos)
                    + " and produced: "@ + produced@,
            )
            &&& final(session)@.todo == old(session)@.todo
        },
        reply matches Ok(Reply::RevsetCounted(elapsed, count)) ==> {
            &&& (r->Ok_0)@ == ActionView::PrintLine(
                "First run took "@ + duration_text(elapsed.secs, elapsed.nanos) + " and produced "@
                    + decimal(count as nat) + " commits"@,
            )
            &&& final(session)@.todo == old(session)@.todo
        },
{
}

} // verus!
