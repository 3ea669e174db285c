//! The names of benchmarks and the lines that are printed about them.

use criterion::BenchmarkId;
use vstd::prelude::*;

use crate::text::{decimal, format_decimal};

verus! {

/// How many nanoseconds make a second.
pub const NANOS_PER_SEC: u32 = 1_000_000_000;

/// A span of time, in whole seconds and nanoseconds.
#[derive(Clone, Copy, Debug, PartialEq, Eq, Structural)]
pub struct Elapsed {
    pub secs: u64,
    pub nanos: u32,
}

impl Elapsed {
    /// The nanoseconds make less than a second.
    pub open spec fn valid(self) -> bool {
        self.nanos < NANOS_PER_SEC
    }
}

/// The text that `std::time::Duration` has under `{:?}`.
pub uninterp spec fn duration_text(secs: u64, nanos: u32) -> Seq<char>;

/// Formats a `std::time::Duration`, made by `Duration::new`, with `{:?}`.
///
/// The text is taken to depend on the seconds and the nanoseconds alone. What it looks like is
/// left to the standard library. `Duration::new` cannot panic here, as it only does so where the
/// nanoseconds carry over into the seconds.
#[verifier::external_body]
fn format_duration(secs: u64, nanos: u32) -> (s: String)
    requires
        nanos < NANOS_PER_SEC,
    ensures
        s@ == duration_text(secs, nanos),
{
    format!("{:?}", std::time::Duration::new(secs, nanos))
}

/// `criterion::BenchmarkId`, under which a benchmark is run within a group.
#[verifier::external_type_specification]
#[verifier::external_body]
pub struct ExBenchmarkId(criterion::BenchmarkId);

/// What a `criterion::BenchmarkId` holds: the function name and the parameter, each of which may
/// be missing.
pub uninterp spec fn benchmark_id_parts(id: BenchmarkId) -> (Option<Seq<char>>, Option<Seq<char>>);

/// `criterion::BenchmarkId::from_parameter` makes an id without a function name, whose parameter
/// is the text.
#[verifier::external_body]
fn id_from_parameter(parameter: &str) -> (id: BenchmarkId)
    ensures
        benchmark_id_parts(id) == (None::<Seq<char>>, Some(parameter@)),
{
    BenchmarkId::from_parameter(parameter)
}

/// The parts of the id under which a revset is benchmarked.
pub open spec fn revset_id(revset: Seq<char>) -> (Option<Seq<char>>, Option<Seq<char>>) {
    (None, Some(revset))
}

/// The id under which a revset is benchmarked, within the group of all revsets: the revset
/// itself.
pub fn revset_benchmark_id(revset: &str) -> (id: BenchmarkId)
    ensures
        benchmark_id_parts(id) == revset_id(revset@),
{
    id_from_parameter(revset)
}

/// The name of the benchmark of the common ancestors of two revisions.
pub open spec fn common_ancestors_id(revision1: Seq<char>, revision2: Seq<char>) -> Seq<char> {
    "commonancestors-"@ + revision1 + "-"@ + revision2
}

/// The name of the benchmark of the ancestry of two revisions.
pub open spec fn is_ancestor_id(ancestor: Seq<char>, descendant: Seq<char>) -> Seq<char> {
    "isancestor-"@ + ancestor + "-"@ + descendant
}

/// The name of the benchmark of a prefix, which is given in lower-case hexadecimal digits.
pub open spec fn resolve_prefix_id(hex: Seq<char>) -> Seq<char> {
    "resolveprefix-"@ + hex
}

/// The name of the group that holds the benchmarks of all revsets.
pub open spec fn revset_group() -> Seq<char> {
    "revsets"@
}

/// The line printed once a routine has run for the first time.
pub open spec fn run_report(elapsed: Elapsed, produced: Seq<char>) -> Seq<char> {
    "First run took "@ + duration_text(elapsed.secs, elapsed.nanos) + " and produced: "@ + produced
}

/// The line printed before a revset is benchmarked.
pub open spec fn revset_header(revset: Seq<char>) -> Seq<char> {
    "----------Testing revset: "@ + revset + "----------"@
}

/// The line printed once a revset has been walked for the first time.
pub open spec fn revset_report(elapsed: Elapsed, count: nat) -> Seq<char> {
    "First run took "@ + duration_text(elapsed.secs, elapsed.nanos) + " and produced "@ + decimal(
        count,
    ) + " commits"@
}

/// Names the benchmark of the common ancestors of two revisions.
pub fn name_common_ancestors(revision1: &str, revision2: &str) -> (id: String)
    ensures
        id@ == common_ancestors_id(revision1@, revision2@),
{
    let mut id = "commonancestors-".to_owned();
    id.append(revision1);
    id.append("-");
    id.append(revision2);
    id
}

/// Names the benchmark of the ancestry of two revisions.
pub fn name_is_ancestor(ancestor: &str, descendant: &str) -> (id: String)
    ensures
        id@ == is_ancestor_id(ancestor@, descendant@),
{
    let mut id = "isancestor-".to_owned();
    id.append(ancestor);
    id.append("-");
    id.append(descendant);
    id
}

/// Names the benchmark of a prefix, which is given in lower-case hexadecimal digits.
pub fn name_resolve_prefix(hex: &str) -> (id: String)
    ensures
        id@ == resolve_prefix_id(hex@),
{
    let mut id = "resolveprefix-".to_owned();
    id.append(hex);
    id
}

/// Reports the first run of a routine: the time that it took and what it produced.
pub fn report_run(elapsed: Elapsed, produced: &str) -> (line: String)
    requires
        elapsed.valid(),
    ensures
        line@ == run_report(elapsed, produced@),
{
    let took = format_duration(elapsed.secs, elapsed.nanos);
    let mut line = "First run took ".to_owned();
    line.append(took.as_str());
    line.append(" and produced: ");
    line.append(produced);
    line
}

/// Announces the benchmark of a revset.
pub fn announce_revset(revset: &str) -> (line: String)
    ensures
        line@ == revset_header(revset@),
{
    let mut line = "----------Testing revset: ".to_owned();
    line.append(revset);
    line.append("----------");
    line
}

/// Reports the first walk of a revset: the time that it took and how many commits it gave.
pub fn report_revset(elapsed: Elapsed, count: usize) -> (line: String)
    requires
        elapsed.valid(),
    ensures
        line@ == revset_report(elapsed, count as nat),
{
    let took = format_duration(elapsed.secs, elapsed.nanos);
    let number = format_decimal(count);
    let mut line = "First run took ".to_owned();
    line.append(took.as_str());
    line.append(" and produced ");
    line.append(number.as_str());
    line.append(" commits");
    line
}

} // verus!
