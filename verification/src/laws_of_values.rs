//! What arguments, settings, names and printed lines are for, and that views leave nothing out.

use vstd::prelude::*;

use crate::args::{
    criterion_args, ArgsError, BenchCommands, BenchCommandsView, CriterionArgs, CriterionArgsView,
};
use crate::report::{
    benchmark_id_parts, common_ancestors_id, duration_text, is_ancestor_id, resolve_prefix_id,
    revset_group, revset_header, revset_id, run_report, Elapsed,
};
use crate::session::{Action, ActionView, Reply, ReplyView, Routine, RoutineView, SessionView};
use crate::settings::{settings_for, Baseline, BaselineView, CriterionSettings};

verus! {

/// A sample is large enough from ten on.
pub proof fn law_large_enough(args: CriterionArgsView)
    ensures
        args.valid() <==> args.sample_size >= 10,
{
}

/// A span of time is any number of seconds with less than a second of nanoseconds.
pub proof fn law_elapsed(elapsed: Elapsed)
    ensures
        elapsed.valid() <==> elapsed.nanos < 1_000_000_000,
{
}

/// Options that are given are taken as they are; without them the baseline `base` is saved and
/// the sample size is a hundred. A sample below ten is refused, and then a baseline to save
/// beside one to compare with. Everything else is accepted.
pub proof fn law_options(
    save_baseline: Option<Seq<char>>,
    baseline: Option<Seq<char>>,
    sample_size: Option<u32>,
)
    ensures
        ({
            let size: u32 = match sample_size {
                Some(size) => size,
                None => 100,
            };
            match criterion_args(save_baseline, baseline, sample_size) {
                Ok(args) => {
                    &&& size >= 10
                    &&& save_baseline is None || baseline is None
                    &&& args.sample_size == size
                    &&& args.baseline == baseline
                    &&& save_baseline is Some ==> args.save_baseline == save_baseline->0
                    &&& save_baseline is None ==> args.save_baseline == "base"@
                },
                Err(ArgsError::SampleSizeTooSmall(refused)) => size < 10 && refused == size,
                Err(ArgsError::ConflictingBaselines) => {
                    &&& size >= 10
                    &&& save_baseline is Some
                    &&& baseline is Some
                },
                Err(_) => false,
            }
        }),
{
}

/// The runner is set up with the color and the sample size as they are. Results are compared with
/// the baseline that is named for that, which need not exist; without one they are saved under
/// the other name.
pub proof fn law_settings(color: bool, args: CriterionArgsView)
    ensures
        settings_for(color, args).output_color == color,
        settings_for(color, args).sample_size == args.sample_size,
        args.baseline matches Some(given) ==> settings_for(color, args).baseline
            == (BaselineView::Retain { name: given, strict: false }),
        args.baseline is None ==> settings_for(color, args).baseline == BaselineView::Save(
            args.save_baseline,
        ),
{
}

/// Arguments that differ in the sample size lead to settings that differ in it.
pub proof fn law_settings_tell_the_sample_size(
    color: bool,
    args1: CriterionArgsView,
    args2: CriterionArgsView,
)
    ensures
        settings_for(color, args1).sample_size == settings_for(color, args2).sample_size
            <==> args1.sample_size == args2.sample_size,
{
}

/// The name of the benchmark of common ancestors holds the two revisions, in order.
pub proof fn law_common_ancestors_name(revision1: Seq<char>, revision2: Seq<char>)
    ensures
        ({
            let id = common_ancestors_id(revision1, revision2);
            let n: int = 16 + revision1.len() as int;
            &&& id.len() == n + 1 + revision2.len()
            &&& id.take(16) == "commonancestors-"@
            &&& id.subrange(16, n) == revision1
            &&& id[n] == '-'
            &&& id.skip(n + 1) == revision2
        }),
{
    reveal_strlit("commonancestors-");
    reveal_strlit("-");
    let id = common_ancestors_id(revision1, revision2);
    let n: int = 16 + revision1.len() as int;
    assert(id.take(16) == "commonancestors-"@);
    assert(id.subrange(16, n) == revision1);
    assert(id.skip(n + 1) == revision2);
}

/// The name of the benchmark of ancestry holds the ancestor and then the descendant.
pub proof fn law_is_ancestor_name(ancestor: Seq<char>, descendant: Seq<char>)
    ensures
        ({
            let id = is_ancestor_id(ancestor, descendant);
            let n: int = 11 + ancestor.len() as int;
            &&& id.len() == n + 1 + descendant.len()
            &&& id.take(11) == "isancestor-"@
            &&& id.subrange(11, n) == ancestor
            &&& id[n] == '-'
            &&& id.skip(n + 1) == descendant
        }),
{
    reveal_strlit("isancestor-");
    reveal_strlit("-");
    let id = is_ancestor_id(ancestor, descendant);
    let n: int = 11 + ancestor.len() as int;
    assert(id.take(11) == "isancestor-"@);
    assert(id.subrange(11, n) == ancestor);
    assert(id.skip(n + 1) == descendant);
}

/// The name of the benchmark of a prefix holds the prefix.
pub proof fn law_resolve_prefix_name(hex: Seq<char>)
    ensures
        resolve_prefix_id(hex).len() == 14 + hex.len(),
        resolve_prefix_id(hex).take(14) == "resolveprefix-"@,
        resolve_prefix_id(hex).skip(14) == hex,
{
    reveal_strlit("resolveprefix-");
    assert(resolve_prefix_id(hex).take(14) == "resolveprefix-"@);
    assert(resolve_prefix_id(hex).skip(14) == hex);
}

/// All revsets are benchmarked in the group `revsets`, each with itself as the parameter and
/// without a function name.
pub proof fn law_revset_names(revset: Seq<char>)
    ensures
        revset_group() == "revsets"@,
        revset_id(revset).0 is None,
        revset_id(revset).1 == Some(revset),
{
}

/// The line printed before a revset is benchmarked holds the revset.
pub proof fn law_revset_header(revset: Seq<char>)
    ensures
        ({
            let line = revset_header(revset);
            let n: int = 26 + revset.len() as int;
            &&& line.len() == n + 10
            &&& line.take(26) == "----------Testing revset: "@
            &&& line.subrange(26, n) == revset
            &&& line.skip(n) == "----------"@
        }),
{
    reveal_strlit("----------Testing revset: ");
    reveal_strlit("----------");
    let line = revset_header(revset);
    let n: int = 26 + revset.len() as int;
    assert(line.take(26) == "----------Testing revset: "@);
    assert(line.subrange(26, n) == revset);
    assert(line.skip(n) == "----------"@);
}

/// The line printed once a routine has run tells the time and what the routine produced.
pub proof fn law_run_report(elapsed: Elapsed, produced: Seq<char>)
    ensures
        ({
            let line = run_report(elapsed, produced);
            let took = duration_text(elapsed.secs, elapsed.nanos);
            let n: int = 15 + took.len() as int + 15;
            &&& line.len() == n + produced.len()
            &&& line.take(15) == "First run took "@
            &&& line.subrange(15, 15 + took.len() as int) == took
            &&& line.subrange(15 + took.len() as int, n) == " and produced: "@
            &&& line.skip(n) == produced
        }),
{
    reveal_strlit("First run took ");
    reveal_strlit(" and produced: ");
    let line = run_report(elapsed, produced);
    let took = duration_text(elapsed.secs, elapsed.nanos);
    let n: int = 15 + took.len() as int + 15;
    assert(line.take(15) == "First run took "@);
    assert(line.subrange(15, 15 + took.len() as int) == took);
    assert(line.subrange(15 + took.len() as int, n) == " and produced: "@);
    assert(line.skip(n) == produced);
}

/// The view of arguments holds each of them.
pub proof fn law_args_view(args: CriterionArgs)
    ensures
        args@.save_baseline == args.save_baseline@,
        args.baseline is None ==> args@.baseline is None,
        args.baseline is Some ==> args@.baseline == Some((args.baseline->0)@),
        args@.sample_size == args.sample_size,
{
}

/// The view of settings holds each of them.
pub proof fn law_settings_view(settings: CriterionSettings)
    ensures
        settings@.output_color == settings.output_color,
        settings@.sample_size == settings.sample_size,
        match settings.baseline {
            Baseline::Save(name) => settings@.baseline == BaselineView::Save(name@),
            Baseline::Retain { name, strict } => settings@.baseline == (BaselineView::Retain {
                name: name@,
                strict,
            }),
        },
{
}

/// The view of a command holds its arguments, each in its place, and the criterion arguments of a
/// command are its own.
pub proof fn law_command_view(command: BenchCommands)
    ensures
        match command {
            BenchCommands::CommonAncestors(args) => {
                &&& command@ == (BenchCommandsView::CommonAncestors {
                    revision1: args.revision1@,
                    revision2: args.revision2@,
                    criterion: args.criterion@,
                })
                &&& command@.criterion() == args.criterion@
            },
            BenchCommands::IsAncestor(args) => {
                &&& command@ == (BenchCommandsView::IsAncestor {
                    ancestor: args.ancestor@,
                    descendant: args.descendant@,
                    criterion: args.criterion@,
                })
                &&& command@.criterion() == args.criterion@
            },
            BenchCommands::ResolvePrefix(args) => {
                &&& command@ == (BenchCommandsView::ResolvePrefix {
                    prefix: args.prefix@,
                    criterion: args.criterion@,
                })
                &&& command@.criterion() == args.criterion@
            },
            BenchCommands::Revset(args) => {
                &&& command@ matches BenchCommandsView::Revset { revisions, file, criterion }
                &&& revisions.len() == args.revisions@.len()
                &&& forall|i: int|
                    0 <= i < revisions.len() ==> #[trigger] revisions[i] == args.revisions@[i]@
                &&& args.file is None ==> file is None
                &&& args.file is Some ==> file == Some((args.file->0)@)
                &&& criterion == args.criterion@
                &&& command@.criterion() == args.criterion@
            },
        },
{
}

/// The view of a routine holds what it works on.
pub proof fn law_routine_view(routine: Routine)
    ensures
        match routine {
            Routine::CommonAncestors { commit1, commit2 } => routine@
                == (RoutineView::CommonAncestors {
                commit1: commit1 as nat,
                commit2: commit2 as nat,
            }),
            Routine::IsAncestor { ancestor, descendant } => routine@ == (RoutineView::IsAncestor {
                ancestor: ancestor as nat,
                descendant: descendant as nat,
            }),
            Routine::ResolvePrefix(prefix) => routine@ == RoutineView::ResolvePrefix(prefix@),
        },
{
}

/// The view of an action is of the same kind and holds what the action holds.
pub proof fn law_action_view(action: Action)
    ensures
        match action {
            Action::OpenWorkspace => action@ == ActionView::OpenWorkspace,
            Action::ResolveRevision(revision) => action@ == ActionView::ResolveRevision(revision@),
            Action::ReadFile(path) => action@ == ActionView::ReadFile(path@),
            Action::CreateCriterion(settings) => action@ == ActionView::CreateCriterion(settings@),
            Action::RunRoutine(routine) => action@ == ActionView::RunRoutine(routine@),
            Action::PrintLine(line) => action@ == ActionView::PrintLine(line@),
            Action::BenchFunction(id, routine) => action@ == ActionView::BenchFunction(
                id@,
                routine@,
            ),
            Action::OpenGroup(name) => action@ == ActionView::OpenGroup(name@),
            Action::ParseRevset(revset) => action@ == ActionView::ParseRevset(revset@),
            Action::CountRevset => action@ == ActionView::CountRevset,
            Action::BenchRevset(id) => action@ == ActionView::BenchRevset(benchmark_id_parts(id)),
            Action::FinishGroup => action@ == ActionView::FinishGroup,
            Action::FinalSummary => action@ == ActionView::FinalSummary,
            Action::Stop(outcome) => action@ == ActionView::Stop(outcome),
        },
{
}

/// The view of a reply is of the same kind and holds what the reply holds.
pub proof fn law_reply_view(reply: Reply)
    ensures
        match reply {
            Reply::Done => reply@ == ReplyView::Done,
            Reply::FileText(text) => reply@ == ReplyView::FileText(text@),
            Reply::RoutineRan(elapsed, produced) => reply@ == ReplyView::RoutineRan(
                elapsed,
                produced@,
            ),
            Reply::RevsetCounted(elapsed, count) => reply@ == ReplyView::RevsetCounted(
                elapsed,
                count as nat,
            ),
        },
{
}

/// After an action, exactly the replies that fit it are taken, whatever they hold, and an error
/// is taken exactly where the action opens the workspace, resolves a revision, reads a file,
/// prints a line or parses a revset.
pub proof fn law_replies_fit_actions(state: SessionView, reply: ReplyView, answer: ReplyView)
    ensures
        ({
            let (after, action) = state.next(reply);
            &&& after.awaits.accepts(answer) <==> match answer {
                ReplyView::Done => !(action is ReadFile) && !(action is RunRoutine) && !(
                action is CountRevset) && !(action is Stop),
                ReplyView::FileText(_) => action is ReadFile,
                ReplyView::RoutineRan(elapsed, _) => action is RunRoutine && elapsed.nanos
                    < 1_000_000_000,
                ReplyView::RevsetCounted(elapsed, _) => action is CountRevset && elapsed.nanos
                    < 1_000_000_000,
            }
            &&& after.awaits.accepts_error() <==> action is OpenWorkspace || action
                is ResolveRevision || action is ReadFile || action is PrintLine || action
                is ParseRevset
        }),
{
}

} // verus!
