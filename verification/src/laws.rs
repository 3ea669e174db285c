//! What holds of the library as a whole.

use vstd::prelude::*;

use crate::args::{criterion_args, BenchCommandsView, CriterionArgsView};
use crate::hex_prefix::{hex_text, hex_value, hex_values, is_hex, is_hex_digit};
use crate::report::{
    common_ancestors_id, duration_text, is_ancestor_id, resolve_prefix_id, revset_group,
    revset_header, revset_id,
};
use crate::session::{
    bench_revsets_actions, ends_plan, lemma_bench_revsets_first, lemma_revset_actions,
    revset_actions, run_bench_actions, with_runner, ActionView, Awaits, Outcome,
    ReplyView, RoutineView, SessionView,
};
use crate::settings::{settings_for, BaselineView, CriterionSettingsView};
use crate::text::{
    decimal, first_line_len, is_revset, lines, revset_lines, revsets_among, trim, trim_end, trim_start,
    white_space, without_carriage_return,
};

verus! {

/// Whether each reply is one that the session waits for when it comes.
pub open spec fn answered(state: SessionView, replies: Seq<ReplyView>) -> bool
    decreases replies.len(),
{
    replies.len() > 0 ==> {
        &&& state.awaits.accepts(replies.first())
        &&& answered(state.next(replies.first()).0, replies.drop_first())
    }
}

/// The actions that follow the replies, one on each.
pub open spec fn trace(state: SessionView, replies: Seq<ReplyView>) -> Seq<ActionView>
    decreases replies.len(),
{
    if replies.len() == 0 {
        seq![]
    } else {
        let (after, action) = state.next(replies.first());
        seq![action] + trace(after, replies.drop_first())
    }
}

/// The line that reports a first run.
pub open spec fn report_of(reply: ReplyView) -> Seq<char> {
    match reply {
        ReplyView::RoutineRan(elapsed, produced) => "First run took "@ + duration_text(
            elapsed.secs,
            elapsed.nanos,
        ) + " and produced: "@ + produced,
        ReplyView::RevsetCounted(elapsed, count) => "First run took "@ + duration_text(
            elapsed.secs,
            elapsed.nanos,
        ) + " and produced "@ + decimal(count) + " commits"@,
        _ => seq![],
    }
}

/// The settings that arguments ask for: the color and the sample size as they are; the baseline
/// to compare with, which need not exist, where one is named, and else the one to save.
pub open spec fn asked_settings(color: bool, criterion: CriterionArgsView) -> CriterionSettingsView {
    CriterionSettingsView {
        output_color: color,
        baseline: match criterion.baseline {
            Some(name) => BaselineView::Retain { name, strict: false },
            None => BaselineView::Save(criterion.save_baseline),
        },
        sample_size: criterion.sample_size,
    }
}

/// Whether the action is a first run, which is reported.
spec fn is_first_run(action: ActionView) -> bool {
    action.awaits() == Awaits::RoutineRan || action.awaits() == Awaits::RevsetCounted
}

/// Actions in order, each first run followed by its report, where the reply at `position` leads
/// to the first of them.
spec fn with_reports(actions: Seq<ActionView>, replies: Seq<ReplyView>, position: int) -> Seq<
    ActionView,
>
    decreases actions.len(),
{
    if actions.len() == 0 {
        seq![]
    } else if is_first_run(actions.first()) {
        seq![actions.first(), ActionView::PrintLine(report_of(replies[position + 1]))]
            + with_reports(actions.drop_first(), replies, position + 2)
    } else {
        seq![actions.first()] + with_reports(actions.drop_first(), replies, position + 1)
    }
}

/// Whether the actions stop, once and at the end, and read no file.
spec fn stops(actions: Seq<ActionView>) -> bool {
    &&& actions.len() > 0
    &&& forall|i: int|
        0 <= i < actions.len() ==> (#[trigger] actions[i]).awaits() != Awaits::TextOrError
            && (actions[i].awaits() == Awaits::Nothing) == (i == actions.len() - 1)
}

proof fn lemma_stops_drop_first(actions: Seq<ActionView>)
    requires
        stops(actions),
        actions.first().awaits() != Awaits::Nothing,
    ensures
        stops(actions.drop_first()),
{
    let rest = actions.drop_first();
    assert(actions[0].awaits() != Awaits::Nothing);
    assert forall|i: int| 0 <= i < rest.len() implies (#[trigger] rest[i]).awaits()
        != Awaits::TextOrError && (rest[i].awaits() == Awaits::Nothing) == (i == rest.len()
        - 1) by {
        assert(rest[i] == actions[i + 1]);
    }
}

/// Where the reply at `position` leads to the first of the actions in `todo`, the run goes on
/// with those actions, each first run followed by its report.
proof fn lemma_trace(
    state: SessionView,
    todo: Seq<ActionView>,
    replies: Seq<ReplyView>,
    position: int,
)
    requires
        0 <= position <= replies.len(),
        answered(state, replies.skip(position)),
        position < replies.len() ==> state.next(replies[position]) == (SessionView {
            todo,
            ..state
        }).advance(),
        stops(todo),
    ensures
        replies.len() - position <= with_reports(todo, replies, position).len(),
        trace(state, replies.skip(position)) == with_reports(todo, replies, position).take(
            replies.len() - position,
        ),
    decreases replies.len() - position,
{
    reveal_with_fuel(answered, 3);
    reveal_with_fuel(trace, 3);
    let n = replies.len() - position;
    let here = replies.skip(position);
    let full = with_reports(todo, replies, position);
    if n == 0 {
        assert(trace(state, here) == full.take(0));
    } else {
        let action = todo.first();
        assert(todo[0] == action);
        let after = state.next(here.first()).0;
        assert(here.drop_first() == replies.skip(position + 1));
        if action.awaits() == Awaits::Nothing {
            assert(n == 1);
            assert(trace(state, here) == full.take(1));
        } else {
            lemma_stops_drop_first(todo);
            if !is_first_run(action) {
                lemma_trace(after, after.todo, replies, position + 1);
            } else if n > 1 {
                let reported = after.next(replies[position + 1]).0;
                assert(here.drop_first().drop_first() == replies.skip(position + 2));
                lemma_trace(reported, reported.todo, replies, position + 2);
                assert(trace(state, here) == seq![
                    action,
                    ActionView::PrintLine(report_of(replies[position + 1])),
                ] + trace(reported, replies.skip(position + 2)));
            }
            assert(trace(state, here) == full.take(n));
        }
    }
}

proof fn lemma_with_reports_after(
    prefix: Seq<ActionView>,
    actions: Seq<ActionView>,
    replies: Seq<ReplyView>,
    position: int,
)
    requires
        forall|i: int| 0 <= i < prefix.len() ==> !is_first_run(#[trigger] prefix[i]),
    ensures
        with_reports(prefix + actions, replies, position) == prefix + with_reports(
            actions,
            replies,
            position + prefix.len(),
        ),
    decreases prefix.len(),
{
    if prefix.len() == 0 {
        assert(prefix + actions == actions);
    } else {
        let rest = prefix.drop_first();
        assert(!is_first_run(prefix[0]));
        assert forall|i: int| 0 <= i < rest.len() implies !is_first_run(#[trigger] rest[i]) by {
            assert(rest[i] == prefix[i + 1]);
        }
        lemma_with_reports_after(rest, actions, replies, position + 1);
        assert((prefix + actions).drop_first() == rest + actions);
    }
}

/// The run of a benchmark of a routine: what comes first, then the runner is set up, the routine
/// is run once, its first run is reported, and it is benchmarked under its name. Where the sample
/// is too small, the run stops in place of all this but what comes first.
pub open spec fn routine_run(
    opening: Seq<ActionView>,
    color: bool,
    criterion: CriterionArgsView,
    routine: RoutineView,
    report: Seq<char>,
    id: Seq<char>,
) -> Seq<ActionView> {
    if criterion.sample_size >= 10 {
        opening + seq![
            ActionView::CreateCriterion(asked_settings(color, criterion)),
            ActionView::RunRoutine(routine),
            ActionView::PrintLine(report),
            ActionView::BenchFunction(id, routine),
            ActionView::Stop(Outcome::Completed),
        ]
    } else {
        opening + seq![ActionView::Stop(Outcome::SampleSizeTooSmall)]
    }
}

proof fn lemma_routine_run(
    state: SessionView,
    opening: Seq<ActionView>,
    color: bool,
    criterion: CriterionArgsView,
    routine: RoutineView,
    id: Seq<char>,
    replies: Seq<ReplyView>,
)
    requires
        state.awaits == Awaits::Done,
        state.todo == opening + with_runner(
            criterion,
            run_bench_actions(id, routine, settings_for(color, criterion)),
        ),
        forall|i: int|
            0 <= i < opening.len() ==> (#[trigger] opening[i]).awaits() == Awaits::DoneOrError,
        answered(state, replies),
    ensures
        replies.len() <= opening.len() + (if criterion.valid() {
            5int
        } else {
            1
        }),
        trace(state, replies) == routine_run(
            opening,
            color,
            criterion,
            routine,
            report_of(replies[opening.len() as int + 2]),
            id,
        ).take(replies.len() as int),
{
    assert(replies.skip(0) == replies);
    let settings = settings_for(color, criterion);
    let actions = with_runner(criterion, run_bench_actions(id, routine, settings));
    assert forall|i: int| 0 <= i < state.todo.len() implies (#[trigger] state.todo[i]).awaits()
        != Awaits::TextOrError && (state.todo[i].awaits() == Awaits::Nothing) == (i
        == state.todo.len() - 1) by {
        if i < opening.len() {
            assert(state.todo[i] == opening[i]);
        } else {
            assert(state.todo[i] == actions[i - opening.len()]);
        }
    }
    lemma_trace(state, state.todo, replies, 0);
    lemma_with_reports_after(opening, actions, replies, 0);
    let n = opening.len() as int;
    reveal_with_fuel(with_reports, 5);
    assert(with_reports(actions, replies, n) == with_runner(
        criterion,
        seq![
            ActionView::CreateCriterion(settings),
            ActionView::RunRoutine(routine),
            ActionView::PrintLine(report_of(replies[n + 2])),
            ActionView::BenchFunction(id, routine),
            ActionView::Stop(Outcome::Completed),
        ],
    ));
}

/// A run of `commonancestors` that meets no error opens the workspace, resolves the two
/// revisions in order, and benchmarks their common ancestors.
///
/// With a sample that is too small the run stops where the runner would be set up. Whatever the
/// replies are, the actions so far are the first of that run.
pub proof fn law_common_ancestors_run(
    revision1: Seq<char>,
    revision2: Seq<char>,
    criterion: CriterionArgsView,
    color: bool,
    replies: Seq<ReplyView>,
)
    requires
        answered(
            SessionView::start(
                BenchCommandsView::CommonAncestors { revision1, revision2, criterion },
                color,
            ),
            replies,
        ),
    ensures
        replies.len() <= 8,
        criterion.sample_size < 10 ==> replies.len() <= 4,
        trace(
            SessionView::start(
                BenchCommandsView::CommonAncestors { revision1, revision2, criterion },
                color,
            ),
            replies,
        ) == routine_run(
            seq![
                ActionView::OpenWorkspace,
                ActionView::ResolveRevision(revision1),
                ActionView::ResolveRevision(revision2),
            ],
            color,
            criterion,
            RoutineView::CommonAncestors { commit1: 0, commit2: 1 },
            report_of(replies[5]),
            "commonancestors-"@ + revision1 + "-"@ + revision2,
        ).take(replies.len() as int),
{
    let command = BenchCommandsView::CommonAncestors { revision1, revision2, criterion };
    lemma_routine_run(
        SessionView::start(command, color),
        seq![
            ActionView::OpenWorkspace,
            ActionView::ResolveRevision(revision1),
            ActionView::ResolveRevision(revision2),
        ],
        color,
        criterion,
        RoutineView::CommonAncestors { commit1: 0, commit2: 1 },
        common_ancestors_id(revision1, revision2),
        replies,
    );
}

/// A run of `isancestor` that meets no error opens the workspace, resolves the ancestor and then
/// the descendant, and benchmarks whether the one is an ancestor of the other.
///
/// With a sample that is too small the run stops where the runner would be set up. Whatever the
/// replies are, the actions so far are the first of that run.
pub proof fn law_is_ancestor_run(
    ancestor: Seq<char>,
    descendant: Seq<char>,
    criterion: CriterionArgsView,
    color: bool,
    replies: Seq<ReplyView>,
)
    requires
        answered(
            SessionView::start(
                BenchCommandsView::IsAncestor { ancestor, descendant, criterion },
                color,
            ),
            replies,
        ),
    ensures
        replies.len() <= 8,
        criterion.sample_size < 10 ==> replies.len() <= 4,
        trace(
            SessionView::start(
                BenchCommandsView::IsAncestor { ancestor, descendant, criterion },
                color,
            ),
            replies,
        ) == routine_run(
            seq![
                ActionView::OpenWorkspace,
                ActionView::ResolveRevision(ancestor),
                ActionView::ResolveRevision(descendant),
            ],
            color,
            criterion,
            RoutineView::IsAncestor { ancestor: 0, descendant: 1 },
            report_of(replies[5]),
            "isancestor-"@ + ancestor + "-"@ + descendant,
        ).take(replies.len() as int),
{
    let command = BenchCommandsView::IsAncestor { ancestor, descendant, criterion };
    lemma_routine_run(
        SessionView::start(command, color),
        seq![
            ActionView::OpenWorkspace,
            ActionView::ResolveRevision(ancestor),
            ActionView::ResolveRevision(descendant),
        ],
        color,
        criterion,
        RoutineView::IsAncestor { ancestor: 0, descendant: 1 },
        is_ancestor_id(ancestor, descendant),
        replies,
    );
}

/// A run of `resolveprefix` that meets no error opens the workspace and benchmarks the prefix;
/// where the prefix is not hexadecimal, it stops once the workspace is open, whatever the sample.
///
/// With a sample that is too small the run stops where the runner would be set up. Whatever the
/// replies are, the actions so far are the first of that run.
pub proof fn law_resolve_prefix_run(
    prefix: Seq<char>,
    criterion: CriterionArgsView,
    color: bool,
    replies: Seq<ReplyView>,
)
    requires
        answered(
            SessionView::start(BenchCommandsView::ResolvePrefix { prefix, criterion }, color),
            replies,
        ),
    ensures
        replies.len() <= 6,
        !hex_digits_only(prefix) || criterion.sample_size < 10 ==> replies.len() <= 2,
        trace(
            SessionView::start(BenchCommandsView::ResolvePrefix { prefix, criterion }, color),
            replies,
        ) == (if hex_digits_only(prefix) {
            routine_run(
                seq![ActionView::OpenWorkspace],
                color,
                criterion,
                RoutineView::ResolvePrefix(hex_values(prefix)),
                report_of(replies[3]),
                "resolveprefix-"@ + prefix.map_values(|c: char| lower_case(c)),
            )
        } else {
            seq![ActionView::OpenWorkspace, ActionView::Stop(Outcome::InvalidPrefix)]
        }).take(replies.len() as int),
{
    let state = SessionView::start(BenchCommandsView::ResolvePrefix { prefix, criterion }, color);
    law_hex_digits(prefix);
    if is_hex(prefix) {
        law_hex_is_lower_case(prefix);
        lemma_routine_run(
            state,
            seq![ActionView::OpenWorkspace],
            color,
            criterion,
            RoutineView::ResolvePrefix(hex_values(prefix)),
            resolve_prefix_id(hex_text(hex_values(prefix))),
            replies,
        );
    } else {
        assert(replies.skip(0) == replies);
        lemma_trace(state, state.todo, replies, 0);
        reveal_with_fuel(with_reports, 3);
        assert(with_reports(state.todo, replies, 0) == state.todo);
    }
}

/// The run of the benchmark of one revset: it is announced, parsed and walked once, the first
/// walk is reported, and the revset is benchmarked under an id of its own.
pub open spec fn revset_run(revset: Seq<char>, report: Seq<char>) -> Seq<ActionView> {
    seq![
        ActionView::PrintLine("----------Testing revset: "@ + revset + "----------"@),
        ActionView::ParseRevset(revset),
        ActionView::CountRevset,
        ActionView::PrintLine(report),
        ActionView::BenchRevset((None, Some(revset))),
    ]
}

/// The runs of the benchmarks of several revsets, one after the other, where the reply at
/// `position` leads to the first action.
pub open spec fn revset_runs(
    revsets: Seq<Seq<char>>,
    replies: Seq<ReplyView>,
    position: int,
) -> Seq<ActionView>
    decreases revsets.len(),
{
    if revsets.len() == 0 {
        seq![]
    } else {
        revset_run(revsets.first(), report_of(replies[position + 3])) + revset_runs(
            revsets.drop_first(),
            replies,
            position + 5,
        )
    }
}

/// The run of the benchmarks of revsets, once they are known: the runner is set up, a group is
/// opened, each revset is benchmarked in order, the group is closed and all is summed up. Where
/// the sample is too small, the run stops in place of all this.
pub open spec fn revset_group_run(
    opening: Seq<ActionView>,
    color: bool,
    criterion: CriterionArgsView,
    revsets: Seq<Seq<char>>,
    replies: Seq<ReplyView>,
) -> Seq<ActionView> {
    if criterion.sample_size >= 10 {
        opening + seq![
            ActionView::CreateCriterion(asked_settings(color, criterion)),
            ActionView::OpenGroup("revsets"@),
        ] + revset_runs(revsets, replies, opening.len() as int + 2) + seq![
            ActionView::FinishGroup,
            ActionView::FinalSummary,
            ActionView::Stop(Outcome::Completed),
        ]
    } else {
        opening + seq![ActionView::Stop(Outcome::SampleSizeTooSmall)]
    }
}

proof fn lemma_revset_runs(
    revsets: Seq<Seq<char>>,
    tail: Seq<ActionView>,
    replies: Seq<ReplyView>,
    position: int,
)
    ensures
        revset_runs(revsets, replies, position).len() == 5 * revsets.len(),
        with_reports(bench_revsets_actions(revsets) + tail, replies, position) == revset_runs(
            revsets,
            replies,
            position,
        ) + with_reports(tail, replies, position + 5 * revsets.len()),
    decreases revsets.len(),
{
    if revsets.len() == 0 {
        assert(bench_revsets_actions(revsets) + tail == tail);
        assert(revset_runs(revsets, replies, position) + with_reports(tail, replies, position)
            == with_reports(tail, replies, position));
    } else {
        let revset = revsets.first();
        let rest = bench_revsets_actions(revsets.drop_first()) + tail;
        lemma_bench_revsets_first(revsets);
        lemma_revset_runs(revsets.drop_first(), tail, replies, position + 5);
        let prefix = seq![
            ActionView::PrintLine(revset_header(revset)),
            ActionView::ParseRevset(revset),
        ];
        let suffix = seq![ActionView::CountRevset, ActionView::BenchRevset(revset_id(revset))]
            + rest;
        assert(bench_revsets_actions(revsets) + tail == prefix + suffix);
        lemma_with_reports_after(prefix, suffix, replies, position);
        let last = seq![ActionView::BenchRevset(revset_id(revset))];
        assert(suffix.drop_first() == last + rest);
        lemma_with_reports_after(last, rest, replies, position + 4);
        assert(with_reports(suffix, replies, position + 2) == seq![
            ActionView::CountRevset,
            ActionView::PrintLine(report_of(replies[position + 3])),
        ] + (last + with_reports(rest, replies, position + 5)));
        assert(with_reports(bench_revsets_actions(revsets) + tail, replies, position)
            == revset_run(revset, report_of(replies[position + 3])) + with_reports(
            rest,
            replies,
            position + 5,
        ));
    }
}

proof fn lemma_revset_actions_stop(
    before: Seq<ActionView>,
    color: bool,
    criterion: CriterionArgsView,
    revsets: Seq<Seq<char>>,
)
    requires
        forall|i: int|
            0 <= i < before.len() ==> (#[trigger] before[i]).awaits() == Awaits::DoneOrError,
    ensures
        stops(
            before + with_runner(
                criterion,
                revset_actions(revsets, settings_for(color, criterion)),
            ),
        ),
{
    let settings = settings_for(color, criterion);
    let actions = with_runner(criterion, revset_actions(revsets, settings));
    let todo = before + actions;
    lemma_revset_actions(revsets, settings);
    assert(actions.last().awaits() == Awaits::Nothing);
    assert forall|i: int| 0 <= i < todo.len() implies (#[trigger] todo[i]).awaits()
        != Awaits::TextOrError && (todo[i].awaits() == Awaits::Nothing) == (i == todo.len()
        - 1) by {
        if i < before.len() {
            assert(todo[i] == before[i]);
        } else {
            assert(todo[i] == actions[i - before.len()]);
            assert(ends_plan(actions[i - before.len()].awaits()) == (i == todo.len() - 1));
        }
    }
}

#[verifier::spinoff_prover]
proof fn lemma_revset_actions_reports(
    color: bool,
    criterion: CriterionArgsView,
    revsets: Seq<Seq<char>>,
    replies: Seq<ReplyView>,
    start: int,
)
    ensures
        with_reports(
            revset_actions(revsets, settings_for(color, criterion)),
            replies,
            start,
        ) == seq![
            ActionView::CreateCriterion(asked_settings(color, criterion)),
            ActionView::OpenGroup("revsets"@),
        ] + revset_runs(revsets, replies, start + 2) + seq![
            ActionView::FinishGroup,
            ActionView::FinalSummary,
            ActionView::Stop(Outcome::Completed),
        ],
        revset_runs(revsets, replies, start + 2).len() == 5 * revsets.len(),
{
    let settings = settings_for(color, criterion);
    let head = seq![
        ActionView::CreateCriterion(settings),
        ActionView::OpenGroup(revset_group()),
    ];
    let tail = seq![
        ActionView::FinishGroup,
        ActionView::FinalSummary,
        ActionView::Stop(Outcome::Completed),
    ];
    let inner = bench_revsets_actions(revsets) + tail;
    assert(revset_actions(revsets, settings) == head + inner);
    lemma_with_reports_after(head, inner, replies, start);
    lemma_revset_runs(revsets, tail, replies, start + 2);
    lemma_with_reports_after(tail, seq![], replies, start + 2 + 5 * revsets.len());
    assert(tail + Seq::<ActionView>::empty() == tail);
    let runs = revset_runs(revsets, replies, start + 2);
    assert(head + (runs + tail) == head + runs + tail);
}

#[verifier::spinoff_prover]
proof fn lemma_revset_group_reports(
    opening: Seq<ActionView>,
    color: bool,
    criterion: CriterionArgsView,
    revsets: Seq<Seq<char>>,
    replies: Seq<ReplyView>,
    position: int,
)
    requires
        0 <= position <= opening.len(),
        forall|i: int|
            position <= i < opening.len() ==> (#[trigger] opening[i]).awaits()
                == Awaits::DoneOrError,
    ensures
        with_reports(
            opening.skip(position) + with_runner(
                criterion,
                revset_actions(revsets, settings_for(color, criterion)),
            ),
            replies,
            position,
        ) == revset_group_run(opening, color, criterion, revsets, replies).skip(position),
        revset_group_run(opening, color, criterion, revsets, replies).len() == opening.len() + (
        if criterion.valid() {
            5 * revsets.len() + 5
        } else {
            1
        }),
{
    let before = opening.skip(position);
    let settings = settings_for(color, criterion);
    let actions = with_runner(criterion, revset_actions(revsets, settings));
    let full = revset_group_run(opening, color, criterion, revsets, replies);
    let start = opening.len() as int;
    assert forall|i: int| 0 <= i < before.len() implies !is_first_run(#[trigger] before[i]) by {
        assert(before[i] == opening[position + i]);
    }
    lemma_with_reports_after(before, actions, replies, position);
    if criterion.valid() {
        lemma_revset_actions_reports(color, criterion, revsets, replies, start);
        let run = with_reports(actions, replies, start);
        assert(full == opening + run);
        assert(before + run == full.skip(position));
    } else {
        reveal_with_fuel(with_reports, 2);
        assert(with_reports(actions, replies, start) == actions);
        assert(before + actions == full.skip(position));
    }
}

proof fn lemma_revset_group_run(
    state: SessionView,
    opening: Seq<ActionView>,
    color: bool,
    criterion: CriterionArgsView,
    revsets: Seq<Seq<char>>,
    replies: Seq<ReplyView>,
    position: int,
)
    requires
        0 <= position <= replies.len(),
        position <= opening.len(),
        answered(state, replies.skip(position)),
        position < replies.len() ==> state.next(replies[position]) == (SessionView {
            todo: opening.skip(position) + with_runner(
                criterion,
                revset_actions(revsets, settings_for(color, criterion)),
            ),
            ..state
        }).advance(),
        forall|i: int|
            position <= i < opening.len() ==> (#[trigger] opening[i]).awaits()
                == Awaits::DoneOrError,
    ensures
        replies.len() <= opening.len() + (if criterion.valid() {
            5 * revsets.len() + 5
        } else {
            1
        }),
        trace(state, replies.skip(position)) == revset_group_run(
            opening,
            color,
            criterion,
            revsets,
            replies,
        ).subrange(position, replies.len() as int),
{
    let before = opening.skip(position);
    let settings = settings_for(color, criterion);
    let actions = with_runner(criterion, revset_actions(revsets, settings));
    let full = revset_group_run(opening, color, criterion, revsets, replies);
    assert forall|i: int| 0 <= i < before.len() implies (#[trigger] before[i]).awaits()
        == Awaits::DoneOrError by {
        assert(before[i] == opening[position + i]);
    }
    lemma_revset_actions_stop(before, color, criterion, revsets);
    lemma_revset_group_reports(opening, color, criterion, revsets, replies, position);
    lemma_trace(state, before + actions, replies, position);
    assert(full.skip(position).take(replies.len() - position) == full.subrange(
        position,
        replies.len() as int,
    ));
}

/// A run of `revset` with revsets given that meets no error opens the workspace and benchmarks
/// every revset, in the order given.
///
/// With a sample that is too small the run stops where the runner would be set up. Whatever the
/// replies are, the actions so far are the first of that run.
pub proof fn law_revset_run(
    revisions: Seq<Seq<char>>,
    criterion: CriterionArgsView,
    color: bool,
    replies: Seq<ReplyView>,
)
    requires
        answered(
            SessionView::start(
                BenchCommandsView::Revset { revisions, file: None, criterion },
                color,
            ),
            replies,
        ),
    ensures
        replies.len() <= 5 * revisions.len() + 6,
        criterion.sample_size < 10 ==> replies.len() <= 2,
        trace(
            SessionView::start(
                BenchCommandsView::Revset { revisions, file: None, criterion },
                color,
            ),
            replies,
        ) == revset_group_run(
            seq![ActionView::OpenWorkspace],
            color,
            criterion,
            revisions,
            replies,
        ).take(replies.len() as int),
{
    let command = BenchCommandsView::Revset { revisions, file: None, criterion };
    let opening = seq![ActionView::OpenWorkspace];
    assert(replies.skip(0) == replies);
    assert(opening.skip(0) == opening);
    lemma_revset_group_run(
        SessionView::start(command, color),
        opening,
        color,
        criterion,
        revisions,
        replies,
        0,
    );
}

/// A run of `revset` with a file named that meets no error opens the workspace, reads the file,
/// and benchmarks every revset that the file lists, in order. Revsets given beside the file do
/// not count.
///
/// With a sample that is too small the run stops where the runner would be set up. Whatever the
/// replies are, the actions so far are the first of that run.
pub proof fn law_revset_file_run(
    revisions: Seq<Seq<char>>,
    path: Seq<char>,
    criterion: CriterionArgsView,
    color: bool,
    replies: Seq<ReplyView>,
)
    requires
        answered(
            SessionView::start(
                BenchCommandsView::Revset { revisions, file: Some(path), criterion },
                color,
            ),
            replies,
        ),
    ensures
        trace(
            SessionView::start(
                BenchCommandsView::Revset { revisions, file: Some(path), criterion },
                color,
            ),
            replies,
        ) == (if replies.len() <= 2 {
            seq![ActionView::OpenWorkspace, ActionView::ReadFile(path)]
        } else {
            revset_group_run(
                seq![ActionView::OpenWorkspace, ActionView::ReadFile(path)],
                color,
                criterion,
                revset_lines(replies[2]->FileText_0),
                replies,
            )
        }).take(replies.len() as int),
        replies.len() > 2 ==> {
            &&& replies[2] is FileText
            &&& replies.len() <= 5 * revset_lines(replies[2]->FileText_0).len() + 7
            &&& criterion.sample_size < 10 ==> replies.len() <= 3
        },
{
    let command = BenchCommandsView::Revset { revisions, file: Some(path), criterion };
    let opening = seq![ActionView::OpenWorkspace, ActionView::ReadFile(path)];
    let state = SessionView::start(command, color);
    reveal_with_fuel(answered, 3);
    reveal_with_fuel(trace, 3);
    if replies.len() > 1 {
        assert(replies.drop_first()[0] == replies[1]);
        let waiting = state.next(replies[0]).0.next(replies[1]).0;
        assert(replies.drop_first().drop_first() == replies.skip(2));
        assert(trace(state, replies) == opening + trace(waiting, replies.skip(2)));
        if replies.len() > 2 {
            assert(replies.skip(2)[0] == replies[2]);
            let revsets = revset_lines(replies[2]->FileText_0);
            let actions = with_runner(
                criterion,
                revset_actions(revsets, settings_for(color, criterion)),
            );
            assert(opening.skip(2) + actions == actions);
            lemma_revset_group_run(waiting, opening, color, criterion, revsets, replies, 2);
            let full = revset_group_run(opening, color, criterion, revsets, replies);
            lemma_revset_runs(revsets, seq![], replies, 4);
            assert(opening + full.subrange(2, replies.len() as int) == full.take(
                replies.len() as int,
            ));
        } else {
            assert(trace(state, replies) == opening.take(2));
        }
    } else if replies.len() == 1 {
        assert(trace(state, replies) == opening.take(1));
    } else {
        assert(trace(state, replies) == opening.take(0));
    }
}

/// Whether an action comes before the runner is set up, or stops the run.
pub open spec fn needs_no_runner(action: ActionView) -> bool {
    match action {
        ActionView::OpenWorkspace => true,
        ActionView::ResolveRevision(_) => true,
        ActionView::ReadFile(_) => true,
        ActionView::Stop(_) => true,
        _ => false,
    }
}

/// With a sample that is too small no run gets as far as the runner: no routine is run, nothing is
/// printed, and nothing is benchmarked.
pub proof fn law_small_sample_runs_nothing(
    command: BenchCommandsView,
    color: bool,
    replies: Seq<ReplyView>,
    i: int,
)
    requires
        command.criterion().sample_size < 10,
        answered(SessionView::start(command, color), replies),
        0 <= i < replies.len(),
    ensures
        needs_no_runner(trace(SessionView::start(command, color), replies)[i]),
        trace(SessionView::start(command, color), replies)[i] != ActionView::Stop(
            Outcome::Completed,
        ),
{
    match command {
        BenchCommandsView::CommonAncestors { revision1, revision2, criterion } => {
            law_common_ancestors_run(revision1, revision2, criterion, color, replies);
        },
        BenchCommandsView::IsAncestor { ancestor, descendant, criterion } => {
            law_is_ancestor_run(ancestor, descendant, criterion, color, replies);
        },
        BenchCommandsView::ResolvePrefix { prefix, criterion } => {
            law_resolve_prefix_run(prefix, criterion, color, replies);
        },
        BenchCommandsView::Revset { revisions, file: None, criterion } => {
            law_revset_run(revisions, criterion, color, replies);
        },
        BenchCommandsView::Revset { revisions, file: Some(path), criterion } => {
            law_revset_file_run(revisions, path, criterion, color, replies);
        },
    }
}

proof fn lemma_revset_runs_set_up_nothing(
    revsets: Seq<Seq<char>>,
    replies: Seq<ReplyView>,
    position: int,
    i: int,
)
    requires
        0 <= i < revset_runs(revsets, replies, position).len(),
    ensures
        !(revset_runs(revsets, replies, position)[i] is CreateCriterion),
    decreases revsets.len(),
{
    if i >= 5 {
        lemma_revset_runs_set_up_nothing(revsets.drop_first(), replies, position + 5, i - 5);
    }
}

proof fn lemma_revset_group_set_up(
    opening: Seq<ActionView>,
    color: bool,
    criterion: CriterionArgsView,
    revsets: Seq<Seq<char>>,
    replies: Seq<ReplyView>,
    i: int,
)
    requires
        criterion.valid(),
        forall|j: int| 0 <= j < opening.len() ==> !((#[trigger] opening[j]) is CreateCriterion),
        0 <= i < opening.len() + 5 * revsets.len() + 5,
    ensures
        revset_group_run(opening, color, criterion, revsets, replies).len() == opening.len() + 5
            * revsets.len() + 5,
        revset_group_run(opening, color, criterion, revsets, replies)[i] is CreateCriterion
            ==> revset_group_run(opening, color, criterion, revsets, replies)[i]
            == ActionView::CreateCriterion(asked_settings(color, criterion)),
{
    let full = revset_group_run(opening, color, criterion, revsets, replies);
    let start = opening.len() as int + 2;
    let runs = revset_runs(revsets, replies, start);
    lemma_revset_runs(revsets, seq![], replies, start);
    if i < opening.len() {
        assert(full[i] == opening[i]);
    } else if start <= i < start + runs.len() {
        assert(full[i] == runs[i - start]);
        lemma_revset_runs_set_up_nothing(revsets, replies, start, i - start);
    }
}

/// Whenever a run sets up the runner, it does so as the arguments ask, with a sample that is large
/// enough.
pub proof fn law_runner_set_up(
    command: BenchCommandsView,
    color: bool,
    replies: Seq<ReplyView>,
    i: int,
)
    requires
        answered(SessionView::start(command, color), replies),
        0 <= i < replies.len(),
    ensures
        trace(SessionView::start(command, color), replies)[i] matches ActionView::CreateCriterion(
            settings,
        ) ==> {
            &&& settings == asked_settings(color, command.criterion())
            &&& settings.sample_size == command.criterion().sample_size
            &&& settings.sample_size >= 10
        },
{
    if !command.criterion().valid() {
        law_small_sample_runs_nothing(command, color, replies, i);
    } else {
        match command {
            BenchCommandsView::CommonAncestors { revision1, revision2, criterion } => {
                law_common_ancestors_run(revision1, revision2, criterion, color, replies);
            },
            BenchCommandsView::IsAncestor { ancestor, descendant, criterion } => {
                law_is_ancestor_run(ancestor, descendant, criterion, color, replies);
            },
            BenchCommandsView::ResolvePrefix { prefix, criterion } => {
                law_resolve_prefix_run(prefix, criterion, color, replies);
            },
            BenchCommandsView::Revset { revisions, file: None, criterion } => {
                law_revset_run(revisions, criterion, color, replies);
                let opening = seq![ActionView::OpenWorkspace];
                lemma_revset_group_set_up(opening, color, criterion, revisions, replies, i);
            },
            BenchCommandsView::Revset { revisions, file: Some(path), criterion } => {
                law_revset_file_run(revisions, path, criterion, color, replies);
                if replies.len() > 2 {
                    let opening = seq![ActionView::OpenWorkspace, ActionView::ReadFile(path)];
                    let revsets = revset_lines(replies[2]->FileText_0);
                    lemma_revset_group_set_up(opening, color, criterion, revsets, replies, i);
                }
            },
        }
    }
}

pub(crate) proof fn lemma_trim_start(s: Seq<char>)
    ensures
        trim_start(s).len() <= s.len(),
        trim_start(s) == s.skip(s.len() - trim_start(s).len()),
        trim_start(s).len() > 0 ==> !white_space(trim_start(s).first()),
    decreases s.len(),
{
    if s.len() > 0 && white_space(s.first()) {
        lemma_trim_start(s.drop_first());
    }
    assert(trim_start(s) == s.skip(s.len() - trim_start(s).len()));
}

pub(crate) proof fn lemma_trim_end(s: Seq<char>)
    ensures
        trim_end(s).len() <= s.len(),
        trim_end(s) == s.take(trim_end(s).len() as int),
        trim_end(s).len() > 0 ==> !white_space(trim_end(s).last()),
    decreases s.len(),
{
    if s.len() > 0 && white_space(s.last()) {
        lemma_trim_end(s.drop_last());
    }
    assert(trim_end(s) == s.take(trim_end(s).len() as int));
}

/// What is left of a text once it is trimmed comes from the text, and has no white space on
/// either side.
pub proof fn law_trim(s: Seq<char>)
    ensures
        trim(s).len() > 0 ==> !white_space(trim(s).first()) && !white_space(trim(s).last()),
        forall|i: int| 0 <= i < trim(s).len() ==> s.contains(#[trigger] trim(s)[i]),
{
    let t = trim_start(s);
    lemma_trim_start(s);
    lemma_trim_end(t);
    if trim(s).len() > 0 {
        assert(trim(s).first() == t.first());
    }
    assert forall|i: int| 0 <= i < trim(s).len() implies s.contains(#[trigger] trim(s)[i]) by {
        assert(trim(s)[i] == s[s.len() - t.len() + i]);
    }
}

proof fn lemma_first_line(s: Seq<char>)
    ensures
        first_line_len(s) <= s.len(),
        forall|i: int| 0 <= i < first_line_len(s) ==> #[trigger] s[i] != '\n',
        first_line_len(s) < s.len() ==> s[first_line_len(s) as int] == '\n',
    decreases s.len(),
{
    if s.len() > 0 && s.first() != '\n' {
        let rest = s.drop_first();
        lemma_first_line(rest);
        assert forall|i: int| 0 <= i < first_line_len(s) implies #[trigger] s[i] != '\n' by {
            if i > 0 {
                assert(s[i] == rest[i - 1]);
            }
        }
    }
}

proof fn lemma_lines(s: Seq<char>, k: int)
    requires
        0 <= k < lines(s).len(),
    ensures
        !lines(s)[k].contains('\n'),
    decreases s.len(),
{
    let n = first_line_len(s) as int;
    lemma_first_line(s);
    if n < s.len() {
        if k > 0 {
            lemma_lines(s.skip(n + 1), k - 1);
        }
    }
}

proof fn lemma_filter_from(s: Seq<Seq<char>>, kept: spec_fn(Seq<char>) -> bool, i: int)
    requires
        0 <= i < s.filter(kept).len(),
    ensures
        s.contains(s.filter(kept)[i]),
    decreases s.len(),
{
    reveal(Seq::filter);
    let rest = s.drop_last();
    if i < rest.filter(kept).len() {
        lemma_filter_from(rest, kept, i);
        let k = choose|k: int| 0 <= k < rest.len() && rest[k] == rest.filter(kept)[i];
        assert(s[k] == s.filter(kept)[i]);
    } else {
        assert(s[s.len() - 1] == s.filter(kept)[i]);
    }
}

/// Every revset that a file lists stands on one line, is not blank, is no comment, and has no
/// white space on either side.
pub proof fn law_revset_lines(text: Seq<char>, i: int)
    requires
        0 <= i < revset_lines(text).len(),
    ensures
        clean_revset(revset_lines(text)[i]),
{
    let trimmed = lines(text).map_values(|line: Seq<char>| trim(line));
    let kept = |line: Seq<char>| is_revset(line);
    let revset = revset_lines(text)[i];
    trimmed.lemma_filter_pred(kept, i);
    lemma_filter_from(trimmed, kept, i);
    let k = choose|k: int| 0 <= k < trimmed.len() && trimmed[k] == revset;
    let line = lines(text)[k];
    law_trim(line);
    lemma_lines(text, k);
    if revset.contains('\n') {
        let j = choose|j: int| 0 <= j < revset.len() && revset[j] == '\n';
        assert(line.contains(trim(line)[j]));
    }
}

/// Whether a text is a revset as a file lists it.
pub open spec fn clean_revset(revset: Seq<char>) -> bool {
    &&& revset.len() > 0
    &&& revset.first() != '#'
    &&& !white_space(revset.first())
    &&& !white_space(revset.last())
    &&& !revset.contains('\n')
}

proof fn lemma_revsets_among_add(a: Seq<Seq<char>>, b: Seq<Seq<char>>)
    ensures
        revsets_among(a + b) == revsets_among(a) + revsets_among(b),
{
    let f = |line: Seq<char>| trim(line);
    let kept = |line: Seq<char>| is_revset(line);
    assert((a + b).map_values(f) == a.map_values(f) + b.map_values(f));
    Seq::filter_distributes_over_add(a.map_values(f), b.map_values(f), kept);
}

proof fn lemma_revsets_among_one(line: Seq<char>)
    ensures
        revsets_among(seq![line]) == (if is_revset(trim(line)) {
            seq![trim(line)]
        } else {
            seq![]
        }),
{
    let f = |line: Seq<char>| trim(line);
    let kept = |line: Seq<char>| is_revset(line);
    let one = seq![line].map_values(f);
    assert(one == seq![trim(line)]);
    assert(one.drop_last() == Seq::<Seq<char>>::empty());
    reveal(Seq::filter);
    assert(one.drop_last().filter(kept) == Seq::<Seq<char>>::empty());
    assert(one.filter(kept) == (if is_revset(trim(line)) {
        seq![trim(line)]
    } else {
        seq![]
    }));
}

proof fn lemma_trim_start_push(s: Seq<char>, c: char)
    requires
        white_space(c),
    ensures
        trim_start(s.push(c)) == (if trim_start(s).len() == 0 {
            seq![]
        } else {
            trim_start(s).push(c)
        }),
    decreases s.len(),
{
    if s.len() == 0 {
        assert(s.push(c).drop_first() == Seq::<char>::empty());
        reveal_with_fuel(trim_start, 2);
    } else if white_space(s.first()) {
        assert(s.push(c).drop_first() == s.drop_first().push(c));
        lemma_trim_start_push(s.drop_first(), c);
    }
}

proof fn lemma_trim_without_carriage_return(s: Seq<char>)
    ensures
        trim(without_carriage_return(s)) == trim(s),
{
    if s.len() > 0 && s.last() == '\r' {
        let rest = s.drop_last();
        assert(s == rest.push('\r'));
        lemma_trim_start_push(rest, '\r');
        let t = trim_start(rest);
        if t.len() > 0 {
            assert(t.push('\r').drop_last() == t);
        } else {
            assert(t == Seq::<char>::empty());
        }
    }
}

proof fn lemma_first_line_add(a: Seq<char>, b: Seq<char>)
    ensures
        first_line_len(a + seq!['\n'] + b) == first_line_len(a),
    decreases a.len(),
{
    let all = a + seq!['\n'] + b;
    if a.len() > 0 && a.first() != '\n' {
        assert(all.drop_first() == a.drop_first() + seq!['\n'] + b);
        lemma_first_line_add(a.drop_first(), b);
    }
}

/// What one part of a file lists does not depend on the lines before and after it.
pub proof fn law_revset_lines_of_parts(a: Seq<char>, b: Seq<char>)
    ensures
        revset_lines(a + seq!['\n'] + b) == revset_lines(a) + revset_lines(b),
    decreases a.len(),
{
    let all = a + seq!['\n'] + b;
    let n = first_line_len(a) as int;
    lemma_first_line(a);
    lemma_first_line_add(a, b);
    assert(all.take(n) == a.take(n));
    let first = without_carriage_return(a.take(n));
    lemma_revsets_among_one(first);
    lemma_revsets_among_one(a);
    lemma_trim_without_carriage_return(a);
    assert(lines(all) == seq![first] + lines(all.skip(n + 1)));
    lemma_revsets_among_add(seq![first], lines(all.skip(n + 1)));
    if n < a.len() {
        assert(all.skip(n + 1) == a.skip(n + 1) + seq!['\n'] + b);
        law_revset_lines_of_parts(a.skip(n + 1), b);
        lemma_revsets_among_add(seq![first], lines(a.skip(n + 1)));
        assert(revset_lines(all) == revset_lines(a) + revset_lines(b));
    } else {
        assert(all.skip(n + 1) == b);
        assert(a.take(n) == a);
        if a.len() == 0 {
            assert(trim(a) == a);
            assert(revset_lines(a) == Seq::<Seq<char>>::empty()) by {
                reveal(Seq::filter);
            }
        }
        assert(revset_lines(all) == revset_lines(a) + revset_lines(b));
    }
}

/// A blank line or a comment changes nothing in what a file lists.
pub proof fn law_ignored_line(before: Seq<char>, line: Seq<char>, after: Seq<char>)
    requires
        !line.contains('\n'),
        trim(line).len() == 0 || trim(line)[0] == '#',
    ensures
        revset_lines(before + seq!['\n'] + (line + seq!['\n'] + after)) == revset_lines(
            before + seq!['\n'] + after,
        ),
{
    law_revset_lines_of_parts(before, line + seq!['\n'] + after);
    law_revset_lines_of_parts(line, after);
    law_revset_lines_of_parts(before, after);
    lemma_one_line(line);
    assert(revset_lines(line) + revset_lines(after) == revset_lines(after));
}

pub(crate) proof fn lemma_one_line(line: Seq<char>)
    requires
        !line.contains('\n'),
    ensures
        revset_lines(line) == (if is_revset(trim(line)) {
            seq![trim(line)]
        } else {
            seq![]
        }),
{
    lemma_first_line(line);
    lemma_revsets_among_one(line);
    if first_line_len(line) < line.len() {
        assert(line.contains(line[first_line_len(line) as int]));
    }
    if line.len() == 0 {
        assert(trim(line) == line);
        reveal(Seq::filter);
        assert(revset_lines(line) == Seq::<Seq<char>>::empty());
    }
}

/// A file with one revset on each line.
pub open spec fn listing(revsets: Seq<Seq<char>>) -> Seq<char>
    decreases revsets.len(),
{
    if revsets.len() == 0 {
        seq![]
    } else {
        revsets.first() + seq!['\n'] + listing(revsets.drop_first())
    }
}

/// Revsets written one to a line are read back as they were.
pub proof fn law_listing_is_read_back(revsets: Seq<Seq<char>>)
    requires
        forall|i: int| 0 <= i < revsets.len() ==> clean_revset(#[trigger] revsets[i]),
    ensures
        revset_lines(listing(revsets)) == revsets,
    decreases revsets.len(),
{
    if revsets.len() == 0 {
        reveal(Seq::filter);
        assert(revset_lines(listing(revsets)) == revsets);
    } else {
        let first = revsets.first();
        let rest = revsets.drop_first();
        assert(clean_revset(revsets[0]));
        assert forall|i: int| 0 <= i < rest.len() implies clean_revset(#[trigger] rest[i]) by {
            assert(rest[i] == revsets[i + 1]);
        }
        law_listing_is_read_back(rest);
        law_revset_lines_of_parts(first, listing(rest));
        lemma_one_line(first);
        assert(trim(first) == first);
        assert(seq![first] + rest == revsets);
    }
}

/// Whether a text consists of the characters from `0` to `9`, from `a` to `f` and from `A` to `F`.
pub open spec fn hex_digits_only(s: Seq<char>) -> bool {
    forall|i: int|
        0 <= i < s.len() ==> ('0' <= #[trigger] s[i] <= '9') || ('a' <= s[i] <= 'f') || ('A' <= s[i]
            <= 'F')
}

/// A prefix is hexadecimal if and only if it consists of hexadecimal digits, of either case,
/// however many they are.
pub proof fn law_hex_digits(prefix: Seq<char>)
    ensures
        is_hex(prefix) <==> hex_digits_only(prefix),
{
    if is_hex(prefix) {
        assert forall|i: int| 0 <= i < prefix.len() implies ('0' <= #[trigger] prefix[i] <= '9') || (
        'a' <= prefix[i] <= 'f') || ('A' <= prefix[i] <= 'F') by {
            assert(is_hex_digit(prefix[i]));
        }
    }
}

/// A prefix with one more character is hexadecimal if and only if the prefix is and the character
/// is a hexadecimal digit.
pub proof fn law_hex_grows_by_digits(prefix: Seq<char>, c: char)
    ensures
        is_hex(Seq::<char>::empty()),
        is_hex(prefix.push(c)) <==> is_hex(prefix) && (('0' <= c <= '9') || ('a' <= c <= 'f') || (
        'A' <= c <= 'F')),
{
    let longer = prefix.push(c);
    law_hex_digits(prefix);
    law_hex_digits(longer);
    if hex_digits_only(longer) {
        assert(longer[prefix.len() as int] == c);
        assert forall|i: int| 0 <= i < prefix.len() implies ('0' <= #[trigger] prefix[i] <= '9') || (
        'a' <= prefix[i] <= 'f') || ('A' <= prefix[i] <= 'F') by {
            assert(longer[i] == prefix[i]);
        }
    }
}

/// Each digit of a prefix stands for its value.
pub proof fn law_hex_values(prefix: Seq<char>, i: int)
    requires
        hex_digits_only(prefix),
        0 <= i < prefix.len(),
    ensures
        hex_values(prefix).len() == prefix.len(),
        hex_values(prefix)[i] == (if prefix[i] <= '9' {
            prefix[i] as int - '0' as int
        } else if prefix[i] <= 'F' {
            prefix[i] as int - 'A' as int + 10
        } else {
            prefix[i] as int - 'a' as int + 10
        }),
        hex_values(prefix)[i] < 16,
{
}

/// Each value below sixteen is written as its digit.
pub proof fn law_hex_text(values: Seq<u8>, i: int)
    requires
        0 <= i < values.len(),
        values[i] < 16,
    ensures
        hex_text(values).len() == values.len(),
        hex_text(values)[i] as int == (if values[i] < 10 {
            '0' as int + values[i]
        } else {
            'a' as int + (values[i] - 10)
        }),
{
}

/// The lower-case form of a hexadecimal digit.
pub open spec fn lower_case(c: char) -> char {
    if 'A' <= c <= 'F' {
        (c as int - 'A' as int + 'a' as int) as char
    } else {
        c
    }
}

/// A prefix is written in lower case, digit for digit as it was given.
pub proof fn law_hex_is_lower_case(prefix: Seq<char>)
    requires
        is_hex(prefix),
    ensures
        hex_text(hex_values(prefix)) == prefix.map_values(|c: char| lower_case(c)),
{
    assert forall|i: int| 0 <= i < prefix.len() implies #[trigger] hex_text(hex_values(prefix))[i]
        == lower_case(prefix[i]) by {
        assert(is_hex_digit(prefix[i]));
    }
    assert(hex_text(hex_values(prefix)) == prefix.map_values(|c: char| lower_case(c)));
}

/// A prefix is read back from what it is written as.
pub proof fn law_hex_is_read_back(prefix: Seq<char>)
    requires
        is_hex(prefix),
    ensures
        is_hex(hex_text(hex_values(prefix))),
        hex_values(hex_text(hex_values(prefix))) == hex_values(prefix),
{
    let hex = hex_text(hex_values(prefix));
    law_hex_is_lower_case(prefix);
    assert forall|i: int| 0 <= i < hex.len() implies is_hex_digit(#[trigger] hex[i]) && hex_value(
        hex[i],
    ) == hex_value(prefix[i]) by {
        assert(is_hex_digit(prefix[i]));
        assert(hex[i] == lower_case(prefix[i]));
    }
    assert(hex_values(hex) == hex_values(prefix));
}

/// Two prefixes are the same exactly where they differ at most in case.
pub proof fn law_hex_ignores_case(prefix1: Seq<char>, prefix2: Seq<char>)
    requires
        is_hex(prefix1),
        is_hex(prefix2),
    ensures
        (prefix1.map_values(|c: char| lower_case(c)) == prefix2.map_values(
            |c: char| lower_case(c),
        )) == (hex_values(prefix1) == hex_values(prefix2)),
{
    law_hex_is_lower_case(prefix1);
    law_hex_is_lower_case(prefix2);
    law_hex_is_read_back(prefix1);
    law_hex_is_read_back(prefix2);
}

/// The benchmarks of different commands never share a name.
pub proof fn law_names_differ(
    revision1: Seq<char>,
    revision2: Seq<char>,
    ancestor: Seq<char>,
    descendant: Seq<char>,
    hex: Seq<char>,
)
    ensures
        common_ancestors_id(revision1, revision2) != is_ancestor_id(ancestor, descendant),
        common_ancestors_id(revision1, revision2) != resolve_prefix_id(hex),
        common_ancestors_id(revision1, revision2) != revset_group(),
        is_ancestor_id(ancestor, descendant) != resolve_prefix_id(hex),
        is_ancestor_id(ancestor, descendant) != revset_group(),
        resolve_prefix_id(hex) != revset_group(),
{
    reveal_strlit("commonancestors-");
    reveal_strlit("isancestor-");
    reveal_strlit("resolveprefix-");
    reveal_strlit("revsets");
    assert(common_ancestors_id(revision1, revision2)[0] == 'c');
    assert(is_ancestor_id(ancestor, descendant)[0] == 'i');
    assert(resolve_prefix_id(hex)[0] == 'r');
    assert(resolve_prefix_id(hex)[2] == 's');
    assert(revset_group()[0] == 'r');
    assert(revset_group()[2] == 'v');
}

/// Within the group, different revsets are benchmarked under different ids.
pub proof fn law_revset_ids_differ(revset1: Seq<char>, revset2: Seq<char>)
    requires
        revset1 != revset2,
    ensures
        revset_id(revset1) != revset_id(revset2),
{
}

/// The options make arguments only with a sample that is large enough, and the runner is then
/// set up with exactly that sample, whatever the baseline.
pub proof fn law_sample_size(
    save_baseline: Option<Seq<char>>,
    baseline: Option<Seq<char>>,
    sample_size: Option<u32>,
    color: bool,
)
    ensures
        criterion_args(save_baseline, baseline, sample_size) matches Ok(args) ==> {
            &&& args.valid()
            &&& args.sample_size >= 10
            &&& args.sample_size == (match sample_size {
                Some(size) => size as nat,
                None => 100,
            })
            &&& settings_for(color, args).sample_size == args.sample_size
        },
{
}

/// Once an error or a stop has ended a run, no reply and no error is taken any more.
pub proof fn law_end_is_final(state: SessionView, outcome: Outcome, reply: ReplyView)
    ensures
        !state.aborted().awaits.accepts(reply),
        !state.aborted().awaits.accepts_error(),
        !state.performing(ActionView::Stop(outcome)).0.awaits.accepts(reply),
        !state.performing(ActionView::Stop(outcome)).0.awaits.accepts_error(),
{
}

} // verus!
