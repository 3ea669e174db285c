//! What whole runs are for: with every reply there, a command does all that it is meant to do.

use vstd::prelude::*;

use crate::args::{BenchCommandsView, CriterionArgsView};
use crate::hex_prefix::{hex_values, is_hex};
use crate::laws::{
    answered, asked_settings, hex_digits_only, law_common_ancestors_run, law_hex_digits,
    law_hex_is_lower_case, law_is_ancestor_run, law_resolve_prefix_run, lower_case, trace,
};
use crate::report::{duration_text, Elapsed};
use crate::session::{
    bench_revset_actions, bench_revsets_actions, lemma_bench_revsets_first, ActionView, Awaits,
    Outcome, ReplyView, RoutineView, SessionView,
};
use crate::text::{decimal, revset_lines};

verus! {

/// Every command can be started, and is started in one way: with `Done`, and not with an error.
/// The first thing that it does is to open the workspace.
pub proof fn law_start(command: BenchCommandsView, color: bool, reply: ReplyView)
    ensures
        ({
            let start = SessionView::start(command, color);
            &&& start.awaits.accepts(reply) <==> reply == ReplyView::Done
            &&& !start.awaits.accepts_error()
            &&& start.next(ReplyView::Done).1 == ActionView::OpenWorkspace
        }),
{
}

/// With a sample that is large enough, and with every reply there, `commonancestors` opens the
/// workspace, resolves the two revisions, sets up the runner as asked, runs the routine on the
/// two commits once, prints how long that took and what it produced, benchmarks the same routine
/// under the name of the two revisions, and is done.
pub proof fn law_common_ancestors_completes(
    revision1: Seq<char>,
    revision2: Seq<char>,
    criterion: CriterionArgsView,
    color: bool,
    elapsed: Elapsed,
    produced: Seq<char>,
)
    requires
        criterion.sample_size >= 10,
        elapsed.nanos < 1_000_000_000,
    ensures
        ({
            let start = SessionView::start(
                BenchCommandsView::CommonAncestors { revision1, revision2, criterion },
                color,
            );
            let routine = RoutineView::CommonAncestors { commit1: 0, commit2: 1 };
            let replies = seq![
                ReplyView::Done,
                ReplyView::Done,
                ReplyView::Done,
                ReplyView::Done,
                ReplyView::Done,
                ReplyView::RoutineRan(elapsed, produced),
                ReplyView::Done,
                ReplyView::Done,
            ];
            &&& answered(start, replies)
            &&& trace(start, replies) == seq![
                ActionView::OpenWorkspace,
                ActionView::ResolveRevision(revision1),
                ActionView::ResolveRevision(revision2),
                ActionView::CreateCriterion(asked_settings(color, criterion)),
                ActionView::RunRoutine(routine),
                ActionView::PrintLine(
                    "First run took "@ + duration_text(elapsed.secs, elapsed.nanos)
                        + " and produced: "@ + produced,
                ),
                ActionView::BenchFunction(
                    "commonancestors-"@ + revision1 + "-"@ + revision2,
                    routine,
                ),
                ActionView::Stop(Outcome::Completed),
            ]
        }),
{
    let command = BenchCommandsView::CommonAncestors { revision1, revision2, criterion };
    let replies = seq![
        ReplyView::Done,
        ReplyView::Done,
        ReplyView::Done,
        ReplyView::Done,
        ReplyView::Done,
        ReplyView::RoutineRan(elapsed, produced),
        ReplyView::Done,
        ReplyView::Done,
    ];
    reveal_with_fuel(answered, 9);
    assert(answered(SessionView::start(command, color), replies));
    law_common_ancestors_run(revision1, revision2, criterion, color, replies);
}

/// With a sample that is large enough, and with every reply there, `isancestor` opens the
/// workspace, resolves the ancestor and the descendant, sets up the runner as asked, runs the
/// routine on the two commits once, prints how long that took and what it produced, benchmarks
/// the same routine under the name of the two revisions, and is done.
pub proof fn law_is_ancestor_completes(
    ancestor: Seq<char>,
    descendant: Seq<char>,
    criterion: CriterionArgsView,
    color: bool,
    elapsed: Elapsed,
    produced: Seq<char>,
)
    requires
        criterion.sample_size >= 10,
        elapsed.nanos < 1_000_000_000,
    ensures
        ({
            let start = SessionView::start(
                BenchCommandsView::IsAncestor { ancestor, descendant, criterion },
                color,
            );
            let routine = RoutineView::IsAncestor { ancestor: 0, descendant: 1 };
            let replies = seq![
                ReplyView::Done,
                ReplyView::Done,
                ReplyView::Done,
                ReplyView::Done,
                ReplyView::Done,
                ReplyView::RoutineRan(elapsed, produced),
                ReplyView::Done,
                ReplyView::Done,
            ];
            &&& answered(start, replies)
            &&& trace(start, replies) == seq![
                ActionView::OpenWorkspace,
                ActionView::ResolveRevision(ancestor),
                ActionView::ResolveRevision(descendant),
                ActionView::CreateCriterion(asked_settings(color, criterion)),
                ActionView::RunRoutine(routine),
                ActionView::PrintLine(
                    "First run took "@ + duration_text(elapsed.secs, elapsed.nanos)
                        + " and produced: "@ + produced,
                ),
                ActionView::BenchFunction("isancestor-"@ + ancestor + "-"@ + descendant, routine),
                ActionView::Stop(Outcome::Completed),
            ]
        }),
{
    let command = BenchCommandsView::IsAncestor { ancestor, descendant, criterion };
    let replies = seq![
        ReplyView::Done,
        ReplyView::Done,
        ReplyView::Done,
        ReplyView::Done,
        ReplyView::Done,
        ReplyView::RoutineRan(elapsed, produced),
        ReplyView::Done,
        ReplyView::Done,
    ];
    reveal_with_fuel(answered, 9);
    assert(answered(SessionView::start(command, color), replies));
    law_is_ancestor_run(ancestor, descendant, criterion, color, replies);
}

/// With a sample that is large enough, and with every reply there, `resolveprefix` takes any
/// prefix of hexadecimal digits: it opens the workspace, sets up the runner as asked, resolves
/// the prefix once, prints how long that took and what it produced, benchmarks the same prefix
/// under its lower-case form, and is done.
pub proof fn law_resolve_prefix_completes(
    prefix: Seq<char>,
    criterion: CriterionArgsView,
    color: bool,
    elapsed: Elapsed,
    produced: Seq<char>,
)
    requires
        hex_digits_only(prefix),
        criterion.sample_size >= 10,
        elapsed.nanos < 1_000_000_000,
    ensures
        ({
            let start = SessionView::start(
                BenchCommandsView::ResolvePrefix { prefix, criterion },
                color,
            );
            let routine = RoutineView::ResolvePrefix(hex_values(prefix));
            let replies = seq![
                ReplyView::Done,
                ReplyView::Done,
                ReplyView::Done,
                ReplyView::RoutineRan(elapsed, produced),
                ReplyView::Done,
                ReplyView::Done,
            ];
            &&& answered(start, replies)
            &&& trace(start, replies) == seq![
                ActionView::OpenWorkspace,
                ActionView::CreateCriterion(asked_settings(color, criterion)),
                ActionView::RunRoutine(routine),
                ActionView::PrintLine(
                    "First run took "@ + duration_text(elapsed.secs, elapsed.nanos)
                        + " and produced: "@ + produced,
                ),
                ActionView::BenchFunction(
                    "resolveprefix-"@ + prefix.map_values(|c: char| lower_case(c)),
                    routine,
                ),
                ActionView::Stop(Outcome::Completed),
            ]
        }),
{
    let command = BenchCommandsView::ResolvePrefix { prefix, criterion };
    let replies = seq![
        ReplyView::Done,
        ReplyView::Done,
        ReplyView::Done,
        ReplyView::RoutineRan(elapsed, produced),
        ReplyView::Done,
        ReplyView::Done,
    ];
    law_hex_digits(prefix);
    assert(is_hex(prefix));
    law_hex_is_lower_case(prefix);
    reveal_with_fuel(answered, 7);
    assert(answered(SessionView::start(command, color), replies));
    law_resolve_prefix_run(prefix, criterion, color, replies);
}

/// A prefix is refused, once the workspace is open, if and only if one of its characters is not a
/// hexadecimal digit.
pub proof fn law_invalid_prefix_stops(
    prefix: Seq<char>,
    criterion: CriterionArgsView,
    color: bool,
    replies: Seq<ReplyView>,
    i: int,
)
    requires
        answered(
            SessionView::start(BenchCommandsView::ResolvePrefix { prefix, criterion }, color),
            replies,
        ),
        0 <= i < replies.len(),
    ensures
        trace(
            SessionView::start(BenchCommandsView::ResolvePrefix { prefix, criterion }, color),
            replies,
        )[i] == ActionView::Stop(Outcome::InvalidPrefix) <==> i == 1 && !hex_digits_only(prefix),
{
    law_resolve_prefix_run(prefix, criterion, color, replies);
}

/// A run of `commonancestors`, `isancestor` or `resolveprefix` that is done has run one routine
/// and benchmarked that routine, each once and in this order, and has printed one line between
/// the two.
pub proof fn law_done_means_benchmarked(
    command: BenchCommandsView,
    color: bool,
    replies: Seq<ReplyView>,
    i: int,
)
    requires
        !(command is Revset),
        answered(SessionView::start(command, color), replies),
        replies.len() > 0,
        trace(SessionView::start(command, color), replies).last() == ActionView::Stop(
            Outcome::Completed,
        ),
        0 <= i < replies.len(),
    ensures
        ({
            let actions = trace(SessionView::start(command, color), replies);
            let n = replies.len() as int;
            &&& actions.len() == n
            &&& n >= 6
            &&& actions[i] is CreateCriterion <==> i == n - 5
            &&& actions[i] is RunRoutine <==> i == n - 4
            &&& actions[i] is PrintLine <==> i == n - 3
            &&& actions[i] is BenchFunction <==> i == n - 2
            &&& actions[n - 4]->RunRoutine_0 == actions[n - 2]->BenchFunction_1
        }),
{
    match command {
        BenchCommandsView::CommonAncestors { revision1, revision2, criterion } => {
            law_common_ancestors_run(revision1, revision2, criterion, color, replies);
        },
        BenchCommandsView::IsAncestor { ancestor, descendant, criterion } => {
            law_is_ancestor_run(ancestor, descendant, criterion, color, replies);
        },
        BenchCommandsView::ResolvePrefix { prefix, criterion } => {
            law_resolve_prefix_run(prefix, criterion, color, replies);
        },
        BenchCommandsView::Revset { .. } => {},
    }
}

/// The replies that the benchmarks of revsets meet with, where each revset has its first walk.
pub open spec fn walk_replies(walks: Seq<(Elapsed, nat)>) -> Seq<ReplyView>
    decreases walks.len(),
{
    if walks.len() == 0 {
        seq![]
    } else {
        seq![
            ReplyView::Done,
            ReplyView::Done,
            ReplyView::Done,
            ReplyView::RevsetCounted(walks.first().0, walks.first().1),
            ReplyView::Done,
        ] + walk_replies(walks.drop_first())
    }
}

/// What the benchmarks of revsets do: each revset in turn is announced, parsed and walked, its
/// first walk is reported, and it is benchmarked under itself.
pub open spec fn walk_actions(revsets: Seq<Seq<char>>, walks: Seq<(Elapsed, nat)>) -> Seq<ActionView>
    decreases revsets.len(),
{
    if revsets.len() == 0 {
        seq![]
    } else {
        let revset = revsets.first();
        let (elapsed, count) = walks.first();
        seq![
            ActionView::PrintLine("----------Testing revset: "@ + revset + "----------"@),
            ActionView::ParseRevset(revset),
            ActionView::CountRevset,
            ActionView::PrintLine(
                "First run took "@ + duration_text(elapsed.secs, elapsed.nanos) + " and produced "@
                    + decimal(count) + " commits"@,
            ),
            ActionView::BenchRevset((None, Some(revset))),
        ] + walk_actions(revsets.drop_first(), walks.drop_first())
    }
}

proof fn lemma_step(state: SessionView, reply: ReplyView, rest: Seq<ReplyView>)
    ensures
        answered(state, seq![reply] + rest) == (state.awaits.accepts(reply) && answered(
            state.next(reply).0,
            rest,
        )),
        trace(state, seq![reply] + rest) == seq![state.next(reply).1] + trace(
            state.next(reply).0,
            rest,
        ),
{
    let all = seq![reply] + rest;
    assert(all.first() == reply);
    assert(all.drop_first() == rest);
}

/// Where the actions that are left are these, the reply leads to the first of them.
proof fn lemma_take(
    state: SessionView,
    action: ActionView,
    left: Seq<ActionView>,
    rest: Seq<ReplyView>,
)
    requires
        state.awaits == Awaits::Done || state.awaits == Awaits::DoneOrError,
        state.todo == seq![action] + left,
    ensures
        answered(state, seq![ReplyView::Done] + rest) == answered(
            SessionView { todo: left, awaits: action.awaits(), ..state },
            rest,
        ),
        trace(state, seq![ReplyView::Done] + rest) == seq![action] + trace(
            SessionView { todo: left, awaits: action.awaits(), ..state },
            rest,
        ),
{
    lemma_step(state, ReplyView::Done, rest);
    assert(state.todo.drop_first() == left);
    assert(state.todo.first() == action);
}

proof fn lemma_walk_one(
    state: SessionView,
    revset: Seq<char>,
    elapsed: Elapsed,
    count: nat,
    left: Seq<ActionView>,
    rest: Seq<ReplyView>,
)
    requires
        state.awaits == Awaits::Done || state.awaits == Awaits::DoneOrError,
        state.todo == bench_revset_actions(revset) + left,
        elapsed.nanos < 1_000_000_000,
    ensures
        answered(
            state,
            seq![
                ReplyView::Done,
                ReplyView::Done,
                ReplyView::Done,
                ReplyView::RevsetCounted(elapsed, count),
                ReplyView::Done,
            ] + rest,
        ) == answered(SessionView { todo: left, awaits: Awaits::Done, ..state }, rest),
        trace(
            state,
            seq![
                ReplyView::Done,
                ReplyView::Done,
                ReplyView::Done,
                ReplyView::RevsetCounted(elapsed, count),
                ReplyView::Done,
            ] + rest,
        ) == walk_actions(seq![revset], seq![(elapsed, count)]) + trace(
            SessionView { todo: left, awaits: Awaits::Done, ..state },
            rest,
        ),
{
    let actions = bench_revset_actions(revset);
    let done = ReplyView::Done;
    let counted = ReplyView::RevsetCounted(elapsed, count);
    let r5 = seq![done] + rest;
    let r4 = seq![counted] + r5;
    let r3 = seq![done] + r4;
    let r2 = seq![done] + r3;
    assert(seq![done, done, done, counted, done] + rest == seq![done] + r2);
    let left4 = seq![actions[3]] + left;
    let left3 = seq![actions[2]] + left4;
    let left2 = seq![actions[1]] + left3;
    assert(state.todo == seq![actions[0]] + left2);
    lemma_take(state, actions[0], left2, r2);
    let s1 = SessionView { todo: left2, awaits: actions[0].awaits(), ..state };
    lemma_take(s1, actions[1], left3, r3);
    let s2 = SessionView { todo: left3, awaits: actions[1].awaits(), ..state };
    lemma_take(s2, actions[2], left4, r4);
    let s3 = SessionView { todo: left4, awaits: actions[2].awaits(), ..state };
    lemma_step(s3, counted, r5);
    let s4 = SessionView { todo: left4, awaits: Awaits::DoneOrError, ..state };
    assert(s3.next(counted).0 == s4);
    lemma_take(s4, actions[3], left, rest);
    let report = s3.next(counted).1;
    let end = SessionView { todo: left, awaits: Awaits::Done, ..state };
    reveal_with_fuel(walk_actions, 2);
    let one = seq![actions[0], actions[1], actions[2], report, actions[3]];
    assert(walk_actions(seq![revset], seq![(elapsed, count)]) == one);
    assert(trace(state, seq![done] + r2) == one + trace(end, rest));
}

proof fn lemma_walk(
    state: SessionView,
    revsets: Seq<Seq<char>>,
    walks: Seq<(Elapsed, nat)>,
    left: Seq<ActionView>,
    rest: Seq<ReplyView>,
)
    requires
        state.awaits == Awaits::Done,
        state.todo == bench_revsets_actions(revsets) + left,
        walks.len() == revsets.len(),
        forall|i: int| 0 <= i < walks.len() ==> (#[trigger] walks[i]).0.nanos < 1_000_000_000,
    ensures
        answered(state, walk_replies(walks) + rest) == answered(
            SessionView { todo: left, ..state },
            rest,
        ),
        trace(state, walk_replies(walks) + rest) == walk_actions(revsets, walks) + trace(
            SessionView { todo: left, ..state },
            rest,
        ),
    decreases revsets.len(),
{
    let end = SessionView { todo: left, ..state };
    if revsets.len() == 0 {
        assert(walk_replies(walks) + rest == rest);
        assert(bench_revsets_actions(revsets) == Seq::<ActionView>::empty());
        assert(state.todo == left);
        assert(walk_actions(revsets, walks) + trace(end, rest) == trace(end, rest));
    } else {
        let revset = revsets.first();
        let (elapsed, count) = walks.first();
        assert(walks[0].0.nanos < 1_000_000_000);
        let others = bench_revsets_actions(revsets.drop_first()) + left;
        let more = walk_replies(walks.drop_first()) + rest;
        lemma_bench_revsets_first(revsets);
        assert(state.todo == bench_revset_actions(revset) + others);
        lemma_walk_one(state, revset, elapsed, count, others, more);
        assert(walk_replies(walks) + rest == seq![
            ReplyView::Done,
            ReplyView::Done,
            ReplyView::Done,
            ReplyView::RevsetCounted(elapsed, count),
            ReplyView::Done,
        ] + more);
        let next = SessionView { todo: others, ..state };
        assert forall|i: int| 0 <= i < walks.drop_first().len() implies (
        #[trigger] walks.drop_first()[i]).0.nanos < 1_000_000_000 by {
            assert(walks.drop_first()[i] == walks[i + 1]);
        }
        lemma_walk(next, revsets.drop_first(), walks.drop_first(), left, rest);
        reveal_with_fuel(walk_actions, 2);
        let one = walk_actions(seq![revset], seq![(elapsed, count)]);
        assert(walk_actions(revsets, walks) == one + walk_actions(
            revsets.drop_first(),
            walks.drop_first(),
        ));
        assert(one + (walk_actions(revsets.drop_first(), walks.drop_first()) + trace(end, rest))
            == walk_actions(revsets, walks) + trace(end, rest));
    }
}

proof fn lemma_group(
    state: SessionView,
    criterion: CriterionArgsView,
    color: bool,
    revsets: Seq<Seq<char>>,
    walks: Seq<(Elapsed, nat)>,
)
    requires
        state.awaits == Awaits::Done || state.awaits == Awaits::DoneOrError,
        criterion.sample_size >= 10,
        state.todo == seq![
            ActionView::CreateCriterion(asked_settings(color, criterion)),
            ActionView::OpenGroup("revsets"@),
        ] + bench_revsets_actions(revsets) + seq![
            ActionView::FinishGroup,
            ActionView::FinalSummary,
            ActionView::Stop(Outcome::Completed),
        ],
        walks.len() == revsets.len(),
        forall|i: int| 0 <= i < walks.len() ==> (#[trigger] walks[i]).0.nanos < 1_000_000_000,
    ensures
        ({
            let replies = seq![ReplyView::Done, ReplyView::Done] + walk_replies(walks) + seq![
                ReplyView::Done,
                ReplyView::Done,
                ReplyView::Done,
            ];
            &&& answered(state, replies)
            &&& trace(state, replies) == seq![
                ActionView::CreateCriterion(asked_settings(color, criterion)),
                ActionView::OpenGroup("revsets"@),
            ] + walk_actions(revsets, walks) + seq![
                ActionView::FinishGroup,
                ActionView::FinalSummary,
                ActionView::Stop(Outcome::Completed),
            ]
        }),
{
    let done = ReplyView::Done;
    let none = Seq::<ReplyView>::empty();
    let closing = seq![done, done, done];
    let create = ActionView::CreateCriterion(asked_settings(color, criterion));
    let open = ActionView::OpenGroup("revsets"@);
    let tail = seq![
        ActionView::FinishGroup,
        ActionView::FinalSummary,
        ActionView::Stop(Outcome::Completed),
    ];
    let walked = walk_replies(walks) + closing;
    let replies = seq![done, done] + walk_replies(walks) + closing;
    assert(replies == seq![done] + (seq![done] + walked));
    let inner = bench_revsets_actions(revsets) + tail;
    assert(state.todo == seq![create] + (seq![open] + inner));
    lemma_take(state, create, seq![open] + inner, seq![done] + walked);
    let s1 = SessionView { todo: seq![open] + inner, awaits: Awaits::Done, ..state };
    lemma_take(s1, open, inner, walked);
    let s2 = SessionView { todo: inner, awaits: Awaits::Done, ..state };
    lemma_walk(s2, revsets, walks, tail, closing);
    let s3 = SessionView { todo: tail, awaits: Awaits::Done, ..state };
    assert(closing == seq![done] + (seq![done] + (seq![done] + none)));
    let left2 = seq![tail[2]];
    let left1 = seq![tail[1]] + left2;
    assert(tail == seq![tail[0]] + left1);
    assert(left2 == seq![tail[2]] + Seq::<ActionView>::empty());
    lemma_take(s3, tail[0], left1, seq![done] + (seq![done] + none));
    let s4 = SessionView { todo: left1, awaits: Awaits::Done, ..state };
    lemma_take(s4, tail[1], left2, seq![done] + none);
    let s5 = SessionView { todo: left2, awaits: Awaits::Done, ..state };
    lemma_take(s5, tail[2], seq![], none);
    let end = SessionView { todo: seq![], awaits: Awaits::Nothing, ..state };
    assert(answered(end, none));
    assert(trace(end, none) == Seq::<ActionView>::empty());
    assert(trace(s3, closing) == tail);
    assert(trace(state, replies) == seq![create, open] + walk_actions(revsets, walks) + tail);
}

/// With a sample that is large enough, and with every reply there, `revset` opens the workspace,
/// sets up the runner as asked, benchmarks each of the given revsets in turn within one group,
/// closes the group, sums up, and is done.
pub proof fn law_revsets_complete(
    revisions: Seq<Seq<char>>,
    criterion: CriterionArgsView,
    color: bool,
    walks: Seq<(Elapsed, nat)>,
)
    requires
        criterion.sample_size >= 10,
        walks.len() == revisions.len(),
        forall|i: int| 0 <= i < walks.len() ==> (#[trigger] walks[i]).0.nanos < 1_000_000_000,
    ensures
        ({
            let start = SessionView::start(
                BenchCommandsView::Revset { revisions, file: None, criterion },
                color,
            );
            let replies = seq![ReplyView::Done, ReplyView::Done, ReplyView::Done] + walk_replies(
                walks,
            ) + seq![ReplyView::Done, ReplyView::Done, ReplyView::Done];
            &&& answered(start, replies)
            &&& trace(start, replies) == seq![
                ActionView::OpenWorkspace,
                ActionView::CreateCriterion(asked_settings(color, criterion)),
                ActionView::OpenGroup("revsets"@),
            ] + walk_actions(revisions, walks) + seq![
                ActionView::FinishGroup,
                ActionView::FinalSummary,
                ActionView::Stop(Outcome::Completed),
            ]
        }),
{
    let command = BenchCommandsView::Revset { revisions, file: None, criterion };
    let start = SessionView::start(command, color);
    let done = ReplyView::Done;
    let inner = seq![done, done] + walk_replies(walks) + seq![done, done, done];
    assert(seq![done, done, done] + walk_replies(walks) + seq![done, done, done] == seq![done]
        + inner);
    let left = seq![
        ActionView::CreateCriterion(asked_settings(color, criterion)),
        ActionView::OpenGroup("revsets"@),
    ] + bench_revsets_actions(revisions) + seq![
        ActionView::FinishGroup,
        ActionView::FinalSummary,
        ActionView::Stop(Outcome::Completed),
    ];
    assert(start.todo == seq![ActionView::OpenWorkspace] + left);
    lemma_take(start, ActionView::OpenWorkspace, left, inner);
    let opened = SessionView { todo: left, awaits: Awaits::DoneOrError, ..start };
    lemma_group(opened, criterion, color, revisions, walks);
    assert(trace(start, seq![done] + inner) == seq![
        ActionView::OpenWorkspace,
        ActionView::CreateCriterion(asked_settings(color, criterion)),
        ActionView::OpenGroup("revsets"@),
    ] + walk_actions(revisions, walks) + seq![
        ActionView::FinishGroup,
        ActionView::FinalSummary,
        ActionView::Stop(Outcome::Completed),
    ]);
}

/// With a sample that is large enough, and with every reply there, `revset` with a file opens the
/// workspace, reads the file, sets up the runner as asked, benchmarks each of the revsets that
/// the file lists in turn within one group, closes the group, sums up, and is done.
pub proof fn law_revset_file_completes(
    revisions: Seq<Seq<char>>,
    path: Seq<char>,
    text: Seq<char>,
    criterion: CriterionArgsView,
    color: bool,
    walks: Seq<(Elapsed, nat)>,
)
    requires
        criterion.sample_size >= 10,
        walks.len() == revset_lines(text).len(),
        forall|i: int| 0 <= i < walks.len() ==> (#[trigger] walks[i]).0.nanos < 1_000_000_000,
    ensures
        ({
            let start = SessionView::start(
                BenchCommandsView::Revset { revisions, file: Some(path), criterion },
                color,
            );
            let replies = seq![
                ReplyView::Done,
                ReplyView::Done,
                ReplyView::FileText(text),
                ReplyView::Done,
            ] + walk_replies(walks) + seq![ReplyView::Done, ReplyView::Done, ReplyView::Done];
            &&& answered(start, replies)
            &&& trace(start, replies) == seq![
                ActionView::OpenWorkspace,
                ActionView::ReadFile(path),
                ActionView::CreateCriterion(asked_settings(color, criterion)),
                ActionView::OpenGroup("revsets"@),
            ] + walk_actions(revset_lines(text), walks) + seq![
                ActionView::FinishGroup,
                ActionView::FinalSummary,
                ActionView::Stop(Outcome::Completed),
            ]
        }),
{
    let command = BenchCommandsView::Revset { revisions, file: Some(path), criterion };
    let start = SessionView::start(command, color);
    let done = ReplyView::Done;
    let told = ReplyView::FileText(text);
    let revsets = revset_lines(text);
    let closing = seq![done, done, done];
    let rest = seq![done] + walk_replies(walks) + closing;
    let replies = seq![done, done, told, done] + walk_replies(walks) + closing;
    let open = ActionView::OpenWorkspace;
    let read = ActionView::ReadFile(path);
    let none = Seq::<ActionView>::empty();
    assert(replies == seq![done] + (seq![done] + (seq![told] + rest)));
    assert(start.todo == seq![open] + seq![read]);
    lemma_take(start, open, seq![read], seq![done] + (seq![told] + rest));
    let opened = SessionView { todo: seq![read], awaits: Awaits::DoneOrError, ..start };
    assert(opened.todo == seq![read] + none);
    lemma_take(opened, read, none, seq![told] + rest);
    let waiting = SessionView { todo: none, awaits: Awaits::TextOrError, ..start };
    lemma_step(waiting, told, rest);
    let todo = seq![
        ActionView::CreateCriterion(asked_settings(color, criterion)),
        ActionView::OpenGroup("revsets"@),
    ] + bench_revsets_actions(revsets) + seq![
        ActionView::FinishGroup,
        ActionView::FinalSummary,
        ActionView::Stop(Outcome::Completed),
    ];
    let known = SessionView { todo, awaits: Awaits::Done, ..start };
    assert(waiting.next(told) == known.next(done));
    lemma_step(known, done, rest);
    assert(seq![done] + rest == seq![done, done] + walk_replies(walks) + closing);
    lemma_group(known, criterion, color, revsets, walks);
    assert(trace(waiting, seq![told] + rest) == trace(known, seq![done] + rest));
    assert(trace(start, replies) == seq![open, read] + trace(known, seq![done] + rest));
    assert(trace(start, replies) == seq![
        open,
        read,
        ActionView::CreateCriterion(asked_settings(color, criterion)),
        ActionView::OpenGroup("revsets"@),
    ] + walk_actions(revsets, walks) + seq![
        ActionView::FinishGroup,
        ActionView::FinalSummary,
        ActionView::Stop(Outcome::Completed),
    ]);
}

} // verus!
