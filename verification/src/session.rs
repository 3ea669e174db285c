//! A run of a benchmark command, step by step.
//!
//! A [`BenchSession`] decides what a command does and in which order. Its caller performs each
//! [`Action`] and hands back the [`Reply`].

use criterion::BenchmarkId;
use std::collections::VecDeque;
use vstd::prelude::*;

use crate::args::{
    BenchCommands, BenchCommandsView, CriterionArgs, CriterionArgsView, MIN_SAMPLE_SIZE,
};
use crate::hex_prefix::{hex_text, hex_values, is_hex, HexPrefix};
use crate::report::{
    announce_revset, benchmark_id_parts, common_ancestors_id, is_ancestor_id,
    name_common_ancestors, name_is_ancestor, name_resolve_prefix, report_revset, report_run,
    resolve_prefix_id, revset_benchmark_id, revset_group, revset_header, revset_id, revset_report,
    run_report, Elapsed,
};
use crate::settings::{
    criterion_settings, settings_for, CriterionSettings, CriterionSettingsView,
};
use crate::text::{parse_revset_file, revset_lines, texts};

verus! {

/// What is timed.
pub enum Routine {
    /// Finding the common ancestors of two commits.
    ///
    /// Commits are numbered from zero, in the order in which they were resolved.
    CommonAncestors { commit1: usize, commit2: usize },
    /// Telling whether one commit is an ancestor of another.
    IsAncestor { ancestor: usize, descendant: usize },
    /// Resolving a commit id prefix.
    ResolvePrefix(HexPrefix),
}

/// What a `Routine` holds.
pub enum RoutineView {
    CommonAncestors { commit1: nat, commit2: nat },
    IsAncestor { ancestor: nat, descendant: nat },
    ResolvePrefix(Seq<u8>),
}

impl View for Routine {
    type V = RoutineView;

    open spec fn view(&self) -> RoutineView {
        match *self {
            Routine::CommonAncestors { commit1, commit2 } => RoutineView::CommonAncestors {
                commit1: commit1 as nat,
                commit2: commit2 as nat,
            },
            Routine::IsAncestor { ancestor, descendant } => RoutineView::IsAncestor {
                ancestor: ancestor as nat,
                descendant: descendant as nat,
            },
            Routine::ResolvePrefix(prefix) => RoutineView::ResolvePrefix(prefix@),
        }
    }
}

impl Clone for Routine {
    fn clone(&self) -> (r: Routine)
        ensures
            r@ == self@,
    {
        match self {
            Routine::CommonAncestors { commit1, commit2 } => Routine::CommonAncestors {
                commit1: *commit1,
                commit2: *commit2,
            },
            Routine::IsAncestor { ancestor, descendant } => Routine::IsAncestor {
                ancestor: *ancestor,
                descendant: *descendant,
            },
            Routine::ResolvePrefix(prefix) => Routine::ResolvePrefix(prefix.clone()),
        }
    }
}

/// How a run comes to its end, other than by an error.
#[derive(Clone, Copy, Debug, PartialEq, Eq, Structural)]
pub enum Outcome {
    /// Everything was done.
    Completed,
    /// The commit id prefix is not hexadecimal.
    InvalidPrefix,
    /// The sample is too small for the benchmark runner.
    SampleSizeTooSmall,
}

/// What the caller has to do next.
pub enum Action {
    /// Open the workspace. It may fail.
    OpenWorkspace,
    /// Resolve the only commit of a revision. It may fail.
    ResolveRevision(String),
    /// Read a file, whose path may be relative to the working directory. It may fail.
    ReadFile(String),
    /// Set up the benchmark runner.
    CreateCriterion(CriterionSettings),
    /// Run a routine once and time it.
    RunRoutine(Routine),
    /// Print a line. It may fail.
    PrintLine(String),
    /// Benchmark a routine under a name.
    BenchFunction(String, Routine),
    /// Open the benchmark group of this name.
    OpenGroup(String),
    /// Parse a revset. It may fail.
    ParseRevset(String),
    /// Evaluate the revset that was parsed last, count its commits, and time both.
    CountRevset,
    /// Benchmark the evaluation of the revset that was parsed last, within the group.
    ///
    /// The runner panics where the id is not new in the group, as when a revset is listed twice.
    BenchRevset(BenchmarkId),
    /// Close the group.
    FinishGroup,
    /// Print the final summary of all benchmarks.
    FinalSummary,
    /// Stop: there is nothing more to do.
    Stop(Outcome),
}

/// What an `Action` holds.
pub enum ActionView {
    OpenWorkspace,
    ResolveRevision(Seq<char>),
    ReadFile(Seq<char>),
    CreateCriterion(CriterionSettingsView),
    RunRoutine(RoutineView),
    PrintLine(Seq<char>),
    BenchFunction(Seq<char>, RoutineView),
    OpenGroup(Seq<char>),
    ParseRevset(Seq<char>),
    CountRevset,
    /// The function name and the parameter of the benchmark id.
    BenchRevset((Option<Seq<char>>, Option<Seq<char>>)),
    FinishGroup,
    FinalSummary,
    Stop(Outcome),
}

impl View for Action {
    type V = ActionView;

    open spec fn view(&self) -> ActionView {
        match *self {
            Action::OpenWorkspace => ActionView::OpenWorkspace,
            Action::ResolveRevision(revision) => ActionView::ResolveRevision(revision@),
            Action::ReadFile(path) => ActionView::ReadFile(path@),
            Action::CreateCriterion(settings) => ActionView::CreateCriterion(settings@),
            Action::RunRoutine(routine) => ActionView::RunRoutine(routine@),
            Action::PrintLine(line) => ActionView::PrintLine(line@),
            Action::BenchFunction(id, routine) => ActionView::BenchFunction(id@, routine@),
            Action::OpenGroup(name) => ActionView::OpenGroup(name@),
            Action::ParseRevset(revset) => ActionView::ParseRevset(revset@),
            Action::CountRevset => ActionView::CountRevset,
            Action::BenchRevset(id) => ActionView::BenchRevset(benchmark_id_parts(id)),
            Action::FinishGroup => ActionView::FinishGroup,
            Action::FinalSummary => ActionView::FinalSummary,
            Action::Stop(outcome) => ActionView::Stop(outcome),
        }
    }
}

/// What came of an action that did not fail.
pub enum Reply {
    /// It was done. Also what a session is started with.
    Done,
    /// The text of the file that was read.
    FileText(String),
    /// The time that the routine took, and what it produced.
    RoutineRan(Elapsed, String),
    /// The time that the revset took, and how many commits it has.
    RevsetCounted(Elapsed, usize),
}

/// What a `Reply` holds.
pub enum ReplyView {
    Done,
    FileText(Seq<char>),
    RoutineRan(Elapsed, Seq<char>),
    RevsetCounted(Elapsed, nat),
}

impl View for Reply {
    type V = ReplyView;

    open spec fn view(&self) -> ReplyView {
        match *self {
            Reply::Done => ReplyView::Done,
            Reply::FileText(text) => ReplyView::FileText(text@),
            Reply::RoutineRan(elapsed, produced) => ReplyView::RoutineRan(elapsed, produced@),
            Reply::RevsetCounted(elapsed, count) => ReplyView::RevsetCounted(elapsed, count as nat),
        }
    }
}

/// The kind of reply that a session waits for.
#[derive(Clone, Copy, Debug, PartialEq, Eq, Structural)]
pub enum Awaits {
    /// That something was done that gives no error. Where it panics, the caller does: the session
    /// is not told.
    Done,
    /// That something was done, or that it failed.
    DoneOrError,
    /// The text of a file, or that it could not be read.
    TextOrError,
    /// What a routine produced.
    RoutineRan,
    /// How many commits a revset has.
    RevsetCounted,
    /// Nothing: the run is over.
    Nothing,
}

impl ActionView {
    /// The kind of reply that the action is answered with.
    pub open spec fn awaits(self) -> Awaits {
        match self {
            ActionView::OpenWorkspace => Awaits::DoneOrError,
            ActionView::ResolveRevision(_) => Awaits::DoneOrError,
            ActionView::ReadFile(_) => Awaits::TextOrError,
            ActionView::CreateCriterion(_) => Awaits::Done,
            ActionView::RunRoutine(_) => Awaits::RoutineRan,
            ActionView::PrintLine(_) => Awaits::DoneOrError,
            ActionView::BenchFunction(_, _) => Awaits::Done,
            ActionView::OpenGroup(_) => Awaits::Done,
            ActionView::ParseRevset(_) => Awaits::DoneOrError,
            ActionView::CountRevset => Awaits::RevsetCounted,
            ActionView::BenchRevset(_) => Awaits::Done,
            ActionView::FinishGroup => Awaits::Done,
            ActionView::FinalSummary => Awaits::Done,
            ActionView::Stop(_) => Awaits::Nothing,
        }
    }
}

impl Awaits {
    /// Whether a reply is of this kind.
    pub open spec fn accepts(self, reply: ReplyView) -> bool {
        match reply {
            ReplyView::Done => self == Awaits::Done || self == Awaits::DoneOrError,
            ReplyView::FileText(_) => self == Awaits::TextOrError,
            ReplyView::RoutineRan(elapsed, _) => self == Awaits::RoutineRan && elapsed.valid(),
            ReplyView::RevsetCounted(elapsed, _) => self == Awaits::RevsetCounted
                && elapsed.valid(),
        }
    }

    /// Whether an error can come in place of a reply.
    pub open spec fn accepts_error(self) -> bool {
        self == Awaits::DoneOrError || self == Awaits::TextOrError
    }
}

/// Actions that begin with the set-up of the runner. Where the sample is too small for it, the
/// run stops instead.
pub open spec fn with_runner(
    criterion: CriterionArgsView,
    actions: Seq<ActionView>,
) -> Seq<ActionView> {
    if criterion.valid() {
        actions
    } else {
        seq![ActionView::Stop(Outcome::SampleSizeTooSmall)]
    }
}

/// The actions of one benchmark of a routine, but for the line that reports its first run.
pub open spec fn run_bench_actions(
    id: Seq<char>,
    routine: RoutineView,
    settings: CriterionSettingsView,
) -> Seq<ActionView> {
    seq![
        ActionView::CreateCriterion(settings),
        ActionView::RunRoutine(routine),
        ActionView::BenchFunction(id, routine),
        ActionView::Stop(Outcome::Completed),
    ]
}

/// The actions of the benchmark of one revset, but for the line that reports its first run.
pub open spec fn bench_revset_actions(revset: Seq<char>) -> Seq<ActionView> {
    seq![
        ActionView::PrintLine(revset_header(revset)),
        ActionView::ParseRevset(revset),
        ActionView::CountRevset,
        ActionView::BenchRevset(revset_id(revset)),
    ]
}

/// The actions of the benchmarks of all revsets, in order.
pub open spec fn bench_revsets_actions(revsets: Seq<Seq<char>>) -> Seq<ActionView> {
    revsets.map_values(|revset: Seq<char>| bench_revset_actions(revset)).flatten()
}

/// What is done once the revsets are known.
pub open spec fn revset_actions(
    revsets: Seq<Seq<char>>,
    settings: CriterionSettingsView,
) -> Seq<ActionView> {
    seq![ActionView::CreateCriterion(settings), ActionView::OpenGroup(revset_group())]
        + bench_revsets_actions(revsets) + seq![
        ActionView::FinishGroup,
        ActionView::FinalSummary,
        ActionView::Stop(Outcome::Completed),
    ]
}

/// What a command does, as far as it is known before anything is done.
pub open spec fn plan(command: BenchCommandsView, color: bool) -> Seq<ActionView> {
    let criterion = command.criterion();
    let settings = settings_for(color, criterion);
    match command {
        BenchCommandsView::CommonAncestors { revision1, revision2, .. } => seq![
            ActionView::OpenWorkspace,
            ActionView::ResolveRevision(revision1),
            ActionView::ResolveRevision(revision2),
        ] + with_runner(
            criterion,
            run_bench_actions(
                common_ancestors_id(revision1, revision2),
                RoutineView::CommonAncestors { commit1: 0, commit2: 1 },
                settings,
            ),
        ),
        BenchCommandsView::IsAncestor { ancestor, descendant, .. } => seq![
            ActionView::OpenWorkspace,
            ActionView::ResolveRevision(ancestor),
            ActionView::ResolveRevision(descendant),
        ] + with_runner(
            criterion,
            run_bench_actions(
                is_ancestor_id(ancestor, descendant),
                RoutineView::IsAncestor { ancestor: 0, descendant: 1 },
                settings,
            ),
        ),
        BenchCommandsView::ResolvePrefix { prefix, .. } => if is_hex(prefix) {
            seq![ActionView::OpenWorkspace] + with_runner(
                criterion,
                run_bench_actions(
                    resolve_prefix_id(hex_text(hex_values(prefix))),
                    RoutineView::ResolvePrefix(hex_values(prefix)),
                    settings,
                ),
            )
        } else {
            seq![ActionView::OpenWorkspace, ActionView::Stop(Outcome::InvalidPrefix)]
        },
        BenchCommandsView::Revset { revisions, file, .. } => match file {
            Some(path) => seq![ActionView::OpenWorkspace, ActionView::ReadFile(path)],
            None => seq![ActionView::OpenWorkspace] + with_runner(
                criterion,
                revset_actions(revisions, settings),
            ),
        },
    }
}

/// The state of a run.
pub struct SessionView {
    /// What is left to do.
    pub todo: Seq<ActionView>,
    /// The kind of reply that is waited for.
    pub awaits: Awaits,
    /// Whether the output is colored.
    pub color: bool,
    /// How the benchmarks are run.
    pub criterion: CriterionArgsView,
}

impl SessionView {
    /// The state before anything is done.
    pub open spec fn start(command: BenchCommandsView, color: bool) -> SessionView {
        SessionView {
            todo: plan(command, color),
            awaits: Awaits::Done,
            color,
            criterion: command.criterion(),
        }
    }

    /// The state once an error ended the run.
    pub open spec fn aborted(self) -> SessionView {
        SessionView { todo: seq![], awaits: Awaits::Nothing, ..self }
    }

    /// The state while an action is under way, and that action.
    pub open spec fn performing(self, action: ActionView) -> (SessionView, ActionView) {
        (SessionView { awaits: action.awaits(), ..self }, action)
    }

    /// Takes the next of the actions that are left.
    pub open spec fn advance(self) -> (SessionView, ActionView) {
        SessionView { todo: self.todo.drop_first(), ..self }.performing(self.todo.first())
    }

    /// The state after a reply, and the action that follows.
    ///
    /// A first run is reported before anything else is done. The text of a file tells the
    /// revsets. Otherwise the next of the actions that are left follows.
    pub open spec fn next(self, reply: ReplyView) -> (SessionView, ActionView) {
        match reply {
            ReplyView::Done => self.advance(),
            ReplyView::FileText(text) => SessionView {
                todo: with_runner(
                    self.criterion,
                    revset_actions(
                        revset_lines(text),
                        settings_for(self.color, self.criterion),
                    ),
                ),
                ..self
            }.advance(),
            ReplyView::RoutineRan(elapsed, produced) => self.performing(
                ActionView::PrintLine(run_report(elapsed, produced)),
            ),
            ReplyView::RevsetCounted(elapsed, count) => self.performing(
                ActionView::PrintLine(revset_report(elapsed, count)),
            ),
        }
    }

    /// Whether a run can be in this state: unless nothing more is planned after the action that
    /// is under way, the rest of the plan is there.
    pub open spec fn valid(self) -> bool {
        ends_plan(self.awaits) || is_plan(self.todo)
    }
}

/// Whether a plan ends in an action with this kind of reply: one that stops the run, or one that
/// tells the revsets, from which the next plan is made.
pub open spec fn ends_plan(awaits: Awaits) -> bool {
    awaits == Awaits::Nothing || awaits == Awaits::TextOrError
}

/// Whether the last action, and no other, ends the plan.
pub open spec fn is_plan(actions: Seq<ActionView>) -> bool {
    &&& actions.len() > 0
    &&& forall|i: int|
        0 <= i < actions.len() ==> ends_plan((#[trigger] actions[i]).awaits()) == (i
            == actions.len() - 1)
}

/// What several actions hold.
pub open spec fn action_views(actions: Seq<Action>) -> Seq<ActionView> {
    actions.map_values(|action: Action| action@)
}

/// A run of a benchmark command.
pub struct BenchSession {
    todo: VecDeque<Action>,
    awaits: Awaits,
    color: bool,
    criterion: CriterionArgs,
}

impl View for BenchSession {
    type V = SessionView;

    closed spec fn view(&self) -> SessionView {
        SessionView {
            todo: action_views(self.todo@),
            awaits: self.awaits,
            color: self.color,
            criterion: self.criterion@,
        }
    }
}

impl Action {
    /// The kind of reply that the action is answered with.
    fn awaits(&self) -> (r: Awaits)
        ensures
            r == self@.awaits(),
    {
        match self {
            Action::OpenWorkspace => Awaits::DoneOrError,
            Action::ResolveRevision(_) => Awaits::DoneOrError,
            Action::ReadFile(_) => Awaits::TextOrError,
            Action::CreateCriterion(_) => Awaits::Done,
            Action::RunRoutine(_) => Awaits::RoutineRan,
            Action::PrintLine(_) => Awaits::DoneOrError,
            Action::BenchFunction(_, _) => Awaits::Done,
            Action::OpenGroup(_) => Awaits::Done,
            Action::ParseRevset(_) => Awaits::DoneOrError,
            Action::CountRevset => Awaits::RevsetCounted,
            Action::BenchRevset(_) => Awaits::Done,
            Action::FinishGroup => Awaits::Done,
            Action::FinalSummary => Awaits::Done,
            Action::Stop(_) => Awaits::Nothing,
        }
    }
}

/// A plan has an action to start with, and what follows that action is a plan unless the action
/// ends it.
proof fn lemma_advance(actions: Seq<ActionView>)
    requires
        is_plan(actions),
    ensures
        ends_plan(actions.first().awaits()) || is_plan(actions.drop_first()),
{
    if actions.len() > 1 {
        let rest = actions.drop_first();
        assert forall|i: int| 0 <= i < rest.len() implies ends_plan((#[trigger] rest[i]).awaits())
            == (i == rest.len() - 1) by {
            assert(rest[i] == actions[i + 1]);
        }
    } else {
        assert(ends_plan(actions[0].awaits()));
    }
}

/// No action of the benchmark of a revset ends the plan.
proof fn lemma_bench_revsets_actions(revsets: Seq<Seq<char>>)
    ensures
        forall|i: int|
            0 <= i < bench_revsets_actions(revsets).len() ==> !ends_plan(
                (#[trigger] bench_revsets_actions(revsets)[i]).awaits(),
            ),
    decreases revsets.len(),
{
    if revsets.len() > 0 {
        let head = bench_revset_actions(revsets.first());
        lemma_bench_revsets_actions(revsets.drop_first());
        lemma_bench_revsets_first(revsets);
        let all = bench_revsets_actions(revsets);
        assert forall|i: int| 0 <= i < all.len() implies !ends_plan(
            (#[trigger] all[i]).awaits(),
        ) by {
            if i >= head.len() {
                assert(all[i] == bench_revsets_actions(revsets.drop_first())[i - head.len()]);
            }
        }
    }
}

/// The benchmarks of several revsets start with that of the first.
pub(crate) proof fn lemma_bench_revsets_first(revsets: Seq<Seq<char>>)
    requires
        revsets.len() > 0,
    ensures
        bench_revsets_actions(revsets) == bench_revset_actions(revsets.first())
            + bench_revsets_actions(revsets.drop_first()),
{
    let f = |revset: Seq<char>| bench_revset_actions(revset);
    assert(revsets.map_values(f).drop_first() == revsets.drop_first().map_values(f));
}

/// What is done once the revsets are known is a plan.
pub(crate) proof fn lemma_revset_actions(revsets: Seq<Seq<char>>, settings: CriterionSettingsView)
    ensures
        is_plan(revset_actions(revsets, settings)),
{
    lemma_bench_revsets_actions(revsets);
    let actions = revset_actions(revsets, settings);
    let n = bench_revsets_actions(revsets).len();
    assert forall|i: int| 0 <= i < actions.len() implies ends_plan((#[trigger] actions[i]).awaits())
        == (i == actions.len() - 1) by {
        if 2 <= i < 2 + n {
            assert(actions[i] == bench_revsets_actions(revsets)[i - 2]);
        }
    }
}

/// What a command does is a plan.
proof fn lemma_plan(command: BenchCommandsView, color: bool)
    ensures
        is_plan(plan(command, color)),
{
    let actions = plan(command, color);
    let settings = settings_for(color, command.criterion());
    if let BenchCommandsView::Revset { revisions, file: None, .. } = command {
        lemma_revset_actions(revisions, settings);
        let rest = with_runner(command.criterion(), revset_actions(revisions, settings));
        assert forall|i: int| 0 <= i < actions.len() implies ends_plan(
            (#[trigger] actions[i]).awaits(),
        ) == (i == actions.len() - 1) by {
            if i >= 1 {
                assert(actions[i] == rest[i - 1]);
            }
        }
    }
}

/// Adds the actions of one benchmark of a routine.
fn run_bench(
    todo: &mut VecDeque<Action>,
    id: String,
    routine: Routine,
    color: bool,
    criterion: &CriterionArgs,
)
    ensures
        action_views(final(todo)@) == action_views(old(todo)@) + with_runner(
            criterion@,
            run_bench_actions(id@, routine@, settings_for(color, criterion@)),
        ),
{
    if criterion.sample_size < MIN_SAMPLE_SIZE {
        todo.push_back(Action::Stop(Outcome::SampleSizeTooSmall));
        return;
    }
    todo.push_back(Action::CreateCriterion(criterion_settings(color, criterion)));
    todo.push_back(Action::RunRoutine(routine.clone()));
    todo.push_back(Action::BenchFunction(id, routine));
    todo.push_back(Action::Stop(Outcome::Completed));
}

/// Adds the actions of the benchmark of one revset.
fn bench_revset(todo: &mut VecDeque<Action>, revset: &String)
    ensures
        action_views(final(todo)@) == action_views(old(todo)@) + bench_revset_actions(revset@),
{
    todo.push_back(Action::PrintLine(announce_revset(revset.as_str())));
    todo.push_back(Action::ParseRevset(revset.clone()));
    todo.push_back(Action::CountRevset);
    todo.push_back(Action::BenchRevset(revset_benchmark_id(revset.as_str())));
}

/// Adds what is done once the revsets are known.
fn bench_revsets(
    todo: &mut VecDeque<Action>,
    revsets: &Vec<String>,
    color: bool,
    criterion: &CriterionArgs,
)
    ensures
        action_views(final(todo)@) == action_views(old(todo)@) + with_runner(
            criterion@,
            revset_actions(texts(revsets@), settings_for(color, criterion@)),
        ),
{
    if criterion.sample_size < MIN_SAMPLE_SIZE {
        todo.push_back(Action::Stop(Outcome::SampleSizeTooSmall));
        return;
    }
    let ghost all = texts(revsets@);
    todo.push_back(Action::CreateCriterion(criterion_settings(color, criterion)));
    todo.push_back(Action::OpenGroup("revsets".to_owned()));
    let ghost before = action_views(todo@);
    proof {
        assert(before == action_views(old(todo)@) + seq![
            ActionView::CreateCriterion(settings_for(color, criterion@)),
            ActionView::OpenGroup(revset_group()),
        ]);
        assert(all.skip(0) == all);
        assert(before + bench_revsets_actions(all) == action_views(todo@) + bench_revsets_actions(
            all.skip(0),
        ));
    }
    for i in 0..revsets.len()
        invariant
            all == texts(revsets@),
            before + bench_revsets_actions(all) == action_views(todo@) + bench_revsets_actions(
                all.skip(i as int),
            ),
    {
        proof {
            lemma_bench_revsets_first(all.skip(i as int));
            assert(all.skip(i as int).drop_first() == all.skip(i + 1));
            assert(all.skip(i as int).first() == revsets@[i as int]@);
        }
        let ghost so_far = action_views(todo@);
        bench_revset(todo, &revsets[i]);
        assert(so_far + bench_revsets_actions(all.skip(i as int)) == action_views(todo@)
            + bench_revsets_actions(all.skip(i + 1)));
    }
    proof {
        assert(all.skip(revsets@.len() as int) == Seq::<Seq<char>>::empty());
        assert(bench_revsets_actions(Seq::<Seq<char>>::empty()) == Seq::<ActionView>::empty());
        assert(action_views(todo@) == before + bench_revsets_actions(all));
    }
    todo.push_back(Action::FinishGroup);
    todo.push_back(Action::FinalSummary);
    todo.push_back(Action::Stop(Outcome::Completed));
    assert(action_views(todo@) == before + bench_revsets_actions(all) + seq![
        ActionView::FinishGroup,
        ActionView::FinalSummary,
        ActionView::Stop(Outcome::Completed),
    ]);
}

impl BenchSession {
    /// Starts a run of a command.
    pub fn new(command: BenchCommands, color: bool) -> (session: BenchSession)
        ensures
            session@ == SessionView::start(command@, color),
            session@.valid(),
    {
        proof {
            lemma_plan(command@, color);
        }
        let mut todo: VecDeque<Action> = VecDeque::new();
        todo.push_back(Action::OpenWorkspace);
        let criterion;
        match command {
            BenchCommands::CommonAncestors(args) => {
                let id = name_common_ancestors(args.revision1.as_str(), args.revision2.as_str());
                todo.push_back(Action::ResolveRevision(args.revision1));
                todo.push_back(Action::ResolveRevision(args.revision2));
                let routine = Routine::CommonAncestors { commit1: 0, commit2: 1 };
                run_bench(&mut todo, id, routine, color, &args.criterion);
                criterion = args.criterion;
            },
            BenchCommands::IsAncestor(args) => {
                let id = name_is_ancestor(args.ancestor.as_str(), args.descendant.as_str());
                todo.push_back(Action::ResolveRevision(args.ancestor));
                todo.push_back(Action::ResolveRevision(args.descendant));
                let routine = Routine::IsAncestor { ancestor: 0, descendant: 1 };
                run_bench(&mut todo, id, routine, color, &args.criterion);
                criterion = args.criterion;
            },
            BenchCommands::ResolvePrefix(args) => {
                match HexPrefix::new(args.prefix.as_str()) {
                    Some(prefix) => {
                        let hex = prefix.hex();
                        let id = name_resolve_prefix(hex.as_str());
                        let routine = Routine::ResolvePrefix(prefix);
                        run_bench(&mut todo, id, routine, color, &args.criterion);
                    },
                    None => todo.push_back(Action::Stop(Outcome::InvalidPrefix)),
                }
                criterion = args.criterion;
            },
            BenchCommands::Revset(args) => {
                match args.file {
                    Some(path) => todo.push_back(Action::ReadFile(path)),
                    None => bench_revsets(&mut todo, &args.revisions, color, &args.criterion),
                }
                criterion = args.criterion;
            },
        }
        let session = BenchSession { todo, awaits: Awaits::Done, color, criterion };
        assert(session@.todo == plan(command@, color));
        session
    }

    /// Takes the reply to the last action, or the error that it failed with, and decides what to
    /// do next.
    ///
    /// An error ends the run and is handed back.
    pub fn step<E>(&mut self, reply: Result<Reply, E>) -> (r: Result<Action, E>)
        requires
            old(self)@.valid(),
            match reply {
                Ok(reply) => old(self)@.awaits.accepts(reply@),
                Err(_) => old(self)@.awaits.accepts_error(),
            },
        ensures
            final(self)@.valid(),
            match (reply, r) {
                (Ok(reply), Ok(action)) => (final(self)@, action@) == old(self)@.next(reply@),
                (Err(e), Err(error)) => error == e && final(self)@ == old(self)@.aborted(),
                _ => false,
            },
    {
        match reply {
            Err(error) => {
                self.todo.clear();
                self.awaits = Awaits::Nothing;
                assert(self@.todo == Seq::<ActionView>::empty());
                Err(error)
            },
            Ok(Reply::Done) => Ok(self.advance()),
            Ok(Reply::FileText(text)) => {
                let revsets = parse_revset_file(text.as_str());
                let ghost settings = settings_for(self.color, self.criterion@);
                proof {
                    lemma_revset_actions(texts(revsets@), settings);
                }
                self.todo.clear();
                bench_revsets(&mut self.todo, &revsets, self.color, &self.criterion);
                assert(self@.todo == with_runner(
                    self.criterion@,
                    revset_actions(texts(revsets@), settings),
                ));
                Ok(self.advance())
            },
            Ok(Reply::RoutineRan(elapsed, produced)) => {
                self.awaits = Awaits::DoneOrError;
                Ok(Action::PrintLine(report_run(elapsed, produced.as_str())))
            },
            Ok(Reply::RevsetCounted(elapsed, count)) => {
                self.awaits = Awaits::DoneOrError;
                Ok(Action::PrintLine(report_revset(elapsed, count)))
            },
        }
    }

    /// Takes the next of the actions that are left.
    fn advance(&mut self) -> (action: Action)
        requires
            is_plan(old(self)@.todo),
        ensures
            (final(self)@, action@) == old(self)@.advance(),
            final(self)@.valid(),
    {
        proof {
            lemma_advance(self@.todo);
        }
        match self.todo.pop_front() {
            Some(action) => {
                self.awaits = action.awaits();
                assert(self@.todo == old(self)@.todo.drop_first());
                action
            },
            None => Action::Stop(Outcome::Completed),
        }
    }
}

} // verus!
