use criterion::BenchmarkId;
use jj_bench::args::{
    BenchCommands, BenchCommonAncestorsArgs, BenchIsAncestorArgs, BenchResolvePrefixArgs,
    BenchRevsetArgs, CriterionArgs,
};
use jj_bench::report::Elapsed;
use jj_bench::session::{Action, BenchSession, Outcome, Reply, Routine};
use jj_bench::settings::Baseline;

fn criterion() -> CriterionArgs {
    CriterionArgs::new(None, Some("before".to_owned()), Some(20)).unwrap()
}

fn elapsed() -> Elapsed {
    Elapsed {
        secs: 0,
        nanos: 3_000,
    }
}

fn common_ancestors() -> BenchCommands {
    BenchCommands::CommonAncestors(BenchCommonAncestorsArgs {
        revision1: "x".to_owned(),
        revision2: "y".to_owned(),
        criterion: criterion(),
    })
}

fn is_ancestor() -> BenchCommands {
    BenchCommands::IsAncestor(BenchIsAncestorArgs {
        ancestor: "x".to_owned(),
        descendant: "y".to_owned(),
        criterion: criterion(),
    })
}

fn resolve_prefix(prefix: &str) -> BenchCommands {
    BenchCommands::ResolvePrefix(BenchResolvePrefixArgs {
        prefix: prefix.to_owned(),
        criterion: criterion(),
    })
}

fn revset(revisions: &[&str], file: Option<&str>) -> BenchCommands {
    BenchCommands::Revset(BenchRevsetArgs {
        revisions: revisions.iter().map(|s| s.to_string()).collect(),
        file: file.map(|s| s.to_owned()),
        criterion: criterion(),
    })
}

fn describe_routine(routine: &Routine) -> String {
    match routine {
        Routine::CommonAncestors { commit1, commit2 } => format!("common {commit1} {commit2}"),
        Routine::IsAncestor {
            ancestor,
            descendant,
        } => format!("ancestor {ancestor} {descendant}"),
        Routine::ResolvePrefix(prefix) => format!("prefix {}", prefix.hex()),
    }
}

fn describe(action: &Action) -> String {
    match action {
        Action::OpenWorkspace => "open".to_owned(),
        Action::ResolveRevision(revision) => format!("resolve {revision}"),
        Action::ReadFile(path) => format!("read {path}"),
        Action::CreateCriterion(settings) => {
            let baseline = match &settings.baseline {
                Baseline::Save(name) => format!("save {name}"),
                Baseline::Retain { name, strict } => format!("retain {name} {strict}"),
            };
            format!(
                "create {} {baseline} {}",
                settings.output_color, settings.sample_size
            )
        }
        Action::RunRoutine(routine) => format!("run {}", describe_routine(routine)),
        Action::PrintLine(line) => format!("print {line}"),
        Action::BenchFunction(id, routine) => format!("bench {id}: {}", describe_routine(routine)),
        Action::OpenGroup(name) => format!("group {name}"),
        Action::ParseRevset(revset) => format!("parse {revset}"),
        Action::CountRevset => "count".to_owned(),
        Action::BenchRevset(id) => {
            for revset in ["all()", "x | y", "z"] {
                if *id == BenchmarkId::from_parameter(revset) {
                    return format!("bench revset {revset}");
                }
            }
            panic!("another id");
        }
        Action::FinishGroup => "finish".to_owned(),
        Action::FinalSummary => "summary".to_owned(),
        Action::Stop(Outcome::Completed) => "completed".to_owned(),
        Action::Stop(Outcome::InvalidPrefix) => "invalid prefix".to_owned(),
        Action::Stop(Outcome::SampleSizeTooSmall) => "sample too small".to_owned(),
    }
}

/// The actions of a run in which the action of number `failing` fails, and the error that it
/// ends with.
fn run(
    command: BenchCommands,
    text: &str,
    failing: Option<usize>,
) -> (Vec<String>, Result<Outcome, String>) {
    let mut session = BenchSession::new(command, true);
    let mut actions = vec![];
    let mut reply: Result<Reply, String> = Ok(Reply::Done);
    loop {
        let action = match session.step(reply) {
            Ok(action) => action,
            Err(error) => return (actions, Err(error)),
        };
        actions.push(describe(&action));
        reply = match action {
            Action::ReadFile(_) => Ok(Reply::FileText(text.to_owned())),
            Action::RunRoutine(_) => Ok(Reply::RoutineRan(elapsed(), "false".to_owned())),
            Action::CountRevset => Ok(Reply::RevsetCounted(elapsed(), 7)),
            Action::Stop(outcome) => return (actions, Ok(outcome)),
            _ => Ok(Reply::Done),
        };
        if failing == Some(actions.len() - 1) {
            reply = Err(format!("failed at {}", actions.len() - 1));
        }
    }
}

fn completed(command: BenchCommands, text: &str) -> Vec<String> {
    let (actions, outcome) = run(command, text, None);
    assert_eq!(outcome, Ok(Outcome::Completed));
    actions
}

#[test]
fn common_ancestors_are_benchmarked() {
    assert_eq!(
        completed(common_ancestors(), ""),
        vec![
            "open",
            "resolve x",
            "resolve y",
            "create true retain before false 20",
            "run common 0 1",
            "print First run took 3µs and produced: false",
            "bench commonancestors-x-y: common 0 1",
            "completed",
        ]
    );
}

#[test]
fn ancestry_is_benchmarked() {
    assert_eq!(
        completed(is_ancestor(), ""),
        vec![
            "open",
            "resolve x",
            "resolve y",
            "create true retain before false 20",
            "run ancestor 0 1",
            "print First run took 3µs and produced: false",
            "bench isancestor-x-y: ancestor 0 1",
            "completed",
        ]
    );
}

#[test]
fn prefixes_are_benchmarked() {
    assert_eq!(
        completed(resolve_prefix("0Ab"), ""),
        vec![
            "open",
            "create true retain before false 20",
            "run prefix 0ab",
            "print First run took 3µs and produced: false",
            "bench resolveprefix-0ab: prefix 0ab",
            "completed",
        ]
    );
}

#[test]
fn invalid_prefix_stops_once_the_workspace_is_open() {
    assert_eq!(
        run(resolve_prefix("xyz"), "", None),
        (
            vec!["open".to_owned(), "invalid prefix".to_owned()],
            Ok(Outcome::InvalidPrefix)
        )
    );
    let (actions, outcome) = run(resolve_prefix("xyz"), "", Some(0));
    assert_eq!(actions, vec!["open"]);
    assert_eq!(outcome, Err("failed at 0".to_owned()));
}

#[test]
fn given_revsets_are_benchmarked_in_order() {
    assert_eq!(
        completed(revset(&["x | y", "all()"], None), ""),
        vec![
            "open",
            "create true retain before false 20",
            "group revsets",
            "print ----------Testing revset: x | y----------",
            "parse x | y",
            "count",
            "print First run took 3µs and produced 7 commits",
            "bench revset x | y",
            "print ----------Testing revset: all()----------",
            "parse all()",
            "count",
            "print First run took 3µs and produced 7 commits",
            "bench revset all()",
            "finish",
            "summary",
            "completed",
        ]
    );
}

#[test]
fn listed_revsets_are_benchmarked_in_order() {
    assert_eq!(
        completed(revset(&[], Some("list")), "# two\n\n  z\r\nall()\n"),
        vec![
            "open",
            "read list",
            "create true retain before false 20",
            "group revsets",
            "print ----------Testing revset: z----------",
            "parse z",
            "count",
            "print First run took 3µs and produced 7 commits",
            "bench revset z",
            "print ----------Testing revset: all()----------",
            "parse all()",
            "count",
            "print First run took 3µs and produced 7 commits",
            "bench revset all()",
            "finish",
            "summary",
            "completed",
        ]
    );
}

#[test]
fn file_goes_before_given_revsets() {
    assert_eq!(
        completed(revset(&["z"], Some("list")), "all()"),
        completed(revset(&[], Some("list")), "all()")
    );
}

#[test]
fn empty_list_opens_and_closes_the_group() {
    assert_eq!(
        completed(revset(&[], Some("list")), "# none\n"),
        vec![
            "open",
            "read list",
            "create true retain before false 20",
            "group revsets",
            "finish",
            "summary",
            "completed",
        ]
    );
}

#[test]
fn error_ends_the_run_and_is_handed_back() {
    let whole = completed(revset(&[], Some("list")), "z\nall()");
    for (i, action) in whole.iter().enumerate() {
        let fallible = ["open", "read ", "print ", "parse "];
        if fallible.iter().any(|prefix| action.starts_with(prefix)) {
            let (actions, outcome) = run(revset(&[], Some("list")), "z\nall()", Some(i));
            assert_eq!(actions, whole[..=i]);
            assert_eq!(outcome, Err(format!("failed at {i}")));
        }
    }
    for i in 0..3 {
        let (actions, outcome) = run(common_ancestors(), "", Some(i));
        assert_eq!(actions.len(), i + 1);
        assert_eq!(outcome, Err(format!("failed at {i}")));
    }
}

#[test]
fn copies_of_routines_are_equal() {
    for routine in [
        Routine::CommonAncestors {
            commit1: 3,
            commit2: 4,
        },
        Routine::IsAncestor {
            ancestor: 5,
            descendant: 6,
        },
    ] {
        assert_eq!(describe_routine(&routine.clone()), describe_routine(&routine));
    }
}

fn with_sample_size(mut command: BenchCommands, sample_size: u32) -> BenchCommands {
    match &mut command {
        BenchCommands::CommonAncestors(args) => args.criterion.sample_size = sample_size,
        BenchCommands::IsAncestor(args) => args.criterion.sample_size = sample_size,
        BenchCommands::ResolvePrefix(args) => args.criterion.sample_size = sample_size,
        BenchCommands::Revset(args) => args.criterion.sample_size = sample_size,
    }
    command
}

#[test]
fn small_sample_stops_where_the_runner_would_be_set_up() {
    for (command, expected) in [
        (
            common_ancestors(),
            vec!["open", "resolve x", "resolve y", "sample too small"],
        ),
        (
            is_ancestor(),
            vec!["open", "resolve x", "resolve y", "sample too small"],
        ),
        (resolve_prefix("0ab"), vec!["open", "sample too small"]),
        (revset(&["z"], None), vec!["open", "sample too small"]),
        (
            revset(&[], Some("list")),
            vec!["open", "read list", "sample too small"],
        ),
    ] {
        for sample_size in [0, 3, 9] {
            let (actions, outcome) = run(with_sample_size(command.clone(), sample_size), "z", None);
            assert_eq!(actions, expected);
            assert_eq!(outcome, Ok(Outcome::SampleSizeTooSmall));
        }
        let (_, outcome) = run(with_sample_size(command, 10), "z", None);
        assert_eq!(outcome, Ok(Outcome::Completed));
    }
}

#[test]
fn errors_and_invalid_prefixes_come_before_a_small_sample() {
    let (actions, outcome) = run(with_sample_size(common_ancestors(), 3), "", Some(2));
    assert_eq!(actions, vec!["open", "resolve x", "resolve y"]);
    assert_eq!(outcome, Err("failed at 2".to_owned()));

    let (actions, outcome) = run(with_sample_size(resolve_prefix("xyz"), 3), "", None);
    assert_eq!(actions, vec!["open", "invalid prefix"]);
    assert_eq!(outcome, Ok(Outcome::InvalidPrefix));
}

#[test]
fn runner_is_set_up_as_the_arguments_ask() {
    let set_up = "create true retain before false 4294967295";
    for command in [common_ancestors(), resolve_prefix(""), revset(&["z"], None)] {
        let actions = completed(with_sample_size(command, u32::MAX), "");
        let set_ups: Vec<_> = actions.iter().filter(|a| a.starts_with("create")).collect();
        assert_eq!(set_ups, vec![set_up]);
    }
}
