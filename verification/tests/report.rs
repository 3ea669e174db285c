use criterion::BenchmarkId;
use jj_bench::report::{
    announce_revset, name_common_ancestors, name_is_ancestor, name_resolve_prefix, report_revset,
    report_run, revset_benchmark_id, Elapsed,
};

fn elapsed(secs: u64, nanos: u32) -> Elapsed {
    Elapsed { secs, nanos }
}

#[test]
fn benchmarks_are_named_after_their_arguments() {
    assert_eq!(name_common_ancestors("main", "@-"), "commonancestors-main-@-");
    assert_eq!(name_is_ancestor("root", "@"), "isancestor-root-@");
    assert_eq!(name_resolve_prefix("04e"), "resolveprefix-04e");
    assert_eq!(name_resolve_prefix(""), "resolveprefix-");
}

#[test]
fn commands_do_not_share_names() {
    let names = [
        name_common_ancestors("a", "b"),
        name_is_ancestor("a", "b"),
        name_resolve_prefix("ab"),
        "revsets".to_owned(),
    ];
    for (i, name) in names.iter().enumerate() {
        for other in &names[i + 1..] {
            assert_ne!(name, other);
        }
    }
}

#[test]
fn revsets_are_their_own_ids() {
    assert!(revset_benchmark_id("all()") == BenchmarkId::from_parameter("all()"));
    assert!(revset_benchmark_id("all()") != BenchmarkId::from_parameter("all"));
    assert!(revset_benchmark_id("all()") != BenchmarkId::new("revset", "all()"));
}

#[test]
fn revsets_have_ids_of_their_own() {
    assert!(revset_benchmark_id("a") != revset_benchmark_id("b"));
    assert!(revset_benchmark_id("a") == revset_benchmark_id("a"));
}

#[test]
fn first_runs_are_reported() {
    assert_eq!(
        report_run(elapsed(0, 1_500), "true"),
        "First run took 1.5µs and produced: true"
    );
    assert_eq!(
        report_run(elapsed(2, 0), "[CommitId(\"04e1\")]"),
        "First run took 2s and produced: [CommitId(\"04e1\")]"
    );
}

#[test]
fn times_are_those_of_the_standard_library() {
    for (secs, nanos) in [
        (0, 0),
        (0, 999),
        (0, 1_000_000),
        (0, 999_999_999),
        (3, 14),
        (u64::MAX, 999_999_999),
    ] {
        let duration = std::time::Duration::new(secs, nanos);
        assert_eq!(
            report_run(elapsed(secs, nanos), ""),
            format!("First run took {duration:?} and produced: ")
        );
        assert_eq!(
            report_revset(elapsed(secs, nanos), 0),
            format!("First run took {duration:?} and produced 0 commits")
        );
    }
}

#[test]
fn revsets_are_announced() {
    assert_eq!(
        announce_revset("heads(all())"),
        "----------Testing revset: heads(all())----------"
    );
}

#[test]
fn first_walks_are_reported() {
    assert_eq!(
        report_revset(elapsed(0, 250_000_000), 1203),
        "First run took 250ms and produced 1203 commits"
    );
}
