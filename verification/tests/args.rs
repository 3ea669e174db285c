use jj_bench::args::{ArgsError, BenchRevsetArgs, CriterionArgs};
use jj_bench::settings::{criterion_settings, Baseline};

fn text(s: &str) -> Option<String> {
    Some(s.to_owned())
}

fn defaults() -> CriterionArgs {
    CriterionArgs::new(None, None, None).unwrap()
}

#[test]
fn options_have_defaults() {
    let args = defaults();
    assert_eq!(args.save_baseline, "base");
    assert_eq!(args.baseline, None);
    assert_eq!(args.sample_size, 100);
}

#[test]
fn options_are_taken_as_given() {
    let args = CriterionArgs::new(text("mine"), None, Some(10)).unwrap();
    assert_eq!(args.save_baseline, "mine");
    assert_eq!(args.baseline, None);
    assert_eq!(args.sample_size, 10);

    let args = CriterionArgs::new(None, text("theirs"), Some(u32::MAX)).unwrap();
    assert_eq!(args.save_baseline, "base");
    assert_eq!(args.baseline, text("theirs"));
    assert_eq!(args.sample_size, u32::MAX);
}

#[test]
fn small_samples_are_refused() {
    for size in 0..10 {
        assert_eq!(
            CriterionArgs::new(None, None, Some(size)).unwrap_err(),
            ArgsError::SampleSizeTooSmall(size)
        );
    }
}

#[test]
fn two_baselines_are_refused() {
    assert_eq!(
        CriterionArgs::new(text("a"), text("b"), None).unwrap_err(),
        ArgsError::ConflictingBaselines
    );
}

#[test]
fn small_sample_is_refused_before_two_baselines() {
    assert_eq!(
        CriterionArgs::new(text("a"), text("b"), Some(9)).unwrap_err(),
        ArgsError::SampleSizeTooSmall(9)
    );
}

#[test]
fn revsets_come_from_one_source() {
    let args = BenchRevsetArgs::new(vec!["x".to_owned(), "y".to_owned()], None, defaults());
    let args = args.unwrap();
    assert_eq!(args.revisions, vec!["x", "y"]);
    assert_eq!(args.file, None);

    let args = BenchRevsetArgs::new(vec![], text("list"), defaults()).unwrap();
    assert!(args.revisions.is_empty());
    assert_eq!(args.file, text("list"));
}

#[test]
fn missing_revsets_are_refused() {
    assert_eq!(
        BenchRevsetArgs::new(vec![], None, defaults()).unwrap_err(),
        ArgsError::MissingRevsets
    );
}

#[test]
fn two_sources_of_revsets_are_refused() {
    assert_eq!(
        BenchRevsetArgs::new(vec!["x".to_owned()], text("list"), defaults()).unwrap_err(),
        ArgsError::ConflictingRevsets
    );
}

#[test]
fn results_are_saved_by_default() {
    let settings = criterion_settings(true, &defaults());
    assert!(settings.output_color);
    assert_eq!(settings.baseline, Baseline::Save("base".to_owned()));
    assert_eq!(settings.sample_size, 100);
}

#[test]
fn results_are_saved_under_the_name_given() {
    let args = CriterionArgs::new(text("mine"), None, Some(12)).unwrap();
    let settings = criterion_settings(false, &args);
    assert!(!settings.output_color);
    assert_eq!(settings.baseline, Baseline::Save("mine".to_owned()));
    assert_eq!(settings.sample_size, 12);
}

#[test]
fn results_to_compare_with_need_not_exist() {
    let args = CriterionArgs::new(None, text("theirs"), None).unwrap();
    assert_eq!(
        criterion_settings(false, &args).baseline,
        Baseline::Retain {
            name: "theirs".to_owned(),
            strict: false
        }
    );
}

#[test]
fn samples_are_large_enough() {
    for size in [None, Some(10), Some(11), Some(u32::MAX)] {
        let args = CriterionArgs::new(None, None, size).unwrap();
        assert!(criterion_settings(false, &args).sample_size >= 10);
    }
}
