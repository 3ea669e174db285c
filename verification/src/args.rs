//! The benchmark commands and their arguments.

use vstd::prelude::*;

use crate::text::{option_text, texts};

verus! {

/// The baseline that results are saved under where no name is given.
pub const DEFAULT_BASELINE: &'static str = "base";

/// The smallest sample size that a benchmark can have.
pub const MIN_SAMPLE_SIZE: u32 = 10;

/// The sample size where none is given.
pub const DEFAULT_SAMPLE_SIZE: u32 = 100;

/// Why arguments do not make a command.
#[derive(Clone, Copy, Debug, PartialEq, Eq, Structural)]
pub enum ArgsError {
    /// The sample size is below the smallest one.
    SampleSizeTooSmall(u32),
    /// A baseline to save and one to compare with were both named.
    ConflictingBaselines,
    /// Neither revsets nor a file of revsets were named.
    MissingRevsets,
    /// Revsets and a file of revsets were both named.
    ConflictingRevsets,
}

/// How the benchmarks are run.
#[derive(Clone, Debug)]
pub struct CriterionArgs {
    /// Name of baseline to save results
    pub save_baseline: String,
    /// Name of baseline to compare with
    pub baseline: Option<String>,
    /// Sample size for the benchmarks, which must be at least 10
    pub sample_size: u32,
}

/// What `CriterionArgs` hold.
pub struct CriterionArgsView {
    pub save_baseline: Seq<char>,
    pub baseline: Option<Seq<char>>,
    pub sample_size: nat,
}

impl View for CriterionArgs {
    type V = CriterionArgsView;

    open spec fn view(&self) -> CriterionArgsView {
        CriterionArgsView {
            save_baseline: self.save_baseline@,
            baseline: option_text(self.baseline),
            sample_size: self.sample_size as nat,
        }
    }
}

impl CriterionArgsView {
    /// Whether the sample is large enough.
    pub open spec fn valid(self) -> bool {
        self.sample_size >= MIN_SAMPLE_SIZE
    }
}

/// What the criterion options stand for, each `None` where it was not given.
///
/// A sample that is too small is refused before the two baselines are looked at.
pub open spec fn criterion_args(
    save_baseline: Option<Seq<char>>,
    baseline: Option<Seq<char>>,
    sample_size: Option<u32>,
) -> Result<CriterionArgsView, ArgsError> {
    let size = match sample_size {
        Some(n) => n,
        None => DEFAULT_SAMPLE_SIZE,
    };
    if size < MIN_SAMPLE_SIZE {
        Err(ArgsError::SampleSizeTooSmall(size))
    } else if save_baseline is Some && baseline is Some {
        Err(ArgsError::ConflictingBaselines)
    } else {
        Ok(
            CriterionArgsView {
                save_baseline: match save_baseline {
                    Some(name) => name,
                    None => DEFAULT_BASELINE@,
                },
                baseline,
                sample_size: size as nat,
            },
        )
    }
}

impl CriterionArgs {
    /// Makes the arguments from the options, each `None` where it was not given.
    pub fn new(
        save_baseline: Option<String>,
        baseline: Option<String>,
        sample_size: Option<u32>,
    ) -> (r: Result<CriterionArgs, ArgsError>)
        ensures
            match r {
                Ok(args) => Ok::<CriterionArgsView, ArgsError>(args@),
                Err(error) => Err(error),
            } == criterion_args(option_text(save_baseline), option_text(baseline), sample_size),
            match r {
                Ok(args) => {
                    &&& args.sample_size >= 10
                    &&& args.sample_size == (match sample_size {
                        Some(size) => size,
                        None => 100,
                    })
                    &&& args.baseline == baseline
                    &&& match save_baseline {
                        Some(name) => args.save_baseline == name && baseline is None,
                        None => args.save_baseline@ == "base"@,
                    }
                },
                Err(ArgsError::SampleSizeTooSmall(size)) => sample_size == Some(size) && size < 10,
                Err(ArgsError::ConflictingBaselines) => {
                    &&& save_baseline is Some
                    &&& baseline is Some
                    &&& sample_size matches Some(size) ==> size >= 10
                },
                Err(_) => false,
            },
    {
        let size: u32 = match sample_size {
            Some(n) => n,
            None => DEFAULT_SAMPLE_SIZE,
        };
        if size < MIN_SAMPLE_SIZE {
            return Err(ArgsError::SampleSizeTooSmall(size));
        }
        if save_baseline.is_some() && baseline.is_some() {
            return Err(ArgsError::ConflictingBaselines);
        }
        let name = match save_baseline {
            Some(name) => name,
            None => DEFAULT_BASELINE.to_owned(),
        };
        Ok(CriterionArgs { save_baseline: name, baseline, sample_size: size })
    }
}

/// Find the common ancestor(s) of a set of commits
#[derive(Clone, Debug)]
pub struct BenchCommonAncestorsArgs {
    pub revision1: String,
    pub revision2: String,
    pub criterion: CriterionArgs,
}

/// Checks if the first commit is an ancestor of the second commit
#[derive(Clone, Debug)]
pub struct BenchIsAncestorArgs {
    pub ancestor: String,
    pub descendant: String,
    pub criterion: CriterionArgs,
}

/// Walk the revisions in the revset
#[derive(Clone, Debug)]
pub struct BenchRevsetArgs {
    pub revisions: Vec<String>,
    /// Read revsets from file
    pub file: Option<String>,
    pub criterion: CriterionArgs,
}

impl BenchRevsetArgs {
    /// Makes the arguments. Either revsets or a file that lists them must be named, not both.
    pub fn new(revisions: Vec<String>, file: Option<String>, criterion: CriterionArgs) -> (r: Result<
        BenchRevsetArgs,
        ArgsError,
    >)
        ensures
            match r {
                Ok(args) => {
                    &&& (revisions@.len() > 0) != (file is Some)
                    &&& args == (BenchRevsetArgs { revisions, file, criterion })
                },
                Err(error) => {
                    ||| error == ArgsError::MissingRevsets && revisions@.len() == 0 && file is None
                    ||| error == ArgsError::ConflictingRevsets && revisions@.len() > 0
                        && file is Some
                },
            },
    {
        if revisions.len() == 0 && file.is_none() {
            return Err(ArgsError::MissingRevsets);
        }
        if revisions.len() > 0 && file.is_some() {
            return Err(ArgsError::ConflictingRevsets);
        }
        Ok(BenchRevsetArgs { revisions, file, criterion })
    }
}

/// Resolve a commit ID prefix
#[derive(Clone, Debug)]
pub struct BenchResolvePrefixArgs {
    pub prefix: String,
    pub criterion: CriterionArgs,
}

/// Commands for benchmarking internal operations
#[derive(Clone, Debug)]
pub enum BenchCommands {
    CommonAncestors(BenchCommonAncestorsArgs),
    IsAncestor(BenchIsAncestorArgs),
    ResolvePrefix(BenchResolvePrefixArgs),
    Revset(BenchRevsetArgs),
}

/// What a command holds.
pub enum BenchCommandsView {
    CommonAncestors { revision1: Seq<char>, revision2: Seq<char>, criterion: CriterionArgsView },
    IsAncestor { ancestor: Seq<char>, descendant: Seq<char>, criterion: CriterionArgsView },
    ResolvePrefix { prefix: Seq<char>, criterion: CriterionArgsView },
    Revset {
        revisions: Seq<Seq<char>>,
        file: Option<Seq<char>>,
        criterion: CriterionArgsView,
    },
}

impl View for BenchCommands {
    type V = BenchCommandsView;

    open spec fn view(&self) -> BenchCommandsView {
        match *self {
            BenchCommands::CommonAncestors(args) => BenchCommandsView::CommonAncestors {
                revision1: args.revision1@,
                revision2: args.revision2@,
                criterion: args.criterion@,
            },
            BenchCommands::IsAncestor(args) => BenchCommandsView::IsAncestor {
                ancestor: args.ancestor@,
                descendant: args.descendant@,
                criterion: args.criterion@,
            },
            BenchCommands::ResolvePrefix(args) => BenchCommandsView::ResolvePrefix {
                prefix: args.prefix@,
                criterion: args.criterion@,
            },
            BenchCommands::Revset(args) => BenchCommandsView::Revset {
                revisions: texts(args.revisions@),
                file: option_text(args.file),
                criterion: args.criterion@,
            },
        }
    }
}

impl BenchCommandsView {
    /// How the benchmarks of the command are run.
    pub open spec fn criterion(self) -> CriterionArgsView {
        match self {
            BenchCommandsView::CommonAncestors { criterion, .. } => criterion,
            BenchCommandsView::IsAncestor { criterion, .. } => criterion,
            BenchCommandsView::ResolvePrefix { criterion, .. } => criterion,
            BenchCommandsView::Revset { criterion, .. } => criterion,
        }
    }
}

} // verus!
