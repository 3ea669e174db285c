//! How the benchmark runner is set up.

use vstd::prelude::*;

use crate::args::{CriterionArgs, CriterionArgsView};

verus! {

/// What is done with earlier results.
#[derive(Clone, Debug, PartialEq, Eq)]
pub enum Baseline {
    /// Results are saved under this name and overwrite earlier ones.
    Save(String),
    /// Results are compared with those under this name, which are kept. Where it is strict, the
    /// earlier results must exist.
    Retain { name: String, strict: bool },
}

/// What the benchmark runner is told before it runs anything.
#[derive(Clone, Debug, PartialEq, Eq)]
pub struct CriterionSettings {
    pub output_color: bool,
    pub baseline: Baseline,
    pub sample_size: usize,
}

/// What a `Baseline` holds.
pub enum BaselineView {
    Save(Seq<char>),
    Retain { name: Seq<char>, strict: bool },
}

impl View for Baseline {
    type V = BaselineView;

    open spec fn view(&self) -> BaselineView {
        match *self {
            Baseline::Save(name) => BaselineView::Save(name@),
            Baseline::Retain { name, strict } => BaselineView::Retain { name: name@, strict },
        }
    }
}

/// What `CriterionSettings` hold.
pub struct CriterionSettingsView {
    pub output_color: bool,
    pub baseline: BaselineView,
    pub sample_size: nat,
}

impl View for CriterionSettings {
    type V = CriterionSettingsView;

    open spec fn view(&self) -> CriterionSettingsView {
        CriterionSettingsView {
            output_color: self.output_color,
            baseline: self.baseline@,
            sample_size: self.sample_size as nat,
        }
    }
}

/// The baseline that the arguments ask for: the one to compare with, where it is named, which
/// need not exist; the one to save otherwise.
pub open spec fn chosen_baseline(args: CriterionArgsView) -> BaselineView {
    match args.baseline {
        Some(name) => BaselineView::Retain { name, strict: false },
        None => BaselineView::Save(args.save_baseline),
    }
}

/// The settings that the arguments ask for.
pub open spec fn settings_for(color: bool, args: CriterionArgsView) -> CriterionSettingsView {
    CriterionSettingsView {
        output_color: color,
        baseline: chosen_baseline(args),
        sample_size: args.sample_size,
    }
}

/// Decides how the benchmark runner is set up. The runner refuses a sample that is too small.
pub fn criterion_settings(color: bool, args: &CriterionArgs) -> (settings: CriterionSettings)
    requires
        args@.valid(),
    ensures
        settings@ == settings_for(color, args@),
        settings.output_color == color,
        settings.sample_size == args.sample_size,
        match args.baseline {
            Some(given) => settings.baseline matches Baseline::Retain { name, strict } && name@
                == given@ && !strict,
            None => settings.baseline matches Baseline::Save(name) && name@ == args.save_baseline@,
        },
{
    let baseline = match &args.baseline {
        Some(name) => Baseline::Retain { name: name.clone(), strict: false },
        None => Baseline::Save(args.save_baseline.clone()),
    };
    CriterionSettings { output_color: color, baseline, sample_size: args.sample_size as usize }
}

} // verus!
