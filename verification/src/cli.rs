//! Choosing where the model comes from, given the command line.
use vstd::prelude::*;
use crate::preset::Preset;

verus! {

/// Where the model file comes from.
#[derive(Debug, Clone, Copy, PartialEq, Eq, Structural)]
pub enum ModelSource {
    /// Download the given preset.
    Download(Preset),
    /// Load the local file given with `--model`.
    LocalFile,
    /// Ask the user to pick a preset from the menu.
    Ask,
}

/// The command line names a model in two ways.
#[derive(Debug, Clone, Copy, PartialEq, Eq, Structural)]
pub enum SourceError {
    /// Both `--preset` and `--model` were given.
    PresetAndModel,
}

/// Where the model comes from: the preset when only `--preset` is given, the
/// local file when only `--model` is, the menu when neither is; giving both
/// is an error.
pub fn resolve_model_source(preset: Option<Preset>, model_given: bool) -> (res: Result<
    ModelSource,
    SourceError,
>)
    ensures
        match (preset, model_given) {
            (Some(p), false) => res == Ok::<ModelSource, SourceError>(ModelSource::Download(p)),
            (None, true) => res == Ok::<ModelSource, SourceError>(ModelSource::LocalFile),
            (None, false) => res == Ok::<ModelSource, SourceError>(ModelSource::Ask),
            (Some(_), true) => res == Err::<ModelSource, SourceError>(SourceError::PresetAndModel),
        },
{
    match (preset, model_given) {
        (Some(p), false) => Ok(ModelSource::Download(p)),
        (None, true) => Ok(ModelSource::LocalFile),
        (None, false) => Ok(ModelSource::Ask),
        (Some(_), true) => Err(SourceError::PresetAndModel),
    }
}

} // verus!
