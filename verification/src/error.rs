//! The closed set of failures the pipeline knows.

use vstd::prelude::*;

verus! {

/// What can go wrong between microphone and mouse.
#[derive(Clone, Copy, Debug, PartialEq, Eq, Structural)]
pub enum PipelineError {
    /// The acoustic or language model could not be loaded.
    ModelLoadError,
    /// The region configuration was missing or malformed.
    ConfigLoadWarning,
    /// A command named a region that the registry does not hold.
    RegionNotFound,
    /// The operating system refused the cursor move or the click.
    InjectionFailure,
}

impl PipelineError {
    /// Only a model that fails to load stops the process; everything else is
    /// logged and the pipeline carries on.
    pub open spec fn fatal(self) -> bool {
        self == PipelineError::ModelLoadError
    }

    /// Executable form of [`PipelineError::fatal`].
    pub fn is_fatal(&self) -> (r: bool)
        ensures
            r == self.fatal(),
    {
        match self {
            PipelineError::ModelLoadError => true,
            _ => false,
        }
    }

    /// The log line for this failure.
    pub open spec fn message_spec(self) -> Seq<char> {
        match self {
            PipelineError::ModelLoadError => "speech model could not be loaded"@,
            PipelineError::ConfigLoadWarning => "region configuration could not be loaded"@,
            PipelineError::RegionNotFound => "no region with that name"@,
            PipelineError::InjectionFailure => "mouse action failed"@,
        }
    }

    /// The log line for this failure.
    pub fn message(&self) -> (r: &'static str)
        ensures
            r@ == self.message_spec(),
    {
        match self {
            PipelineError::ModelLoadError => "speech model could not be loaded",
            PipelineError::ConfigLoadWarning => "region configuration could not be loaded",
            PipelineError::RegionNotFound => "no region with that name",
            PipelineError::InjectionFailure => "mouse action failed",
        }
    }
}

} // verus!
