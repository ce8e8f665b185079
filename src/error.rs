use vstd::prelude::*;

verus! {

/// Why a merge run failed.
#[derive(Debug)]
pub enum MergeError {
    /// The media engine cannot be called on this system.
    EngineUnavailable,
    /// The target directory cannot be read; holds the system's message.
    DirectoryNotFound { message: String },
    /// No visible file of a supported format is in the directory.
    NoSupportedFilesFound,
    /// The directory holds both video and audio files.
    MixedMediaKinds,
    /// Probing a file's frame rate failed.
    ProbeFailed { path: String, output: String },
    /// Re-encoding a file to the target frame rate failed.
    NormalizationFailed { path: String, output: String },
    /// The final concatenation failed.
    MergeFailed { path: String, output: String },
}

} // verus!
