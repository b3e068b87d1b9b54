//! The error model of the pipeline: what can go wrong, and which failures
//! end a session, which end the stream, and which are downgraded.

use vstd::prelude::*;

verus! {

/// Everything the pipeline can report. `EndOfStream` is the normal end of
/// playback, not a failure; `AudioError` is always non-fatal and downgrades
/// to a persistent "no audio" status.
#[derive(Clone, Debug, PartialEq)]
pub enum VideoError {
    /// The input file is missing.
    ResourceNotFound(String),
    /// The decoder failed to open or run.
    DecodingError(String),
    /// The input holds no usable video stream.
    FormatError(String),
    /// The decoder ran out of frames: playback ends normally.
    EndOfStream,
    /// A filesystem or temporary-resource failure.
    IoError(String),
    /// A required external tool is missing or failed.
    ExternalToolError(String),
    /// An audio device, init or decode failure; never fatal.
    AudioError(String),
    /// A call was made before its configuration step.
    InvalidInput(String),
}

impl VideoError {
    /// Whether this error ends the session before playback may start.
    pub fn is_fatal(&self) -> (r: bool)
        ensures
            r == (self matches VideoError::ResourceNotFound(_) || self
                matches VideoError::DecodingError(_) || self matches VideoError::FormatError(_)
                || self matches VideoError::InvalidInput(_)),
    {
        match self {
            VideoError::ResourceNotFound(_) => true,
            VideoError::DecodingError(_) => true,
            VideoError::FormatError(_) => true,
            VideoError::InvalidInput(_) => true,
            VideoError::EndOfStream => false,
            VideoError::IoError(_) => false,
            VideoError::ExternalToolError(_) => false,
            VideoError::AudioError(_) => false,
        }
    }

    /// A short name for the error's kind.
    pub fn kind_name(&self) -> (r: &'static str)
        ensures
            (self matches VideoError::ResourceNotFound(_)) ==> r@ == "resource not found"@,
            (self matches VideoError::DecodingError(_)) ==> r@ == "decoding error"@,
            (self matches VideoError::FormatError(_)) ==> r@ == "format error"@,
            (self matches VideoError::EndOfStream) ==> r@ == "end of stream"@,
            (self matches VideoError::IoError(_)) ==> r@ == "io error"@,
            (self matches VideoError::ExternalToolError(_)) ==> r@ == "external tool error"@,
            (self matches VideoError::AudioError(_)) ==> r@ == "audio error"@,
            (self matches VideoError::InvalidInput(_)) ==> r@ == "invalid input"@,
    {
        match self {
            VideoError::ResourceNotFound(_) => "resource not found",
            VideoError::DecodingError(_) => "decoding error",
            VideoError::FormatError(_) => "format error",
            VideoError::EndOfStream => "end of stream",
            VideoError::IoError(_) => "io error",
            VideoError::ExternalToolError(_) => "external tool error",
            VideoError::AudioError(_) => "audio error",
            VideoError::InvalidInput(_) => "invalid input",
        }
    }
}

} // verus!
