//! The error of the pipeline. Every fatal condition of one invocation is one
//! of these values; the dispatcher halts batch processing on the first one.

use vstd::prelude::*;

verus! {

/// Why an invocation failed.
#[derive(Clone, Copy, Debug, PartialEq, Eq, Structural)]
pub enum PipelineError {
    /// The size configuration string is absent or malformed.
    ConfigInvalid,
    /// A notification record lacks its region, bucket name, or object key.
    MissingField,
    /// The source object could not be fetched from the bucket.
    FetchFailed,
    /// The fetched bytes could not be decoded as an image.
    DecodeFailed,
    /// The scaled image could not be encoded as PNG.
    EncodeFailed,
    /// The thumbnail could not be written back to the bucket. Only the real
    /// bucket client produces this: the in-memory store's write always
    /// succeeds.
    UploadFailed,
}

impl PipelineError {
    /// A short description, for logs.
    pub fn describe(&self) -> (r: &'static str)
        ensures
            r@.len() > 0,
    {
        let r = match self {
            PipelineError::ConfigInvalid => "invalid size configuration",
            PipelineError::MissingField => "record lacks region, bucket, or key",
            PipelineError::FetchFailed => "could not fetch source object",
            PipelineError::DecodeFailed => "could not decode source image",
            PipelineError::EncodeFailed => "could not encode thumbnail",
            PipelineError::UploadFailed => "could not upload thumbnail",
        };
        proof {
            reveal_strlit("invalid size configuration");
            reveal_strlit("record lacks region, bucket, or key");
            reveal_strlit("could not fetch source object");
            reveal_strlit("could not decode source image");
            reveal_strlit("could not encode thumbnail");
            reveal_strlit("could not upload thumbnail");
        }
        r
    }
}

} // verus!
