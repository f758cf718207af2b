//! One error type for the whole pipeline. The variants exist so the UI can tell
//! "you need to install ffmpeg" apart from "this file is not a video", instead of
//! showing a raw process error to someone who is not a developer.

use std::path::PathBuf;
use vstd::prelude::*;

verus! {

/// `std::path::PathBuf`, carried through unread.
#[verifier::external_type_specification]
#[verifier::external_body]
pub struct ExPathBuf(PathBuf);

/// `std::path::Path`, carried through unread.
#[verifier::external_type_specification]
#[verifier::external_body]
pub struct ExPath(std::path::Path);

/// `std::io::Error`, carried through unread.
#[verifier::external_type_specification]
#[verifier::external_body]
pub struct ExIoError(std::io::Error);

#[derive(Debug)]
pub enum Error {
    /// No ffmpeg binary found. Carries the places that were searched so the UI
    /// can show them.
    FfmpegMissing { searched: String },
    /// ffmpeg started but exited non zero. `stderr` is the tail of its output.
    FfmpegFailed { context: String, stderr: String },
    FileNotFound(PathBuf),
    /// No speech model has been placed in the model directory yet.
    ModelMissing,
    Transcription(String),
    UnknownDuration(PathBuf),
    Io(std::io::Error),
}

pub type Result<T> = core::result::Result<T, Error>;

/// The stable machine readable code of each variant.
pub open spec fn code_of(e: &Error) -> Seq<char> {
    match e {
        Error::FfmpegMissing { .. } => "ffmpeg_missing"@,
        Error::FfmpegFailed { .. } => "ffmpeg_failed"@,
        Error::FileNotFound(_) => "file_not_found"@,
        Error::ModelMissing => "model_missing"@,
        Error::Transcription(_) => "transcription_failed"@,
        Error::UnknownDuration(_) => "unknown_duration"@,
        Error::Io(_) => "io_error"@,
    }
}

/// Which variant `e` is, as a number.
pub open spec fn variant_of(e: &Error) -> int {
    match e {
        Error::FfmpegMissing { .. } => 0,
        Error::FfmpegFailed { .. } => 1,
        Error::FileNotFound(_) => 2,
        Error::ModelMissing => 3,
        Error::Transcription(_) => 4,
        Error::UnknownDuration(_) => 5,
        Error::Io(_) => 6,
    }
}

impl Error {
    /// Stable machine readable code. The UI maps this onto a translated string
    /// instead of showing the English text.
    pub fn code(&self) -> (c: &'static str)
        ensures
            c@ == code_of(self),
    {
        match self {
            Error::FfmpegMissing { .. } => "ffmpeg_missing",
            Error::FfmpegFailed { .. } => "ffmpeg_failed",
            Error::FileNotFound(_) => "file_not_found",
            Error::ModelMissing => "model_missing",
            Error::Transcription(_) => "transcription_failed",
            Error::UnknownDuration(_) => "unknown_duration",
            Error::Io(_) => "io_error",
        }
    }
}

/// Two errors share a code exactly when they are the same kind of error, so
/// the UI can always tell the kinds apart by code.
pub proof fn law_codes_tell_kinds_apart(a: &Error, b: &Error)
    ensures
        (code_of(a) == code_of(b)) <==> (variant_of(a) == variant_of(b)),
{
    reveal_strlit("ffmpeg_missing");
    reveal_strlit("ffmpeg_failed");
    reveal_strlit("file_not_found");
    reveal_strlit("model_missing");
    reveal_strlit("transcription_failed");
    reveal_strlit("unknown_duration");
    reveal_strlit("io_error");
    if variant_of(a) != variant_of(b) {
        assert(code_of(a) != code_of(b)) by {
            let x = code_of(a);
            let y = code_of(b);
            if x.len() == y.len() {
                assert(x[0] != y[0] || x[1] != y[1] || x[2] != y[2] || x[5] != y[5] || x[6] != y[6] || x[7] != y[7]);
            }
        }
    }
}

} // verus!
