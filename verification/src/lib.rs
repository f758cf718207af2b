//! wortlaut - animated, word by word captions for short form video.
//!
//! This library holds the decisions of the captioning pipeline: word timings
//! and how they are settled, caption style presets, reading ffmpeg and
//! ffprobe output, error codes, output naming and the model catalogue. The
//! work around them (running ffmpeg, speech recognition, the desktop shell)
//! calls into it.

use vstd::prelude::*;

pub mod asr;
pub mod commands;
pub mod error;
pub mod ffmpeg;
pub mod models;
pub mod number;
pub mod pipeline;
pub mod style;
pub mod text;
pub mod word;

pub use error::{Error, Result};
pub use ffmpeg::VideoInfo;
pub use pipeline::Stage;
pub use style::{HighlightMode, Rgb, StylePreset, SubtitleStyle};
pub use word::{Transcriber, Word};

verus! {
}
