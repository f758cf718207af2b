# wortlaut

Animated, word by word captions for short form video: a clip goes in, the same
clip comes out with karaoke style subtitles burned in, all on the local machine.

This crate is the verified core of that pipeline. The functions in `src/` are
checked by Verus against their `requires`/`ensures` contracts, with one
exception: the few small wrappers marked `#[verifier::external_body]`, which
call into the standard library (`String::push`, `char::is_alphanumeric`,
`Path::parent`, `Path::file_name`, `Path::file_stem`). Their contracts are
trusted, not proved, and each one's doc comment says what it claims. The
declarations of `Path`, `PathBuf` and `io::Error` only let those types pass
through unread.

## Layout

```
src/word.rs      word timings: plausible durations, settling reported timings
src/asr.rs       recogniser decisions: language choice, accepted audio shape,
                 segment to word, overlap clamping
src/ffmpeg.rs    binary search paths, progress timecodes, ffprobe output,
                 error tails, render setup
src/number.rs    integer text as Rust's parsers read it, and which texts
                 float parsing accepts
src/text.rs      trimming, lines, splitting, joining, decimal formatting
src/style.rs     colours and the caption style presets
src/pipeline.rs  the stages a job reports, the style it renders with for a
                 given frame, and output naming
src/models.rs    speech model catalogue
src/commands.rs  what the desktop shell hands to its frontend
src/error.rs     the pipeline's error type and its stable codes
app/             the desktop shell: runs ffmpeg, whisper.cpp and the Tauri UI
tests/           executable tests of the library
```

Percentages in the style presets are stored in hundredths of a percent
(`640` is 6.4 %), since the verified code holds no floating point values.

## Checking

Verus verifies `src/`; the tests under `tests/` run the compiled library.
