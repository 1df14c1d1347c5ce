//! Decoding through the system `ffmpeg` binary: the command line that asks
//! for raw little-endian `f32` PCM on standard output, and what each way the
//! process can end means for the caller.

use vstd::prelude::*;
use vstd::utf8::{decode_utf8, valid_utf8};
use crate::error::PodcastHelperError;
use crate::pcm::{channels_spec, le_word, le_words, ExtractOptions, RawPcm};
use crate::text::{decimal, u32_to_decimal};

verus! {

/// The arguments given to `ffmpeg` to decode `source` with `opts`: quiet
/// but for errors, read `source`, write `f32le` samples with the asked
/// channel count and sample rate to standard output.
pub open spec fn ffmpeg_args_spec(source: Seq<char>, opts: ExtractOptions) -> Seq<Seq<char>> {
    seq![
        "-hide_banner"@,
        "-loglevel"@,
        "error"@,
        "-i"@,
        source,
        "-f"@,
        "f32le"@,
        "-ac"@,
        decimal(channels_spec(opts) as nat),
        "-ar"@,
        decimal(opts.sample_rate as nat),
        "pipe:1"@,
    ]
}

/// The strings of a list, by their characters.
pub open spec fn strings_view(v: Seq<String>) -> Seq<Seq<char>> {
    v.map_values(|s: String| s@)
}

/// The `ffmpeg` command line (without the binary) that decodes `source`.
pub fn ffmpeg_args(source: &str, opts: &ExtractOptions) -> (r: Vec<String>)
    ensures
        strings_view(r@) == ffmpeg_args_spec(source@, *opts),
{
    let mut r: Vec<String> = Vec::new();
    r.push(String::from_str("-hide_banner"));
    r.push(String::from_str("-loglevel"));
    r.push(String::from_str("error"));
    r.push(String::from_str("-i"));
    r.push(String::from_str(source));
    r.push(String::from_str("-f"));
    r.push(String::from_str("f32le"));
    r.push(String::from_str("-ac"));
    r.push(u32_to_decimal(opts.channels() as u32));
    r.push(String::from_str("-ar"));
    r.push(u32_to_decimal(opts.sample_rate));
    r.push(String::from_str("pipe:1"));
    assert(strings_view(r@) =~= ffmpeg_args_spec(source@, *opts));
    r
}

/// How running the decoder ended.
#[derive(Debug)]
pub enum SpawnOutcome {
    /// The binary could not be found.
    NotFound,
    /// The process could not be run for another reason.
    Failed(std::io::Error),
    /// The process ran and exited, successfully or not, with its output.
    Exited { success: bool, stdout: Vec<u8>, stderr: Vec<u8> },
}

/// Whether `std::io::Error::kind` of a spawn error is `ErrorKind::NotFound`:
/// the binary does not exist.
pub uninterp spec fn io_error_not_found(e: std::io::Error) -> bool;

/// `std::io::Error::kind` compared with `ErrorKind::NotFound`. Claimed: the
/// result is the kind test named `io_error_not_found`.
#[verifier::external_body]
fn is_not_found(e: &std::io::Error) -> (r: bool)
    ensures
        r == io_error_not_found(*e),
{
    e.kind() == std::io::ErrorKind::NotFound
}

/// The outcome of a run that could not be spawned: `NotFound` exactly where
/// the error's kind is `NotFound`, else `Failed` with the error itself.
pub fn spawn_failure(e: std::io::Error) -> (r: SpawnOutcome)
    ensures
        (r is NotFound) == io_error_not_found(e),
        r is NotFound || r == SpawnOutcome::Failed(e),
{
    if is_not_found(&e) {
        SpawnOutcome::NotFound
    } else {
        SpawnOutcome::Failed(e)
    }
}

/// What `String::from_utf8_lossy` makes of `bytes`.
pub uninterp spec fn utf8_lossy(bytes: Seq<u8>) -> Seq<char>;

/// `String::from_utf8_lossy`: the text of `bytes`, with each invalid UTF-8
/// sequence replaced by U+FFFD. Claimed: the result is a function of the
/// bytes, and valid UTF-8 is decoded exactly.
#[verifier::external_body]
fn lossy_text(bytes: &[u8]) -> (r: String)
    ensures
        r@ == utf8_lossy(bytes@),
        valid_utf8(bytes@) ==> r@ == decode_utf8(bytes@),
{
    String::from_utf8_lossy(bytes).into_owned()
}

/// What a run of `binary` on `source` with `opts` means: a missing binary
/// is `FfmpegNotFound`, another spawn failure `Io`, a failing exit
/// `FfmpegFailed` with the decoder's diagnostics, and a successful exit the
/// decoded samples (the output read as little-endian 32-bit words).
pub fn ffmpeg_outcome(binary: &str, source: &str, opts: &ExtractOptions, outcome: SpawnOutcome) -> (r: Result<RawPcm, PodcastHelperError>)
    ensures
        match outcome {
            SpawnOutcome::NotFound => r matches Err(PodcastHelperError::FfmpegNotFound(b)) && b@ == binary@,
            SpawnOutcome::Failed(e) => r matches Err(PodcastHelperError::Io(e2)) && e2 == e,
            SpawnOutcome::Exited { success, stdout, stderr } => if success {
                r matches Ok(pcm) && pcm.sample_rate == opts.sample_rate && pcm.channels == channels_spec(*opts)
                    && pcm.sample_bits@.len() == stdout@.len() / 4
                    && forall|i: int| 0 <= i < pcm.sample_bits@.len() ==> #[trigger] pcm.sample_bits@[i] as int == le_word(stdout@, i)
            } else {
                r matches Err(PodcastHelperError::FfmpegFailed { input_source, stderr: text })
                    && input_source@ == source@ && text@ == utf8_lossy(stderr@)
            },
        },
{
    match outcome {
        SpawnOutcome::NotFound => Err(PodcastHelperError::FfmpegNotFound(String::from_str(binary))),
        SpawnOutcome::Failed(e) => Err(PodcastHelperError::Io(e)),
        SpawnOutcome::Exited { success, stdout, stderr } => {
            if success {
                Ok(RawPcm { sample_rate: opts.sample_rate, channels: opts.channels(), sample_bits: le_words(stdout.as_slice()) })
            } else {
                Err(PodcastHelperError::FfmpegFailed { input_source: String::from_str(source), stderr: lossy_text(stderr.as_slice()) })
            }
        },
    }
}

} // verus!
