//! The data a transcription run produces.

use vstd::prelude::*;
use crate::timestamps::{spec_duration_str, format_duration_ms};
use crate::strutil::is_space;

verus! {

/// Source characteristics of the processed audio, captured once at decode
/// time. Durations are in milliseconds; when speed adjustment was applied the
/// duration is corrected back so the user sees original time.
#[derive(Debug, Clone)]
pub struct AudioInfo {
    /// Duration in milliseconds.
    pub duration_ms: u64,
    /// Duration rendered as `M:SS`.
    pub duration_str: String,
    /// Channel count of the source.
    pub channels: u32,
    /// Sample rate of the source, in Hz.
    pub sample_rate: u32,
}

impl AudioInfo {
    /// Capture the source characteristics; the rendered duration is derived.
    pub fn new(duration_ms: u64, channels: u32, sample_rate: u32) -> (r: AudioInfo)
        ensures
            r.duration_ms == duration_ms,
            r.channels == channels,
            r.sample_rate == sample_rate,
            r.duration_str@ == spec_duration_str(duration_ms as int),
    {
        AudioInfo {
            duration_ms,
            duration_str: Self::format_duration(duration_ms),
            channels,
            sample_rate,
        }
    }

    /// Render a duration in milliseconds as `M:SS`.
    pub fn format_duration(ms: u64) -> (r: String)
        ensures
            r@ == spec_duration_str(ms as int),
    {
        format_duration_ms(ms)
    }

    /// Scale the duration back to original-audio time after the audio was
    /// sped up by `hundredths / 100`, re-rendering the duration string.
    pub fn apply_speed_correction(&mut self, hundredths: u32)
        requires
            old(self).duration_ms <= 0xFFFF_FFFF_FFFF,
            hundredths <= 1000,
        ensures
            final(self).duration_ms == old(self).duration_ms * hundredths / 100,
            final(self).duration_str@ == spec_duration_str(final(self).duration_ms as int),
            final(self).channels == old(self).channels,
            final(self).sample_rate == old(self).sample_rate,
    {
        proof {
            let d = self.duration_ms as int;
            assert(d * (hundredths as int) <= u64::MAX as int) by (nonlinear_arith)
                requires
                    d <= 0xFFFF_FFFF_FFFF,
                    hundredths <= 1000,
            ;
        }
        self.duration_ms = self.duration_ms * (hundredths as u64) / 100;
        self.duration_str = Self::format_duration(self.duration_ms);
    }
}

/// Where a transcription came from.
#[derive(Clone, Copy, Debug, PartialEq, Eq, Structural)]
pub enum SourceType {
    /// The engine ran on a local file.
    Whisper,
    /// Captions fetched remotely, bypassing the engine.
    YoutubeSubtitles,
    /// The engine ran on remote audio, by the older retrieval path.
    Youtube,
    /// The engine ran on remote audio retrieved by the download tool.
    YoutubeWhisper,
}

impl SourceType {
    /// The stable name this source is recorded under.
    pub fn as_str(&self) -> (r: &'static str)
        ensures
            r@ == self.spec_name(),
    {
        match self {
            SourceType::Whisper => "whisper",
            SourceType::YoutubeSubtitles => "youtube_subtitles",
            SourceType::Youtube => "youtube",
            SourceType::YoutubeWhisper => "youtube_whisper",
        }
    }

    pub open spec fn spec_name(&self) -> Seq<char> {
        match self {
            SourceType::Whisper => "whisper"@,
            SourceType::YoutubeSubtitles => "youtube_subtitles"@,
            SourceType::Youtube => "youtube"@,
            SourceType::YoutubeWhisper => "youtube_whisper"@,
        }
    }
}

/// What one transcription request returns, constructed exactly once per
/// request.
#[derive(Debug, Clone)]
pub struct TranscriptionResult {
    /// The assembled transcript.
    pub text: String,
    /// Detected language code, when detection ran.
    pub language: Option<String>,
    /// Source characteristics, when audio was decoded locally.
    pub audio_info: Option<AudioInfo>,
    /// Wall-clock processing time, in milliseconds.
    pub processing_time_ms: u64,
}

/// Number of whitespace-separated words among the first `i` characters.
pub open spec fn spec_word_starts(s: Seq<char>, i: int) -> int
    decreases i,
{
    if i <= 0 {
        0
    } else {
        spec_word_starts(s, i - 1) + if !is_space(s[i - 1]) && (i - 1 == 0 || is_space(
            s[i - 2],
        )) {
            1int
        } else {
            0int
        }
    }
}

/// Number of whitespace-separated words in `s`.
pub open spec fn spec_word_count(s: Seq<char>) -> int {
    spec_word_starts(s, s.len() as int)
}

/// Count the whitespace-separated words of a text.
pub fn count_words(text: &Vec<char>) -> (r: usize)
    ensures
        r == spec_word_count(text@),
{
    let n = text.len();
    let mut count: usize = 0;
    let mut i: usize = 0;
    while i < n
        invariant
            i <= n,
            n == text@.len(),
            count == spec_word_starts(text@, i as int),
            count <= i,
        decreases n - i,
    {
        let starts = !crate::strutil::check_space(text[i]) && (i == 0 || crate::strutil::check_space(
            text[i - 1],
        ));
        if starts {
            count += 1;
        }
        i += 1;
    }
    count
}

/// One record of the transcription history.
#[derive(Debug, Clone)]
pub struct TranscriptionEntry {
    /// Unique identifier of the record.
    pub id: String,
    /// Creation time, in milliseconds since the epoch.
    pub timestamp_ms: u64,
    /// File name or media title the audio came from.
    pub source_name: String,
    /// Which path produced the transcription.
    pub source_type: SourceType,
    /// The transcript itself.
    pub transcription: String,
    /// Source characteristics, when known.
    pub audio_info: Option<AudioInfo>,
    /// Wall-clock processing time, in milliseconds.
    pub processing_time_ms: u64,
    /// Whitespace-separated word count of the transcript.
    pub word_count: usize,
    /// Character count of the transcript.
    pub char_count: usize,
    /// Detected language, when detection ran.
    pub detected_language: Option<String>,
}

impl TranscriptionEntry {
    /// Build a history record: the word and character counts are derived
    /// from the transcript; the identifier and creation time come from the
    /// caller, which alone can read the clock.
    pub fn new(
        source_name: String,
        source_type: SourceType,
        transcription: String,
        audio_info: Option<AudioInfo>,
        processing_time_ms: u64,
        detected_language: Option<String>,
        id: String,
        timestamp_ms: u64,
    ) -> (r: TranscriptionEntry)
        requires
            transcription@.len() <= usize::MAX,
        ensures
            r.id == id,
            r.timestamp_ms == timestamp_ms,
            r.source_name == source_name,
            r.source_type == source_type,
            r.transcription == transcription,
            r.audio_info == audio_info,
            r.processing_time_ms == processing_time_ms,
            r.word_count == spec_word_count(transcription@),
            r.char_count == transcription@.len(),
            r.detected_language == detected_language,
    {
        let chars = crate::strutil::chars_of(transcription.as_str());
        let word_count = count_words(&chars);
        let char_count = chars.len();
        TranscriptionEntry {
            id,
            timestamp_ms,
            source_name,
            source_type,
            transcription,
            audio_info,
            processing_time_ms,
            word_count,
            char_count,
            detected_language,
        }
    }
}

/// Description of a remote video, as the retrieval tool reports it.
#[derive(Debug, Clone)]
pub struct VideoInfo {
    /// Title of the video.
    pub title: String,
    /// Duration in seconds.
    pub duration: u64,
    /// Channel or uploader name.
    pub uploader: String,
    /// Thumbnail location, when one is known.
    pub thumbnail_url: Option<String>,
}

/// One notification on the progress channel the orchestrator writes into.
/// Fractions are in permille, so the progress contract can be stated and
/// checked exactly.
#[derive(Debug, Clone)]
pub enum ProgressEvent {
    /// The request started.
    Started { message: String },
    /// The request advanced to this fraction of the work; for a chunked run
    /// the just-completed chunk's text rides along, so a caller can render
    /// the transcript incrementally.
    Progress { permille: u32, message: String, chunk_text: Option<String> },
    /// Chunk `current` of `total` is being processed.
    ChunkProgress { current: u32, total: u32 },
    /// A model download advanced.
    ModelDownload { permille: u32, bytes_downloaded: u64, total_bytes: u64 },
    /// The request finished.
    Completed { message: String },
    /// The request failed.
    Error { message: String },
}

} // verus!
