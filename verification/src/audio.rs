//! Sample normalization and chunking.
//!
//! A sample buffer is a `Vec<u32>` holding the 32-bit encodings of the
//! amplitude values, in playback order. Downmixing and resampling are
//! verified structurally: the caller supplies the kernel that combines
//! amplitude encodings (the frame average, the interpolation between two
//! neighbours), and the contracts pin down exactly which inputs each output
//! was produced from.

use vstd::prelude::*;
use crate::strutil::{spec_lower_seq, lower_seq, chars_of};

verus! {

/// Sample rate, in Hz, the recognition engine requires.
pub const WHISPER_SAMPLE_RATE: u32 = 16000;

/// Duration of one chunk, in seconds.
pub const CHUNK_DURATION_SECS: u32 = 60;

/// A buffer longer than this, in seconds, is transcribed chunk by chunk.
pub const LARGE_FILE_THRESHOLD_SECS: u32 = 120;

/// Samples per chunk.
pub open spec fn spec_chunk_samples() -> int {
    CHUNK_DURATION_SECS as int * WHISPER_SAMPLE_RATE as int
}

/// Number of chunks a buffer of `n` samples splits into: `ceil(n / chunk)`.
pub open spec fn spec_chunk_count(n: int) -> int {
    (n + spec_chunk_samples() - 1) / spec_chunk_samples()
}

/// The samples of chunk `i` of a buffer: the `i`-th consecutive slice of one
/// chunk's worth of samples, the last chunk possibly shorter.
pub open spec fn spec_chunk(s: Seq<u32>, i: int) -> Seq<u32> {
    let lo = i * spec_chunk_samples();
    let hi = if lo + spec_chunk_samples() <= s.len() {
        lo + spec_chunk_samples()
    } else {
        s.len() as int
    };
    s.subrange(lo, hi)
}

/// An extension is supported when, lowered to ASCII lower case, it is one of
/// the audio container formats the decoder accepts.
pub open spec fn spec_is_audio_ext(s: Seq<char>) -> bool {
    s == "mp3"@ || s == "wav"@ || s == "m4a"@ || s == "flac"@ || s == "ogg"@
}

/// An extension naming a video container whose audio track must be extracted
/// before decoding.
pub open spec fn spec_is_video_ext(s: Seq<char>) -> bool {
    s == "mp4"@ || s == "avi"@ || s == "mov"@
}

/// Whether two character vectors hold the same characters.
fn eq_chars(a: &Vec<char>, b: &Vec<char>) -> (r: bool)
    ensures
        r == (a@ == b@),
{
    if a.len() != b.len() {
        proof {
            assert(a@.len() != b@.len());
        }
        return false;
    }
    let mut i: usize = 0;
    while i < a.len()
        invariant
            i <= a@.len(),
            a@.len() == b@.len(),
            forall|k: int| 0 <= k < i ==> a@[k] == b@[k],
        decreases a@.len() - i,
    {
        if a[i] != b[i] {
            return false;
        }
        i += 1;
    }
    proof {
        assert(a@ =~= b@);
    }
    true
}

/// Whether a file extension names a format the pipeline can take: an audio
/// format the decoder reads, or a video format whose audio can be extracted.
/// The comparison ignores ASCII case.
pub fn is_supported_format(extension: &str) -> (r: bool)
    ensures
        r == (spec_is_audio_ext(spec_lower_seq(extension@)) || spec_is_video_ext(
            spec_lower_seq(extension@),
        )),
{
    let ext = lower_seq(&chars_of(extension));
    eq_chars(&ext, &chars_of("mp3")) || eq_chars(&ext, &chars_of("wav")) || eq_chars(
        &ext,
        &chars_of("m4a"),
    ) || eq_chars(&ext, &chars_of("flac")) || eq_chars(&ext, &chars_of("ogg")) || eq_chars(
        &ext,
        &chars_of("mp4"),
    ) || eq_chars(&ext, &chars_of("avi")) || eq_chars(&ext, &chars_of("mov"))
}

/// Duration, in whole milliseconds, of `n` samples at the engine rate.
pub open spec fn spec_duration_ms(n: int) -> int {
    n * 1000 / WHISPER_SAMPLE_RATE as int
}

/// Duration of the buffer in whole milliseconds at the engine rate.
pub fn calculate_duration_ms(samples: &Vec<u32>) -> (r: u64)
    requires
        samples@.len() <= usize::MAX,
    ensures
        r == spec_duration_ms(samples@.len() as int),
{
    let n = samples.len();
    let ms = ((n as u128) * 1000) / (WHISPER_SAMPLE_RATE as u128);
    proof {
        assert(n as int * 1000 / 16000 <= n as int) by (nonlinear_arith);
        assert(ms == spec_duration_ms(samples@.len() as int));
    }
    ms as u64
}

/// A buffer needs chunked transcription when it is strictly longer than the
/// large-file threshold.
pub open spec fn spec_needs_chunking(n: int) -> bool {
    n > LARGE_FILE_THRESHOLD_SECS as int * WHISPER_SAMPLE_RATE as int
}

/// Whether the buffer is long enough to require chunked processing.
pub fn needs_chunking(samples: &Vec<u32>) -> (r: bool)
    ensures
        r == spec_needs_chunking(samples@.len() as int),
{
    samples.len() > (LARGE_FILE_THRESHOLD_SECS as usize) * (WHISPER_SAMPLE_RATE as usize)
}

/// When `n` lies in the `k`-th block of `d`, the ceiling of `n / d` is `k`.
proof fn lemma_ceil_div_exact(n: int, d: int, k: int)
    requires
        d > 0,
        k >= 1,
        (k - 1) * d < n <= k * d,
    ensures
        (n + d - 1) / d == k,
{
    let x = n + d - 1;
    assert((k - 1) * d == k * d - d) by (nonlinear_arith);
    assert(0 <= x - k * d < d);
    vstd::arithmetic::div_mod::lemma_fundamental_div_mod_converse(x, d, k, x - k * d);
}

/// Split a buffer into consecutive chunks of one chunk duration each, the
/// last possibly shorter. Chunk `i` is exactly `spec_chunk(samples@, i)`.
pub fn split_into_chunks(samples: &Vec<u32>) -> (r: Vec<Vec<u32>>)
    ensures
        r@.len() == spec_chunk_count(samples@.len() as int),
        forall|i: int| 0 <= i < r@.len() ==> #[trigger] r@[i]@ == spec_chunk(samples@, i),
{
    let chunk_size: usize = (CHUNK_DURATION_SECS as usize) * (WHISPER_SAMPLE_RATE as usize);
    let n = samples.len();
    let mut r: Vec<Vec<u32>> = Vec::new();
    let mut start: usize = 0;
    proof {
        vstd::arithmetic::mul::lemma_mul_basics(spec_chunk_samples());
    }
    while start < n
        invariant
            chunk_size == spec_chunk_samples(),
            n == samples@.len(),
            start <= n,
            (start == r@.len() * spec_chunk_samples()) || (r@.len() >= 1 && start == n && (r@.len()
                - 1) * spec_chunk_samples() < n < r@.len() * spec_chunk_samples()),
            forall|i: int| 0 <= i < r@.len() ==> #[trigger] r@[i]@ == spec_chunk(samples@, i),
        decreases n - start,
    {
        let end = if n - start >= chunk_size {
            start + chunk_size
        } else {
            n
        };
        let mut chunk: Vec<u32> = Vec::new();
        let mut j: usize = start;
        while j < end
            invariant
                start <= j <= end <= n,
                n == samples@.len(),
                chunk@ =~= samples@.subrange(start as int, j as int),
            decreases end - j,
        {
            chunk.push(samples[j]);
            j += 1;
        }
        proof {
            let k = r@.len() as int;
            let cs = spec_chunk_samples();
            assert(start == k * cs);
            assert((k + 1) * cs == k * cs + cs) by (nonlinear_arith);
            assert(chunk@ =~= spec_chunk(samples@, k));
        }
        r.push(chunk);
        start = end;
    }
    proof {
        let k = r@.len() as int;
        let cs = spec_chunk_samples();
        if n == 0 {
            assert(k * cs == 0 ==> k == 0) by (nonlinear_arith)
                requires
                    cs > 0,
                    k >= 0,
            ;
            assert(spec_chunk_count(0) == 0);
        } else if start == k * cs {
            assert((k - 1) * cs == k * cs - cs) by (nonlinear_arith);
            assert(k >= 1) by (nonlinear_arith)
                requires
                    k * cs == n > 0,
                    cs > 0,
                    k >= 0,
            ;
            lemma_ceil_div_exact(n as int, cs, k);
        } else {
            lemma_ceil_div_exact(n as int, cs, k);
        }
    }
    r
}

/// Concatenation of the first `k` chunks of `s`.
pub open spec fn spec_chunks_prefix(s: Seq<u32>, k: int) -> Seq<u32>
    decreases k,
{
    if k <= 0 {
        Seq::<u32>::empty()
    } else {
        spec_chunks_prefix(s, k - 1) + spec_chunk(s, k - 1)
    }
}

/// Chunking is a partition: concatenating all chunks of a buffer, in order,
/// reproduces the buffer exactly.
pub proof fn lemma_chunking_is_partition(s: Seq<u32>)
    ensures
        spec_chunks_prefix(s, spec_chunk_count(s.len() as int)) == s,
{
    let cs = spec_chunk_samples();
    let count = spec_chunk_count(s.len() as int);
    assert(count >= 0 && count * cs >= s.len() && (count - 1) * cs < s.len() || s.len() == 0
        && count == 0) by (nonlinear_arith)
        requires
            cs == 960000,
            count == (s.len() + cs - 1) / cs,
    ;
    lemma_chunks_prefix_covers(s, count);
    assert(spec_chunks_prefix(s, count) =~= s);
}

proof fn lemma_chunks_prefix_covers(s: Seq<u32>, k: int)
    requires
        0 <= k,
        k * spec_chunk_samples() <= s.len() || (k - 1) * spec_chunk_samples() < s.len() <= k
            * spec_chunk_samples(),
    ensures
        spec_chunks_prefix(s, k) == s.subrange(
            0,
            if k * spec_chunk_samples() <= s.len() {
                k * spec_chunk_samples()
            } else {
                s.len() as int
            },
        ),
    decreases k,
{
    let cs = spec_chunk_samples();
    if k == 0 {
        assert(spec_chunks_prefix(s, 0) =~= s.subrange(0, 0));
    } else {
        assert((k - 1) * cs == k * cs - cs) by (nonlinear_arith);
        lemma_chunks_prefix_covers(s, k - 1);
        let hi = if k * cs <= s.len() {
            k * cs
        } else {
            s.len() as int
        };
        assert(spec_chunks_prefix(s, k) =~= s.subrange(0, hi));
    }
}

/// The chunk list a transcription run works through: one chunk holding the
/// whole buffer when it is short, the fixed-duration split when it is longer
/// than the chunking threshold.
pub fn plan_chunks(samples: Vec<u32>) -> (r: Vec<Vec<u32>>)
    ensures
        spec_needs_chunking(samples@.len() as int) ==> (r@.len() == spec_chunk_count(
            samples@.len() as int,
        ) && forall|i: int| 0 <= i < r@.len() ==> #[trigger] r@[i]@ == spec_chunk(samples@, i)),
        !spec_needs_chunking(samples@.len() as int) ==> (r@.len() == 1 && r@[0]@ == samples@),
{
    if needs_chunking(&samples) {
        split_into_chunks(&samples)
    } else {
        let mut r: Vec<Vec<u32>> = Vec::new();
        r.push(samples);
        r
    }
}

/// Samples used for language detection: at most the first 30 seconds.
pub fn detection_samples(samples: &Vec<u32>) -> (r: Vec<u32>)
    ensures
        samples@.len() > 30 * WHISPER_SAMPLE_RATE ==> r@ == samples@.subrange(
            0,
            30 * WHISPER_SAMPLE_RATE as int,
        ),
        samples@.len() <= 30 * WHISPER_SAMPLE_RATE ==> r@ == samples@,
{
    let window: usize = 30 * (WHISPER_SAMPLE_RATE as usize);
    let end = if samples.len() > window {
        window
    } else {
        samples.len()
    };
    let mut r: Vec<u32> = Vec::new();
    let mut i: usize = 0;
    while i < end
        invariant
            i <= end <= samples@.len(),
            r@ =~= samples@.subrange(0, i as int),
        decreases end - i,
    {
        r.push(samples[i]);
        i += 1;
    }
    proof {
        assert(r@ =~= samples@.subrange(0, end as int));
        if samples@.len() <= 30 * WHISPER_SAMPLE_RATE {
            assert(r@ =~= samples@);
        }
    }
    r
}

/// Number of samples a buffer of `n` samples resamples to: the source
/// positions `i * from / to` must stay below `n`.
pub open spec fn spec_resampled_len(n: int, from_rate: int, to_rate: int) -> int {
    n * to_rate / from_rate
}

/// Resample by linear interpolation. Output `i` reads the exact rational
/// source position `i * from_rate / to_rate`: the kernel is applied to the
/// two neighbouring samples with the fractional part `rem / to_rate` as the
/// interpolation weight; at the tail, where no right neighbour exists, the
/// nearest sample is taken unchanged. Equal rates return the buffer as it is.
pub fn resample<F: Fn(u32, u32, u32, u32) -> u32>(
    samples: &Vec<u32>,
    from_rate: u32,
    to_rate: u32,
    lerp: F,
) -> (r: Vec<u32>)
    requires
        from_rate >= 1,
        to_rate >= 1,
        forall|args: (u32, u32, u32, u32)| #[trigger] call_requires(lerp, args),
        spec_resampled_len(samples@.len() as int, from_rate as int, to_rate as int)
            <= usize::MAX as int,
    ensures
        from_rate == to_rate ==> r@ == samples@,
        from_rate != to_rate ==> r@.len() == spec_resampled_len(
            samples@.len() as int,
            from_rate as int,
            to_rate as int,
        ),
        forall|i: int|
            0 <= i < r@.len() && from_rate != to_rate ==> {
                let idx = i * from_rate as int / to_rate as int;
                let rem = (i * from_rate as int) % to_rate as int;
                if idx + 1 < samples@.len() {
                    call_ensures(
                        lerp,
                        (samples@[idx], samples@[idx + 1], rem as u32, to_rate),
                        #[trigger] r@[i],
                    )
                } else {
                    r@[i] == samples@[idx]
                }
            },
{
    if from_rate == to_rate {
        return samples.clone();
    }
    let n = samples.len();
    let ghost nn = n as int;
    let ghost f = from_rate as int;
    let ghost t = to_rate as int;
    proof {
        assert(nn * t < 0x1_0000_0000_0000_0000_0000_0000) by (nonlinear_arith)
            requires
                0 <= nn < 0x1_0000_0000_0000_0000,
                0 <= t < 0x1_0000_0000,
        ;
    }
    let new_len_wide: u128 = ((n as u128) * (to_rate as u128)) / (from_rate as u128);
    proof {
        assert(new_len_wide == spec_resampled_len(nn, f, t));
    }
    let new_len: usize = new_len_wide as usize;
    let mut r: Vec<u32> = Vec::new();
    let mut i: usize = 0;
    while i < new_len
        invariant
            n == samples@.len(),
            nn == n as int,
            f == from_rate as int,
            t == to_rate as int,
            from_rate >= 1,
            to_rate >= 1,
            from_rate != to_rate,
            new_len == spec_resampled_len(nn, f, t),
            i <= new_len,
            r@.len() == i as int,
            forall|args: (u32, u32, u32, u32)| #[trigger] call_requires(lerp, args),
            forall|j: int|
                0 <= j < i ==> {
                    let idx = j * f / t;
                    let rem = (j * f) % t;
                    if idx + 1 < nn {
                        call_ensures(
                            lerp,
                            (samples@[idx], samples@[idx + 1], rem as u32, to_rate),
                            #[trigger] r@[j],
                        )
                    } else {
                        r@[j] == samples@[idx]
                    }
                },
        decreases new_len - i,
    {
        proof {
            assert((i as int) * f < 0x1_0000_0000_0000_0000_0000_0000) by (nonlinear_arith)
                requires
                    0 <= (i as int) < 0x1_0000_0000_0000_0000,
                    0 <= f < 0x1_0000_0000,
            ;
        }
        let pos: u128 = (i as u128) * (from_rate as u128);
        let idx_wide: u128 = pos / (to_rate as u128);
        let rem: u32 = (pos % (to_rate as u128)) as u32;
        proof {
            vstd::arithmetic::div_mod::lemma_mod_division_less_than_divisor(i as int * f, t);
            vstd::arithmetic::div_mod::lemma_fundamental_div_mod(nn * t, f);
            assert((i as int) * f < nn * t) by (nonlinear_arith)
                requires
                    (i as int) < (new_len as int),
                    (new_len as int) * f <= nn * t,
                    f >= 1,
            ;
            vstd::arithmetic::div_mod::lemma_multiply_divide_lt(i as int * f, t, nn);
            assert(pos == (i as int) * f);
            assert(idx_wide == ((i as int) * f) / t);
            assert((idx_wide as int) < nn);
        }
        let idx: usize = idx_wide as usize;
        let val: u32 = if idx + 1 < n {
            lerp(samples[idx], samples[idx + 1], rem, to_rate)
        } else {
            samples[idx]
        };
        r.push(val);
        i += 1;
    }
    r
}

/// Resampling `n` samples from rate `from_rate` to rate `to_rate` yields
/// exactly the floor of `n / (from_rate / to_rate)`: the output length `l`
/// satisfies `l * from_rate <= n * to_rate < (l + 1) * from_rate`, so it is
/// within one sample of any rounding of that ratio.
pub proof fn lemma_resample_output_length(n: int, from_rate: int, to_rate: int)
    requires
        n >= 0,
        from_rate >= 1,
        to_rate >= 1,
    ensures
        spec_resampled_len(n, from_rate, to_rate) * from_rate <= n * to_rate,
        n * to_rate < (spec_resampled_len(n, from_rate, to_rate) + 1) * from_rate,
{
    let l = spec_resampled_len(n, from_rate, to_rate);
    vstd::arithmetic::div_mod::lemma_fundamental_div_mod(n * to_rate, from_rate);
    vstd::arithmetic::div_mod::lemma_mod_division_less_than_divisor(n * to_rate, from_rate);
    assert(n * to_rate >= 0) by (nonlinear_arith)
        requires
            n >= 0,
            to_rate >= 1,
    ;
    assert(l * from_rate == from_rate * l) by (nonlinear_arith);
    assert((l + 1) * from_rate == from_rate * l + from_rate) by (nonlinear_arith);
}

/// One step of the packet-decoding loop, as the decoder driver reports it.
pub enum DecodeEvent {
    /// A packet of the given track decoded to these samples.
    Packet { track_id: u32, samples: Vec<u32> },
    /// A packet was read but failed to decode; it is skipped.
    DecodeFailed { track_id: u32 },
    /// The format signalled that reading must restart; consumption continues.
    ResetRequired,
    /// End of the stream: the normal termination.
    EndOfStream,
    /// Reading failed fatally; decoding stops with what was gathered.
    ReadFailed,
}

/// Accumulates the decoded samples of one track across the packet loop.
///
/// Packets of other tracks and packets that fail to decode are skipped
/// rather than aborting the decode; a reset signal is tolerated; only end of
/// stream or a fatal read failure finishes the accumulation.
pub struct DecodeAccum {
    samples: Vec<u32>,
    track_id: u32,
    finished: bool,
}

impl DecodeAccum {
    /// The samples gathered so far.
    pub closed spec fn spec_samples(&self) -> Seq<u32> {
        self.samples@
    }

    /// Whether a terminal event has been seen.
    pub closed spec fn spec_finished(&self) -> bool {
        self.finished
    }

    /// The track whose packets are kept.
    pub closed spec fn spec_track_id(&self) -> u32 {
        self.track_id
    }

    /// Start accumulating samples of the given track.
    pub fn new(track_id: u32) -> (r: DecodeAccum)
        ensures
            r.spec_samples() == Seq::<u32>::empty(),
            !r.spec_finished(),
            r.spec_track_id() == track_id,
    {
        DecodeAccum { samples: Vec::new(), track_id, finished: false }
    }

    /// Whether decoding should stop.
    pub fn is_finished(&self) -> (r: bool)
        ensures
            r == self.spec_finished(),
    {
        self.finished
    }

    /// Feed one event of the packet loop. Samples of a successfully decoded
    /// packet of the accumulated track are appended; a failed packet, a
    /// packet of another track and a reset signal leave the samples
    /// unchanged; end of stream and a read failure finish the accumulation.
    pub fn on_event(&mut self, ev: DecodeEvent)
        requires
            !old(self).spec_finished(),
        ensures
            final(self).spec_track_id() == old(self).spec_track_id(),
            match ev {
                DecodeEvent::Packet { track_id, samples } => {
                    &&& !final(self).spec_finished()
                    &&& (track_id == old(self).spec_track_id() ==> final(self).spec_samples()
                        == old(self).spec_samples() + samples@)
                    &&& (track_id != old(self).spec_track_id() ==> final(self).spec_samples()
                        == old(self).spec_samples())
                },
                DecodeEvent::DecodeFailed { .. } => !final(self).spec_finished()
                    && final(self).spec_samples() == old(self).spec_samples(),
                DecodeEvent::ResetRequired => !final(self).spec_finished()
                    && final(self).spec_samples() == old(self).spec_samples(),
                DecodeEvent::EndOfStream => final(self).spec_finished()
                    && final(self).spec_samples() == old(self).spec_samples(),
                DecodeEvent::ReadFailed => final(self).spec_finished()
                    && final(self).spec_samples() == old(self).spec_samples(),
            },
    {
        match ev {
            DecodeEvent::Packet { track_id, samples } => {
                if track_id == self.track_id {
                    let mut i: usize = 0;
                    let ghost before = self.samples@;
                    while i < samples.len()
                        invariant
                            i <= samples@.len(),
                            self.samples@ =~= before + samples@.subrange(0, i as int),
                            before == old(self).spec_samples(),
                            self.track_id == old(self).spec_track_id(),
                            self.finished == false,
                        decreases samples@.len() - i,
                    {
                        self.samples.push(samples[i]);
                        i += 1;
                    }
                    proof {
                        assert(self.samples@ =~= before + samples@);
                    }
                }
            },
            DecodeEvent::DecodeFailed { .. } => {},
            DecodeEvent::ResetRequired => {},
            DecodeEvent::EndOfStream => {
                self.finished = true;
            },
            DecodeEvent::ReadFailed => {
                self.finished = true;
            },
        }
    }

    /// Hand over the gathered samples.
    pub fn into_samples(self) -> (r: Vec<u32>)
        ensures
            r@ == self.spec_samples(),
    {
        self.samples
    }
}

/// The interleaved samples forming frame `i`: one sample per channel, the
/// last frame possibly partial.
pub open spec fn spec_frame(s: Seq<u32>, channels: int, i: int) -> Seq<u32> {
    let lo = i * channels;
    let hi = if lo + channels <= s.len() {
        lo + channels
    } else {
        s.len() as int
    };
    s.subrange(lo, hi)
}

/// Number of frames in `n` interleaved samples of `channels` channels.
pub open spec fn spec_frame_count(n: int, channels: int) -> int {
    (n + channels - 1) / channels
}

/// `out` is a possible result of applying the mix kernel to frame `i` of the
/// interleaved buffer `s`.
pub open spec fn mixed_from<F: Fn(Vec<u32>) -> u32>(
    mix: F,
    s: Seq<u32>,
    channels: int,
    i: int,
    out: u32,
) -> bool {
    exists|frame: Vec<u32>|
        frame@ == spec_frame(s, channels, i) && #[trigger] call_ensures(mix, (frame,), out)
}

proof fn lemma_mixed_from_intro<F: Fn(Vec<u32>) -> u32>(
    mix: F,
    s: Seq<u32>,
    channels: int,
    i: int,
    frame: Vec<u32>,
    out: u32,
)
    requires
        frame@ == spec_frame(s, channels, i),
        call_ensures(mix, (frame,), out),
    ensures
        mixed_from(mix, s, channels, i, out),
{
    assert(frame@ == spec_frame(s, channels, i) && call_ensures(mix, (frame,), out));
}

/// Downmix interleaved multi-channel samples to mono: output `i` is the
/// mix kernel applied to frame `i`. With one channel the buffer is returned
/// unchanged. The number of output samples equals the number of frames, so
/// the duration is unchanged.
pub fn downmix<F: Fn(Vec<u32>) -> u32>(samples: &Vec<u32>, channels: usize, mix: F) -> (r: Vec<
    u32,
>)
    requires
        channels >= 1,
        forall|frame: Vec<u32>| #[trigger] call_requires(mix, (frame,)),
    ensures
        channels == 1 ==> r@ == samples@,
        r@.len() == spec_frame_count(samples@.len() as int, channels as int),
        forall|i: int|
            0 <= i < r@.len() && channels > 1 ==> mixed_from(
                mix,
                samples@,
                channels as int,
                i,
                #[trigger] r@[i],
            ),
{
    let n = samples.len();
    if channels == 1 {
        proof {
            assert(spec_frame_count(n as int, 1) == n as int);
        }
        return samples.clone();
    }
    let mut r: Vec<u32> = Vec::new();
    let mut start: usize = 0;
    proof {
        vstd::arithmetic::mul::lemma_mul_basics(channels as int);
    }
    while start < n
        invariant
            channels >= 2,
            n == samples@.len(),
            start <= n,
            (start == r@.len() * channels) || (r@.len() >= 1 && start == n && (r@.len() - 1)
                * channels < n < r@.len() * channels),
            forall|frame: Vec<u32>| #[trigger] call_requires(mix, (frame,)),
            forall|i: int|
                0 <= i < r@.len() ==> mixed_from(mix, samples@, channels as int, i, #[trigger] r@[i]),
        decreases n - start,
    {
        let end = if n - start >= channels {
            start + channels
        } else {
            n
        };
        let mut frame: Vec<u32> = Vec::new();
        let mut j: usize = start;
        while j < end
            invariant
                start <= j <= end <= n,
                n == samples@.len(),
                frame@ =~= samples@.subrange(start as int, j as int),
            decreases end - j,
        {
            frame.push(samples[j]);
            j += 1;
        }
        proof {
            let k = r@.len() as int;
            let ch = channels as int;
            assert(start == k * ch);
            assert((k + 1) * ch == k * ch + ch) by (nonlinear_arith);
            assert(frame@ =~= spec_frame(samples@, ch, k));
        }
        let ghost frame_snap = frame;
        let ghost old_r = r@;
        let ghost k_snap = r@.len() as int;
        let mixed = mix(frame);
        r.push(mixed);
        start = end;
        proof {
            lemma_mixed_from_intro(mix, samples@, channels as int, k_snap, frame_snap, mixed);
            assert forall|i: int| 0 <= i < r@.len() implies mixed_from(
                mix,
                samples@,
                channels as int,
                i,
                #[trigger] r@[i],
            ) by {
                if i < k_snap {
                    assert(r@[i] == old_r[i]);
                } else {
                    assert(r@[i] == mixed);
                }
            }
        }
    }
    proof {
        let k = r@.len() as int;
        let ch = channels as int;
        if n == 0 {
            assert(k * ch == 0 ==> k == 0) by (nonlinear_arith)
                requires
                    ch > 0,
                    k >= 0,
            ;
            vstd::arithmetic::div_mod::lemma_basic_div(ch - 1, ch);
            assert(spec_frame_count(0, ch) == 0);
        } else if start == k * ch {
            assert((k - 1) * ch == k * ch - ch) by (nonlinear_arith);
            assert(k >= 1) by (nonlinear_arith)
                requires
                    k * ch == n > 0,
                    ch > 0,
                    k >= 0,
            ;
            lemma_ceil_div_exact(n as int, ch, k);
        } else {
            lemma_ceil_div_exact(n as int, ch, k);
        }
    }
    r
}

} // verus!
