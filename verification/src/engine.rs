//! Driving the recognition engine: per-chunk segment rendering, the
//! single-slot engine cache, and the per-request session state machine.
//!
//! The engine itself is an outside capability that loads a model and decodes
//! sample buffers; the host shell holds it and performs the calls. Everything
//! decidable — which chunk is next, what each chunk's time offset is, how
//! segments are rendered and stitched, how progress advances — is computed
//! and verified here.

use vstd::prelude::*;
use vstd::string::StringExecFns;
use crate::audio::{plan_chunks, spec_needs_chunking, spec_chunk_count, spec_chunk,
    detection_samples, WHISPER_SAMPLE_RATE, CHUNK_DURATION_SECS};
use crate::config::{WhisperModel, Language};
use crate::error::AudioInkError;
use crate::strutil::{spec_trim, trim, chars_of, string_of};
use crate::timestamps::spec_timestamp;
use crate::transcription::{TranscriptionResult, AudioInfo};

verus! {

/// One text segment the engine reports: its text and its start time in the
/// engine's native 10-millisecond units.
#[derive(Debug, Clone)]
pub struct Segment {
    /// The segment's text.
    pub text: String,
    /// Start time in centiseconds, as the engine reports it.
    pub t0_centis: u64,
}

/// The rendering of one segment: with timestamps, a `[HH:MM:SS]` tag from
/// the segment's start time plus the chunk's offset, the trimmed text and a
/// line break; without, the text exactly as reported.
pub open spec fn spec_segment_piece(seg: Segment, with_ts: bool, offset_ms: int) -> Seq<char> {
    if with_ts {
        seq!['['] + spec_timestamp(seg.t0_centis as int * 10 + offset_ms) + seq![']', ' ']
            + spec_trim(seg.text@) + seq!['\n']
    } else {
        seg.text@
    }
}

/// The concatenated rendering of the first `k` segments.
pub open spec fn spec_render_prefix(segs: Seq<Segment>, k: int, with_ts: bool, offset_ms: int) -> Seq<
    char,
>
    decreases k,
{
    if k <= 0 {
        Seq::<char>::empty()
    } else {
        spec_render_prefix(segs, k - 1, with_ts, offset_ms) + spec_segment_piece(
            segs[k - 1],
            with_ts,
            offset_ms,
        )
    }
}

/// The text one chunk contributes to the transcript: every segment rendered
/// in order, the whole trimmed.
pub open spec fn spec_rendered_segments(segs: Seq<Segment>, with_ts: bool, offset_ms: int) -> Seq<
    char,
> {
    spec_trim(spec_render_prefix(segs, segs.len() as int, with_ts, offset_ms))
}

fn extend_chars(acc: &mut Vec<char>, v: &Vec<char>)
    ensures
        final(acc)@ == old(acc)@ + v@,
{
    let mut i: usize = 0;
    while i < v.len()
        invariant
            i <= v@.len(),
            acc@ =~= old(acc)@ + v@.subrange(0, i as int),
        decreases v@.len() - i,
    {
        acc.push(v[i]);
        i += 1;
    }
    proof {
        assert(acc@ =~= old(acc)@ + v@);
    }
}

/// Render the segments of one chunk into its transcript text. With
/// timestamps every segment becomes `[HH:MM:SS] text` on its own line, the
/// tag computed from the engine-reported start time plus the chunk's time
/// offset; without, the segment texts are concatenated as reported. The
/// result is trimmed.
#[verifier::rlimit(50)]
pub fn render_segments(segments: &Vec<Segment>, include_timestamps: bool, time_offset_ms: u64) -> (r:
    String)
    requires
        time_offset_ms <= 0xFFFF_FFFF_FFFF,
        forall|i: int|
            0 <= i < segments@.len() ==> #[trigger] segments@[i].t0_centis <= 0xFFFF_FFFF_FFFF,
    ensures
        r@ == spec_rendered_segments(segments@, include_timestamps, time_offset_ms as int),
{
    let mut acc: Vec<char> = Vec::new();
    let mut i: usize = 0;
    while i < segments.len()
        invariant
            i <= segments@.len(),
            time_offset_ms <= 0xFFFF_FFFF_FFFF,
            forall|j: int|
                0 <= j < segments@.len() ==> #[trigger] segments@[j].t0_centis <= 0xFFFF_FFFF_FFFF,
            acc@ =~= spec_render_prefix(
                segments@,
                i as int,
                include_timestamps,
                time_offset_ms as int,
            ),
        decreases segments@.len() - i,
    {
        let seg = &segments[i];
        let ghost pre = acc@;
        let ghost piece = spec_segment_piece(
            segments@[i as int],
            include_timestamps,
            time_offset_ms as int,
        );
        if include_timestamps {
            let ms = seg.t0_centis * 10 + time_offset_ms;
            let tag = crate::timestamps::format_timestamp_ms(ms);
            acc.push('[');
            extend_chars(&mut acc, &chars_of(tag.as_str()));
            acc.push(']');
            acc.push(' ');
            extend_chars(&mut acc, &trim(&chars_of(seg.text.as_str())));
            acc.push('\n');
            proof {
                assert(acc@ =~= pre + piece);
            }
        } else {
            extend_chars(&mut acc, &chars_of(seg.text.as_str()));
            proof {
                assert(acc@ =~= pre + piece);
            }
        }
        proof {
            assert(spec_render_prefix(
                segments@,
                i + 1,
                include_timestamps,
                time_offset_ms as int,
            ) == spec_render_prefix(segments@, i as int, include_timestamps, time_offset_ms as int)
                + piece);
            assert(acc@ =~= spec_render_prefix(
                segments@,
                i + 1,
                include_timestamps,
                time_offset_ms as int,
            ));
        }
        i += 1;
    }
    string_of(&trim(&acc))
}

/// A single-slot engine cache, keyed by model identity. At most one engine
/// is resident; a request for the cached identity returns at once; any other
/// identity replaces the slot's contents atomically from the caller's point
/// of view.
pub struct EngineCache<E> {
    slot: Option<(WhisperModel, E)>,
}

/// What one get-or-create step does to the cache, at the level of the model
/// identity: the requested model ends up resident, and a load happens
/// exactly when the resident identity differed.
pub open spec fn spec_cache_step(cached: Option<WhisperModel>, requested: WhisperModel) -> (
    Option<WhisperModel>,
    bool,
) {
    (Some(requested), cached != Some(requested))
}

/// Get-or-create twice with the same identity loads exactly once: the first
/// step loads only when the identity was not already resident, and the
/// second step never loads.
pub proof fn lemma_cache_same_identity_loads_once(cached: Option<WhisperModel>, m: WhisperModel)
    ensures
        !spec_cache_step(spec_cache_step(cached, m).0, m).1,
        spec_cache_step(spec_cache_step(cached, m).0, m).0 == Some(m),
{
}

/// Get-or-create with two different identities in sequence leaves exactly
/// one engine resident, matching the second identity.
pub proof fn lemma_cache_single_slot(cached: Option<WhisperModel>, m1: WhisperModel, m2: WhisperModel)
    ensures
        spec_cache_step(spec_cache_step(cached, m1).0, m2).0 == Some(m2),
        m1 != m2 ==> spec_cache_step(spec_cache_step(cached, m1).0, m2).1,
{
}

/// The engine `c` holds was produced by the loader `load`.
pub open spec fn spec_installed_from<E, F: FnOnce() -> Result<E, AudioInkError>>(
    c: &EngineCache<E>,
    model: WhisperModel,
    load: F,
) -> bool {
    exists|e: E|
        #[trigger] call_ensures(load, (), Result::<E, AudioInkError>::Ok(e)) && c.spec_slot()
            == Some((model, e))
}

impl<E> EngineCache<E> {
    /// The slot's contents.
    pub closed spec fn spec_slot(&self) -> Option<(WhisperModel, E)> {
        self.slot
    }

    /// The identity of the resident engine, if one is resident.
    pub open spec fn spec_model(&self) -> Option<WhisperModel> {
        match self.spec_slot() {
            Some(p) => Some(p.0),
            None => None,
        }
    }

    /// The resident engine, if one is resident.
    pub open spec fn spec_engine(&self) -> Option<E> {
        match self.spec_slot() {
            Some(p) => Some(p.1),
            None => None,
        }
    }

    /// An empty cache: no engine is resident.
    pub fn new() -> (r: EngineCache<E>)
        ensures
            r.spec_slot() is None,
    {
        EngineCache { slot: None }
    }

    /// Whether the given identity is the resident one.
    pub fn is_cached(&self, model: &WhisperModel) -> (r: bool)
        ensures
            r == (self.spec_model() == Some(*model)),
    {
        match &self.slot {
            Some((m, _)) => *m == *model,
            None => false,
        }
    }

    /// Return at once when the requested identity is resident; otherwise run
    /// the loader and let its engine replace the slot's contents. On a hit
    /// and on a failed load the cache is unchanged; on a successful load the
    /// requested identity is resident, exactly as `spec_cache_step` says.
    pub fn get_or_create<F: FnOnce() -> Result<E, AudioInkError>>(
        &mut self,
        model: WhisperModel,
        load: F,
    ) -> (r: Result<(), AudioInkError>)
        requires
            old(self).spec_model() != Some(model) ==> call_requires(load, ()),
        ensures
            old(self).spec_model() == Some(model) ==> r is Ok && final(self).spec_slot() == old(
                self,
            ).spec_slot(),
            r is Ok ==> final(self).spec_model() == spec_cache_step(
                old(self).spec_model(),
                model,
            ).0,
            old(self).spec_model() != Some(model) && r is Ok ==> spec_installed_from(
                final(self),
                model,
                load,
            ),
            r matches Err(e) ==> call_ensures(load, (), Result::<E, AudioInkError>::Err(e))
                && final(self).spec_slot() == old(self).spec_slot(),
    {
        let hit = self.is_cached(&model);
        if hit {
            return Ok(());
        }
        match load() {
            Ok(engine) => {
                let ghost e_snap = engine;
                self.slot = Some((model, engine));
                proof {
                    assert(call_ensures(load, (), Result::<E, AudioInkError>::Ok(e_snap))
                        && self.spec_slot() == Some((model, e_snap)));
                }
                Ok(())
            },
            Err(e) => Err(e),
        }
    }

    /// Borrow the resident engine.
    pub fn engine(&self) -> (r: Option<&E>)
        ensures
            match r {
                Some(e) => self.spec_engine() == Some(*e),
                None => self.spec_engine() is None,
            },
    {
        match &self.slot {
            Some((_, e)) => Some(e),
            None => None,
        }
    }
}

/// Milliseconds of transcript time that precede chunk `i`: the chunk
/// duration times the index, a strictly increasing arithmetic sequence.
pub open spec fn spec_chunk_offset_ms(i: int) -> int {
    i * (CHUNK_DURATION_SECS as int * 1000)
}

/// Chunk time offsets are a strictly increasing arithmetic sequence with a
/// fixed step of one chunk duration.
pub proof fn lemma_chunk_offsets_arithmetic(i: int)
    requires
        i >= 0,
    ensures
        spec_chunk_offset_ms(i + 1) - spec_chunk_offset_ms(i) == CHUNK_DURATION_SECS as int * 1000,
        spec_chunk_offset_ms(i + 1) > spec_chunk_offset_ms(i),
{
    assert((i + 1) * 60000 == i * 60000 + 60000) by (nonlinear_arith);
}

/// Fraction of the work done, in permille.
pub open spec fn spec_progress_permille(done: int, total: int) -> int {
    done * 1000 / total
}

/// Progress is monotone: completing more chunks never reports a smaller
/// fraction, and a finished run reports exactly 1000 permille.
pub proof fn lemma_progress_monotone(done1: int, done2: int, total: int)
    requires
        0 <= done1 <= done2 <= total,
        total >= 1,
    ensures
        spec_progress_permille(done1, total) <= spec_progress_permille(done2, total),
        spec_progress_permille(total, total) == 1000,
        0 <= spec_progress_permille(done1, total) <= 1000,
{
    assert(done1 * 1000 <= done2 * 1000 <= total * 1000) by (nonlinear_arith)
        requires
            0 <= done1 <= done2 <= total,
    ;
    vstd::arithmetic::div_mod::lemma_div_is_ordered(done1 * 1000, done2 * 1000, total);
    vstd::arithmetic::div_mod::lemma_div_is_ordered(done2 * 1000, total * 1000, total);
    vstd::arithmetic::div_mod::lemma_div_multiples_vanish(1000, total);
    vstd::arithmetic::div_mod::lemma_div_pos_is_pos(done1 * 1000, total);
}

/// The transcript parts joined with a separator.
pub open spec fn spec_join(parts: Seq<Seq<char>>, sep: Seq<char>) -> Seq<char>
    decreases parts.len(),
{
    if parts.len() == 0 {
        Seq::<char>::empty()
    } else if parts.len() == 1 {
        parts[0]
    } else {
        spec_join(parts.drop_last(), sep) + sep + parts.last()
    }
}

/// Join transcript parts with a separator.
pub fn join_parts(parts: &Vec<String>, sep: &str) -> (r: String)
    ensures
        r@ == spec_join(parts@.map_values(|p: String| p@), sep@),
{
    let ghost views = parts@.map_values(|p: String| p@);
    let mut r = String::new();
    let mut i: usize = 0;
    while i < parts.len()
        invariant
            i <= parts@.len(),
            views == parts@.map_values(|p: String| p@),
            r@ == spec_join(views.subrange(0, i as int), sep@),
        decreases parts@.len() - i,
    {
        if i > 0 {
            r.append(sep);
        }
        r.append(parts[i].as_str());
        proof {
            let pre = views.subrange(0, i as int);
            let cur = views.subrange(0, i + 1);
            assert(cur.drop_last() =~= pre);
            assert(cur.last() == views[i as int]);
            assert(views[i as int] == parts@[i as int]@);
            if i == 0 {
                assert(r@ =~= spec_join(cur, sep@));
            } else {
                assert(r@ =~= spec_join(cur, sep@));
            }
        }
        i += 1;
    }
    proof {
        assert(views.subrange(0, views.len() as int) =~= views);
    }
    r
}

/// The per-request transcription session, as spelled out by the pipeline's
/// state machine: the chunk list is fixed up front; language detection runs
/// once against the head of the buffer; chunks are transcribed strictly in
/// order, each contributing its rendered text; a failure or cancellation
/// aborts the remaining chunks; assembly joins the parts. The host shell
/// performs the engine calls and feeds the results back in.
pub struct TranscribeSession {
    chunks: Vec<Vec<u32>>,
    include_timestamps: bool,
    language: Language,
    completed: Vec<String>,
    detected_language: Option<String>,
    failed: bool,
    cancelled: bool,
}

impl TranscribeSession {
    /// The session's chunk list.
    pub closed spec fn spec_chunks(&self) -> Seq<Vec<u32>> {
        self.chunks@
    }

    /// The rendered texts of the chunks completed so far, in chunk order.
    pub closed spec fn spec_completed(&self) -> Seq<String> {
        self.completed@
    }

    /// Whether timestamps were requested.
    pub closed spec fn spec_with_timestamps(&self) -> bool {
        self.include_timestamps
    }

    /// The requested language constraint.
    pub closed spec fn spec_language(&self) -> Language {
        self.language
    }

    /// The language detection recorded for this request, if it ran.
    pub closed spec fn spec_detected(&self) -> Option<String> {
        self.detected_language
    }

    /// Whether a stage failure aborted the session.
    pub closed spec fn spec_failed(&self) -> bool {
        self.failed
    }

    /// Whether the session was cancelled at a chunk boundary.
    pub closed spec fn spec_cancelled(&self) -> bool {
        self.cancelled
    }

    /// A session is well formed: at least one chunk, and never more
    /// completed texts than chunks.
    pub open spec fn wf(&self) -> bool {
        1 <= self.spec_chunks().len() && self.spec_completed().len() <= self.spec_chunks().len()
    }

    /// Plan a session over a normalized buffer: one chunk holding the whole
    /// buffer when it is short, the fixed-duration split when it is longer
    /// than the chunking threshold.
    pub fn new(samples: Vec<u32>, language: Language, include_timestamps: bool) -> (r:
        TranscribeSession)
        ensures
            r.wf(),
            r.spec_completed().len() == 0,
            !r.spec_failed(),
            !r.spec_cancelled(),
            r.spec_detected() is None,
            r.spec_with_timestamps() == include_timestamps,
            r.spec_language() == language,
            spec_needs_chunking(samples@.len() as int) ==> (r.spec_chunks().len()
                == spec_chunk_count(samples@.len() as int) && forall|i: int|
                0 <= i < r.spec_chunks().len() ==> #[trigger] r.spec_chunks()[i]@ == spec_chunk(
                    samples@,
                    i,
                )),
            !spec_needs_chunking(samples@.len() as int) ==> (r.spec_chunks().len() == 1
                && r.spec_chunks()[0]@ == samples@),
    {
        let chunks = plan_chunks(samples);
        proof {
            let n = samples@.len() as int;
            if spec_needs_chunking(n) {
                assert(spec_chunk_count(n) >= 1) by {
                    let cs = crate::audio::spec_chunk_samples();
                    assert(n >= 1);
                    vstd::arithmetic::div_mod::lemma_div_pos_is_pos(n + cs - 1, cs);
                    vstd::arithmetic::div_mod::lemma_div_non_zero(n + cs - 1, cs);
                }
            }
        }
        TranscribeSession {
            chunks,
            include_timestamps,
            language,
            completed: Vec::new(),
            detected_language: None,
            failed: false,
            cancelled: false,
        }
    }

    /// How many chunks the session works through.
    pub fn chunk_count(&self) -> (r: usize)
        ensures
            r == self.spec_chunks().len(),
    {
        self.chunks.len()
    }

    /// The index of the next chunk to transcribe.
    pub fn next_chunk_index(&self) -> (r: usize)
        ensures
            r == self.spec_completed().len(),
    {
        self.completed.len()
    }

    /// Whether every chunk has been transcribed.
    pub fn all_chunks_done(&self) -> (r: bool)
        ensures
            r == (self.spec_completed().len() == self.spec_chunks().len()),
    {
        self.completed.len() == self.chunks.len()
    }

    /// Whether the session was aborted by failure or cancellation.
    pub fn is_aborted(&self) -> (r: bool)
        ensures
            r == (self.spec_failed() || self.spec_cancelled()),
    {
        self.failed || self.cancelled
    }

    /// The samples of the next chunk to transcribe.
    pub fn current_chunk(&self) -> (r: &Vec<u32>)
        requires
            self.wf(),
            self.spec_completed().len() < self.spec_chunks().len(),
        ensures
            *r == self.spec_chunks()[self.spec_completed().len() as int],
    {
        &self.chunks[self.completed.len()]
    }

    /// The time offset, in milliseconds, of the next chunk to transcribe:
    /// the duration of all prior chunks.
    pub fn current_offset_ms(&self) -> (r: u64)
        requires
            self.spec_completed().len() <= 0xFFFF_FFFF,
        ensures
            r == spec_chunk_offset_ms(self.spec_completed().len() as int),
    {
        proof {
            assert((self.spec_completed().len() as int) * 60000 <= 0xFFFF_FFFF * 60000int)
                by (nonlinear_arith)
                requires
                    self.spec_completed().len() <= 0xFFFF_FFFF,
            ;
        }
        (self.completed.len() as u64) * ((CHUNK_DURATION_SECS as u64) * 1000)
    }

    /// The samples language detection runs on: at most the first thirty
    /// seconds of the first chunk. Detection runs once per request.
    pub fn detection_input(&self) -> (r: Vec<u32>)
        requires
            self.wf(),
        ensures
            self.spec_chunks()[0]@.len() > 30 * WHISPER_SAMPLE_RATE ==> r@
                == self.spec_chunks()[0]@.subrange(0, 30 * WHISPER_SAMPLE_RATE as int),
            self.spec_chunks()[0]@.len() <= 30 * WHISPER_SAMPLE_RATE ==> r@
                == self.spec_chunks()[0]@,
    {
        detection_samples(&self.chunks[0])
    }

    /// Record the language the engine detected.
    pub fn record_language(&mut self, code: String)
        ensures
            final(self).spec_detected() == Some(code),
            final(self).spec_chunks() == old(self).spec_chunks(),
            final(self).spec_completed() == old(self).spec_completed(),
            final(self).spec_failed() == old(self).spec_failed(),
            final(self).spec_cancelled() == old(self).spec_cancelled(),
            final(self).spec_with_timestamps() == old(self).spec_with_timestamps(),
            final(self).spec_language() == old(self).spec_language(),
    {
        self.detected_language = Some(code);
    }

    /// Record the engine's segments for the current chunk: they are rendered
    /// with the chunk's time offset and appended, advancing the session to
    /// the next chunk. Progress never decreases by this step.
    pub fn record_chunk_segments(&mut self, segments: &Vec<Segment>)
        requires
            old(self).wf(),
            !old(self).spec_failed(),
            !old(self).spec_cancelled(),
            old(self).spec_completed().len() < old(self).spec_chunks().len(),
            old(self).spec_completed().len() <= 0xFFFF_FFFF,
            forall|i: int|
                0 <= i < segments@.len() ==> #[trigger] segments@[i].t0_centis <= 0xFFFF_FFFF_FFFF,
        ensures
            final(self).wf(),
            final(self).spec_chunks() == old(self).spec_chunks(),
            final(self).spec_completed().len() == old(self).spec_completed().len() + 1,
            forall|i: int|
                0 <= i < old(self).spec_completed().len() ==> final(self).spec_completed()[i]
                    == old(self).spec_completed()[i],
            final(self).spec_completed().last()@ == spec_rendered_segments(
                segments@,
                old(self).spec_with_timestamps(),
                spec_chunk_offset_ms(old(self).spec_completed().len() as int),
            ),
            !final(self).spec_failed(),
            !final(self).spec_cancelled(),
            final(self).spec_detected() == old(self).spec_detected(),
            final(self).spec_with_timestamps() == old(self).spec_with_timestamps(),
            final(self).spec_language() == old(self).spec_language(),
    {
        let offset = self.current_offset_ms();
        proof {
            assert(spec_chunk_offset_ms(self.spec_completed().len() as int) <= 0xFFFF_FFFF
                * 60000int) by (nonlinear_arith)
                requires
                    self.spec_completed().len() <= 0xFFFF_FFFF,
            ;
        }
        let text = render_segments(segments, self.include_timestamps, offset);
        self.completed.push(text);
    }

    /// The language the transcription is constrained to.
    pub fn language(&self) -> (r: Language)
        ensures
            r == self.spec_language(),
    {
        self.language
    }

    /// The rendered text of the most recently completed chunk, for
    /// incremental display.
    pub fn last_chunk_text(&self) -> (r: Option<String>)
        ensures
            match r {
                Some(t) => self.spec_completed().len() > 0 && t == self.spec_completed().last(),
                None => self.spec_completed().len() == 0,
            },
    {
        if self.completed.len() > 0 {
            Some(self.completed[self.completed.len() - 1].clone())
        } else {
            None
        }
    }

    /// Abort the session: a stage failed, the remaining chunks are skipped.
    pub fn fail(&mut self)
        ensures
            final(self).spec_failed(),
            final(self).spec_chunks() == old(self).spec_chunks(),
            final(self).spec_completed() == old(self).spec_completed(),
    {
        self.failed = true;
    }

    /// Cancel the session at a chunk boundary: no further chunk is started.
    pub fn cancel(&mut self)
        ensures
            final(self).spec_cancelled(),
            final(self).spec_chunks() == old(self).spec_chunks(),
            final(self).spec_completed() == old(self).spec_completed(),
    {
        self.cancelled = true;
    }

    /// Fraction of the chunks transcribed so far, in permille. By
    /// `lemma_progress_monotone` the reported fractions never decrease over
    /// a session.
    pub fn progress_permille(&self) -> (r: u32)
        requires
            self.wf(),
        ensures
            r == spec_progress_permille(
                self.spec_completed().len() as int,
                self.spec_chunks().len() as int,
            ),
            r <= 1000,
    {
        let done = self.completed.len() as u128;
        let total = self.chunks.len() as u128;
        proof {
            let d = done as int;
            let t = total as int;
            assert(d * 1000 <= t * 1000) by (nonlinear_arith)
                requires
                    0 <= d <= t,
            ;
            vstd::arithmetic::div_mod::lemma_div_is_ordered(d * 1000, t * 1000, t);
            vstd::arithmetic::div_mod::lemma_div_multiples_vanish(1000, t);
            vstd::arithmetic::div_mod::lemma_div_pos_is_pos(d * 1000, t);
        }
        ((done * 1000) / total) as u32
    }

    /// Assemble the final result once every chunk is transcribed: the chunk
    /// texts joined by line breaks when timestamps were requested, by single
    /// spaces otherwise; the language is the detected one, or `unknown` when
    /// detection never resolved.
    pub fn assemble(self, audio_info: Option<AudioInfo>, processing_time_ms: u64) -> (r:
        TranscriptionResult)
        requires
            self.wf(),
            !self.spec_failed(),
            !self.spec_cancelled(),
            self.spec_completed().len() == self.spec_chunks().len(),
        ensures
            r.text@ == spec_join(
                self.spec_completed().map_values(|p: String| p@),
                if self.spec_with_timestamps() {
                    "\n"@
                } else {
                    " "@
                },
            ),
            r.language matches Some(l) && (match self.spec_detected() {
                Some(code) => l@ == code@,
                None => l@ == "unknown"@,
            }),
            r.audio_info == audio_info,
            r.processing_time_ms == processing_time_ms,
    {
        let sep: &str = if self.include_timestamps {
            "\n"
        } else {
            " "
        };
        let text = join_parts(&self.completed, sep);
        let language = match self.detected_language {
            Some(code) => Some(code),
            None => Some(String::from_str("unknown")),
        };
        TranscriptionResult { text, language, audio_info, processing_time_ms }
    }
}

} // verus!
