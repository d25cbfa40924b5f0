use vstd::prelude::*;

use crate::lang::{build_inference_params, spec_initial_prompt, spec_normalize_language};
use crate::manager::{immediate_unload_applied, switch_attempt, TranscriptionManager};
use crate::text::{join_with_space, join_with_space_exec, spec_trim, trim};
use crate::types::{
    ms_of_samples, opt_view, samples_to_ms, settings_wf, EngineOutput, EngineSegment, EngineType,
    FileTranscriptionOptions, InferenceParams, LoadRequest, Segment, Settings,
    TimestampGranularity, TranscribeError, TranscriptionProgress, CHUNK_SAMPLES,
};
use crate::words::{apply_custom_words, spec_apply_custom_words, words_bounded};

verus! {

/// The running state of one chunked transcription: where the next chunk
/// starts, the accumulated time offset, the effective options, the text
/// context carried between chunks, and the segments gathered so far
/// (shifted to audio-global time, not yet post-processed).
#[derive(Debug)]
pub struct TranscriptionSession {
    /// Total samples of the input buffer.
    pub audio_len: usize,
    /// First sample of the next chunk; equals `audio_len` when all input
    /// is consumed.
    pub next_start: usize,
    /// Milliseconds of audio consumed so far: the shift applied to the
    /// next chunk's timestamps.
    pub offset_ms: u64,
    /// Effective language option.
    pub language: String,
    /// Effective translation option.
    pub translate: bool,
    /// The custom-word glossary, snapshotted from settings.
    pub custom_words: Vec<String>,
    /// The word-correction threshold, snapshotted from settings.
    pub threshold: u32,
    /// The previous chunk's raw text, the next chunk's initial prompt.
    pub context_text: String,
    /// Accumulated segments in audio-global time, pre-correction.
    pub acc: Vec<Segment>,
    /// Whether the capability switcher already ran for the current chunk.
    pub switch_tried: bool,
    /// Whether the loop stopped on a cancellation.
    pub was_cancelled: bool,
    /// Whether the loop is over.
    pub done: bool,
}

/// Samples in the chunk starting at `start`: the fixed chunk size, or
/// what remains of the input for the final chunk.
pub open spec fn spec_chunk_len(audio_len: int, start: int) -> int {
    if audio_len - start < CHUNK_SAMPLES {
        audio_len - start
    } else {
        CHUNK_SAMPLES as int
    }
}

/// How many chunks a buffer of `len` samples yields.
pub open spec fn num_chunks(len: int) -> int {
    (len + CHUNK_SAMPLES - 1) / (CHUNK_SAMPLES as int)
}

/// How many chunks the session has consumed.
pub open spec fn chunks_done(s: TranscriptionSession) -> int {
    num_chunks(s.next_start as int)
}

/// Texts of accumulated segments stay under the corrector's machine
/// bound.
pub open spec fn acc_texts_bounded(acc: Seq<Segment>) -> bool {
    forall|i: int| 0 <= i < acc.len() ==> (#[trigger] acc[i]).text@.len() < u32::MAX
}

/// The session invariant: chunks are consumed in order and whole (only
/// the final one may be short), and the time offset is exactly the
/// duration of the consumed samples whenever a further chunk remains.
pub open spec fn session_wf(s: TranscriptionSession) -> bool {
    &&& s.next_start <= s.audio_len
    &&& ((s.next_start as int) % (CHUNK_SAMPLES as int) == 0 || s.next_start == s.audio_len)
    &&& s.offset_ms <= ms_of_samples(s.next_start as int)
    &&& ((s.next_start as int) % (CHUNK_SAMPLES as int) == 0 ==> s.offset_ms == ms_of_samples(
        s.next_start as int,
    ))
    &&& words_bounded(s.custom_words@.map_values(|w: String| w@))
    &&& acc_texts_bounded(s.acc@)
}

/// Monotonic, non-overlapping timestamps: each segment ends no earlier
/// than it starts, and no later than the next one starts.
pub open spec fn seg_monotonic(ss: Seq<Segment>) -> bool {
    &&& forall|i: int| 0 <= i < ss.len() ==> (#[trigger] ss[i]).start <= ss[i].end
    &&& forall|i: int| 0 <= i < ss.len() - 1 ==> (#[trigger] ss[i]).end <= ss[i + 1].start
}

/// The timing invariant the accumulated segments keep: monotonic, and
/// none reaching past the consumed audio.
pub open spec fn timing_ok(s: TranscriptionSession) -> bool {
    &&& seg_monotonic(s.acc@)
    &&& forall|i: int| 0 <= i < s.acc@.len() ==> (#[trigger] s.acc@[i]).end <= s.offset_ms
}

/// The segments of an engine output, empty when the backend gave none.
pub open spec fn out_segs(out: EngineOutput) -> Seq<EngineSegment> {
    match out.segments {
        Option::Some(v) => v@,
        Option::None => Seq::empty(),
    }
}

/// A well-formed chunk output: segment times lie within the chunk and do
/// not overlap.
pub open spec fn wf_engine_output(out: EngineOutput, dur_ms: int) -> bool {
    &&& forall|i: int|
        0 <= i < out_segs(out).len() ==> (#[trigger] out_segs(out)[i]).start <= out_segs(out)[i].end
            && out_segs(out)[i].end <= dur_ms
    &&& forall|i: int|
        0 <= i < out_segs(out).len() - 1 ==> (#[trigger] out_segs(out)[i]).end <= out_segs(
            out,
        )[i + 1].start
}

/// Machine bound on what a backend hands back: texts below `u32::MAX`
/// characters, so the corrector's table fits machine words.
pub open spec fn output_texts_bounded(out: EngineOutput) -> bool {
    &&& out.text@.len() < u32::MAX
    &&& forall|i: int|
        0 <= i < out_segs(out).len() ==> (#[trigger] out_segs(out)[i]).text@.len() < u32::MAX
}

/// What the post-processing makes of a segment's text: the custom-word
/// correction when a glossary is configured, then trimming.
pub open spec fn corrected_text(t: Seq<char>, words: Seq<Seq<char>>, threshold: u32) -> Seq<char> {
    if words.len() > 0 {
        spec_trim(spec_apply_custom_words(t, words, threshold))
    } else {
        spec_trim(t)
    }
}

/// The language a transcription runs under: the caller's override when
/// given, else the settings.
pub open spec fn effective_language(
    settings: Settings,
    options: Option<FileTranscriptionOptions>,
) -> Seq<char> {
    match options {
        Option::Some(o) => match o.language {
            Option::Some(l) => l@,
            Option::None => settings.selected_language@,
        },
        Option::None => settings.selected_language@,
    }
}

/// Whether a transcription translates: the caller's override when given,
/// else the settings.
pub open spec fn effective_translate(
    settings: Settings,
    options: Option<FileTranscriptionOptions>,
) -> bool {
    match options {
        Option::Some(o) => o.translate,
        Option::None => settings.translate_to_english,
    }
}

/// How a transcription starts: empty input finishes on the spot, anything
/// else opens a session.
#[derive(Debug)]
pub enum TranscribeStart {
    Done(String, Vec<Segment>),
    Session(TranscriptionSession),
}

/// One chunk the host is asked to run through the engine.
#[derive(Debug)]
pub struct ChunkRequest {
    /// First sample of the chunk.
    pub start: usize,
    /// Samples in the chunk.
    pub len: usize,
    /// The normalized parameters for the backend call.
    pub params: InferenceParams,
}

/// What the pipeline asks of the host next.
#[derive(Debug)]
pub enum NextStep {
    /// The loop is over: cancelled, input consumed, or already done.
    Finished,
    /// Run this backend load (a capability switch), report it through
    /// `complete_load`, then ask again.
    Switch(LoadRequest),
    /// Run this chunk through the engine and feed the output to
    /// `push_chunk_result`.
    Run(ChunkRequest),
    /// The transcription fails: no engine is resident.
    Abort(TranscribeError),
}

/// One chunk's worth of progress: consuming `len` samples at an aligned
/// position keeps the position aligned (or ends the input), advances the
/// time offset by exactly the chunk's duration, and counts one more
/// chunk.
proof fn lemma_chunk_step(ns: int, len: int, audio_len: int)
    requires
        0 <= ns,
        0 < len,
        ns + len <= audio_len,
        ns % (CHUNK_SAMPLES as int) == 0,
        len == spec_chunk_len(audio_len, ns),
    ensures
        (ns + len) % (CHUNK_SAMPLES as int) == 0 || ns + len == audio_len,
        ms_of_samples(ns) + ms_of_samples(len) == ms_of_samples(ns + len),
        num_chunks(ns + len) == num_chunks(ns) + 1,
{
    let c = CHUNK_SAMPLES as int;
    vstd::arithmetic::div_mod::lemma_fundamental_div_mod(ns, c);
    let q = ns / c;
    assert(ns == c * q);
    assert(q >= 0) by (nonlinear_arith)
        requires
            ns == c * q,
            ns >= 0,
            c == 80000,
    ;
    // the old position is a multiple of 16 as well
    assert(ns == (5000 * q) * 16) by (nonlinear_arith)
        requires
            ns == c * q,
            c == 80000,
    ;
    vstd::arithmetic::div_mod::lemma_mod_multiples_basic(5000 * q, 16);
    assert(ns % 16 == 0);
    // the offset advances by exactly the chunk's duration
    vstd::arithmetic::div_mod::lemma_fundamental_div_mod(len, 16);
    let a = len / 16;
    let b = len % 16;
    vstd::arithmetic::div_mod::lemma_fundamental_div_mod_converse(ns, 16, ns / 16, 0);
    assert(ns + len == (ns / 16 + a) * 16 + b) by (nonlinear_arith)
        requires
            ns == 16 * (ns / 16),
            len == 16 * a + b,
    ;
    vstd::arithmetic::div_mod::lemma_fundamental_div_mod_converse(ns + len, 16, ns / 16 + a, b);
    // one more chunk is counted
    assert(ns + c - 1 == q * c + (c - 1)) by (nonlinear_arith)
        requires
            ns == c * q,
    ;
    vstd::arithmetic::div_mod::lemma_fundamental_div_mod_converse(ns + c - 1, c, q, c - 1);
    if len == c {
        assert(ns + len == (q + 1) * c) by (nonlinear_arith)
            requires
                ns == c * q,
                len == c,
        ;
        vstd::arithmetic::div_mod::lemma_mod_multiples_basic(q + 1, c);
        assert((ns + len) % c == 0);
        assert(ns + len + c - 1 == (q + 1) * c + (c - 1)) by (nonlinear_arith)
            requires
                ns == c * q,
                len == c,
        ;
        vstd::arithmetic::div_mod::lemma_fundamental_div_mod_converse(
            ns + len + c - 1,
            c,
            q + 1,
            c - 1,
        );
    } else {
        assert(ns + len == audio_len);
        assert(0 < len < c);
        assert(ns + len + c - 1 == (q + 1) * c + (len - 1)) by (nonlinear_arith)
            requires
                ns == c * q,
        ;
        vstd::arithmetic::div_mod::lemma_fundamental_div_mod_converse(
            ns + len + c - 1,
            c,
            q + 1,
            len - 1,
        );
    }
}

impl TranscriptionManager {
    /// Begin a transcription of `audio_len` samples. Records activity;
    /// empty input returns `("", [])` at once, applying the immediate
    /// unload policy; without a resident engine the transcription fails;
    /// otherwise a fresh cancellation token is installed and a session
    /// opens with the effective options and an empty accumulator.
    pub fn transcribe(
        &mut self,
        audio_len: usize,
        options: Option<FileTranscriptionOptions>,
        now_ms: u64,
    ) -> (r: Result<TranscribeStart, TranscribeError>)
        requires
            settings_wf(old(self).settings),
        ensures
            audio_len == 0 ==> (r matches Ok(TranscribeStart::Done(text, segs)) && text@.len() == 0
                && segs@.len() == 0) && immediate_unload_applied(
                (TranscriptionManager { last_activity: now_ms, ..*old(self) }),
                *final(self),
            ),
            audio_len > 0 && old(self).engine is None ==> (r matches Err(e) && e
                == TranscribeError::ModelNotLoaded) && *final(self) == (TranscriptionManager {
                last_activity: now_ms,
                ..*old(self)
            }),
            audio_len > 0 && old(self).engine is Some ==> (r matches
                Ok(TranscribeStart::Session(s)) && ({
                &&& s.audio_len == audio_len
                &&& s.next_start == 0
                &&& s.offset_ms == 0
                &&& s.language@ == effective_language(old(self).settings, options)
                &&& s.translate == effective_translate(old(self).settings, options)
                &&& s.custom_words@.map_values(|w: String| w@) == old(
                    self,
                ).settings.custom_words@.map_values(|w: String| w@)
                &&& s.threshold == old(self).settings.word_correction_threshold
                &&& s.context_text@.len() == 0
                &&& s.acc@.len() == 0
                &&& !s.switch_tried
                &&& !s.was_cancelled
                &&& !s.done
                &&& session_wf(s)
                &&& timing_ok(s)
            })) && *final(self) == (TranscriptionManager {
                last_activity: now_ms,
                has_token: true,
                cancel_requested: false,
                ..*old(self)
            }),
    {
        self.last_activity = now_ms;
        if audio_len == 0 {
            self.maybe_unload_immediately();
            let text = String::new();
            let segs: Vec<Segment> = Vec::new();
            return Ok(TranscribeStart::Done(text, segs));
        }
        if self.engine.is_none() {
            return Err(TranscribeError::ModelNotLoaded);
        }
        let language: String;
        let translate: bool;
        match options {
            Some(o) => {
                translate = o.translate;
                match o.language {
                    Some(l) => {
                        language = l;
                    },
                    None => {
                        language = self.settings.selected_language.clone();
                    },
                }
            },
            None => {
                translate = self.settings.translate_to_english;
                language = self.settings.selected_language.clone();
            },
        }
        self.has_token = true;
        self.cancel_requested = false;
        let words = clone_strings(&self.settings.custom_words);
        let s = TranscriptionSession {
            audio_len,
            next_start: 0,
            offset_ms: 0,
            language,
            translate,
            custom_words: words,
            threshold: self.settings.word_correction_threshold,
            context_text: String::new(),
            acc: Vec::new(),
            switch_tried: false,
            was_cancelled: false,
            done: false,
        };
        Ok(TranscribeStart::Session(s))
    }

    /// Decide the next step of the loop: stop on completion or
    /// cancellation (keeping everything already gathered), switch engines
    /// once per chunk when translation needs it, fail without an engine,
    /// and otherwise hand out the next chunk with its normalized backend
    /// parameters.
    pub fn next_chunk(&mut self, s: &mut TranscriptionSession) -> (r: NextStep)
        requires
            session_wf(*old(s)),
            old(self).loading_model_id is None,
        ensures
            session_wf(*final(s)),
            match r {
                NextStep::Finished => {
                    &&& *final(self) == *old(self)
                    &&& final(s).done
                    &&& if old(s).done {
                        *final(s) == *old(s)
                    } else if old(s).next_start == old(s).audio_len {
                        *final(s) == (TranscriptionSession { done: true, ..*old(s) })
                    } else {
                        old(self).cancel_requested && *final(s) == (TranscriptionSession {
                            done: true,
                            was_cancelled: true,
                            ..*old(s)
                        })
                    }
                },
                NextStep::Switch(req) => {
                    &&& !old(s).done && old(s).next_start < old(s).audio_len && !old(
                        self,
                    ).cancel_requested
                    &&& old(s).translate && !old(s).switch_tried && old(self).engine
                        == Option::Some(EngineType::Parakeet)
                    &&& switch_attempt(*old(self), *final(self), Option::Some(req))
                    &&& *final(s) == (TranscriptionSession { switch_tried: true, ..*old(s) })
                },
                NextStep::Abort(e) => {
                    &&& !old(s).done && old(s).next_start < old(s).audio_len && !old(
                        self,
                    ).cancel_requested
                    &&& e == TranscribeError::ModelNotLoaded
                    &&& old(self).engine is None
                    &&& *final(self) == *old(self)
                    &&& *final(s) == (TranscriptionSession { done: true, ..*old(s) })
                },
                NextStep::Run(cr) => {
                    &&& !old(s).done && old(s).next_start < old(s).audio_len && !old(
                        self,
                    ).cancel_requested
                    &&& cr.start == old(s).next_start
                    &&& cr.len == spec_chunk_len(old(s).audio_len as int, old(s).next_start as int)
                    &&& opt_view(cr.params.language) == spec_normalize_language(old(s).language@)
                    &&& cr.params.translate == old(s).translate
                    &&& cr.params.timestamp_granularity == TimestampGranularity::Segment
                    &&& final(self).engine matches Some(eng) && opt_view(cr.params.initial_prompt)
                        == spec_initial_prompt(eng, old(s).context_text@)
                    &&& if old(s).translate && !old(s).switch_tried && old(self).engine
                        == Option::Some(EngineType::Parakeet) {
                        switch_attempt(*old(self), *final(self), Option::None) && *final(s) == (
                        TranscriptionSession { switch_tried: true, ..*old(s) })
                    } else {
                        *final(self) == *old(self) && *final(s) == *old(s)
                    }
                },
            },
    {
        if s.done {
            return NextStep::Finished;
        }
        if s.next_start >= s.audio_len {
            s.done = true;
            return NextStep::Finished;
        }
        if self.cancel_requested {
            s.done = true;
            s.was_cancelled = true;
            return NextStep::Finished;
        }
        if s.translate && !s.switch_tried && matches!(self.engine, Some(EngineType::Parakeet)) {
            s.switch_tried = true;
            match self.ensure_translation_capable_engine() {
                Some(req) => {
                    return NextStep::Switch(req);
                },
                None => {},
            }
        }
        let engine = match self.engine {
            Some(e) => e,
            None => {
                s.done = true;
                return NextStep::Abort(TranscribeError::ModelNotLoaded);
            },
        };
        let len = if s.audio_len - s.next_start < CHUNK_SAMPLES {
            s.audio_len - s.next_start
        } else {
            CHUNK_SAMPLES
        };
        let params = build_inference_params(
            engine,
            s.language.as_str(),
            s.translate,
            s.context_text.as_str(),
        );
        NextStep::Run(ChunkRequest { start: s.next_start, len, params })
    }

    /// Close the transcription: post-process the accumulated segments
    /// (custom words, trimming), join their texts with single spaces into
    /// the full text, and apply the immediate-unload policy.
    pub fn finish_transcription(&mut self, s: &TranscriptionSession) -> (r: (String, Vec<Segment>))
        requires
            session_wf(*s),
        ensures
            r.1@.len() == s.acc@.len(),
            forall|i: int|
                0 <= i < s.acc@.len() ==> (#[trigger] r.1@[i]).start == s.acc@[i].start
                    && r.1@[i].end == s.acc@[i].end && r.1@[i].text@ == corrected_text(
                    s.acc@[i].text@,
                    s.custom_words@.map_values(|w: String| w@),
                    s.threshold,
                ),
            r.0@ == join_with_space(r.1@.map_values(|g: Segment| g.text@)),
            immediate_unload_applied(*old(self), *final(self)),
            timing_ok(*s) ==> seg_monotonic(r.1@),
    {
        let ghost wviews = s.custom_words@.map_values(|w: String| w@);
        proof {
            assert forall|i: int| 0 <= i < s.custom_words@.len() implies #[trigger] s.custom_words@[i]@.len()
                < u32::MAX by {
                assert(wviews[i] == s.custom_words@[i]@);
                assert(wviews[i].len() < u32::MAX);
            }
        }
        let mut final_segments: Vec<Segment> = Vec::new();
        let mut texts: Vec<String> = Vec::new();
        let mut k: usize = 0;
        while k < s.acc.len()
            invariant
                wviews == s.custom_words@.map_values(|w: String| w@),
                forall|i: int|
                    0 <= i < s.custom_words@.len() ==> #[trigger] s.custom_words@[i]@.len()
                        < u32::MAX,
                session_wf(*s),
                0 <= k <= s.acc@.len(),
                final_segments@.len() == k,
                texts@.len() == k,
                forall|i: int|
                    0 <= i < k ==> (#[trigger] final_segments@[i]).start == s.acc@[i].start
                        && final_segments@[i].end == s.acc@[i].end && final_segments@[i].text@
                        == corrected_text(s.acc@[i].text@, wviews, s.threshold),
                forall|i: int| 0 <= i < k ==> #[trigger] texts@[i]@ == final_segments@[i].text@,
            decreases s.acc@.len() - k,
        {
            let g = &s.acc[k];
            let corrected = if s.custom_words.len() > 0 {
                let applied = apply_custom_words(g.text.as_str(), &s.custom_words, s.threshold);
                trim(applied.as_str())
            } else {
                trim(g.text.as_str())
            };
            texts.push(corrected.clone());
            final_segments.push(Segment { start: g.start, end: g.end, text: corrected });
            k += 1;
        }
        let full_text = join_with_space_exec(&texts);
        proof {
            assert(texts@.map_values(|p: String| p@) =~= final_segments@.map_values(
                |g: Segment| g.text@,
            ));
        }
        self.maybe_unload_immediately();
        (full_text, final_segments)
    }
}

/// Copy a list of strings.
fn clone_strings(src: &Vec<String>) -> (r: Vec<String>)
    ensures
        r@.map_values(|w: String| w@) == src@.map_values(|w: String| w@),
{
    let mut r: Vec<String> = Vec::new();
    let mut k: usize = 0;
    while k < src.len()
        invariant
            0 <= k <= src@.len(),
            r@.len() == k,
            forall|i: int| 0 <= i < k ==> #[trigger] r@[i]@ == src@[i]@,
        decreases src@.len() - k,
    {
        r.push(src[k].clone());
        k += 1;
    }
    proof {
        assert(r@.map_values(|w: String| w@) =~= src@.map_values(|w: String| w@));
    }
    r
}

/// Saturating addition, for shifting backend timestamps that no contract
/// bounds.
fn sat_add_u64(a: u64, b: u64) -> (r: u64)
    ensures
        r == spec_sat_add(a, b),
{
    if a > u64::MAX - b {
        u64::MAX
    } else {
        a + b
    }
}

pub open spec fn spec_sat_add(a: u64, b: u64) -> u64 {
    if a + b > u64::MAX {
        u64::MAX
    } else {
        (a + b) as u64
    }
}

impl TranscriptionSession {
    /// Consume one chunk's engine output: shift its segments to
    /// audio-global time and accumulate them, post-process a copy into
    /// the progress batch, advance the offset by the chunk's duration,
    /// and carry the chunk's raw text as the next context. A chunk with
    /// no segments but non-blank text contributes one synthetic segment
    /// spanning the chunk's window to the batch only. Returns the
    /// progress event to emit, when the batch is non-empty.
    #[verifier::rlimit(100)]
    #[verifier::spinoff_prover]
    pub fn push_chunk_result(&mut self, out: EngineOutput) -> (progress: Option<
        TranscriptionProgress,
    >)
        requires
            session_wf(*old(self)),
            !old(self).done,
            old(self).next_start < old(self).audio_len,
            output_texts_bounded(out),
        ensures
            session_wf(*final(self)),
            ({
                let chunk = spec_chunk_len(
                    old(self).audio_len as int,
                    old(self).next_start as int,
                );
                let dur = ms_of_samples(chunk);
                let off = old(self).offset_ms;
                let segs = out_segs(out);
                let wviews = old(self).custom_words@.map_values(|w: String| w@);
                &&& final(self).audio_len == old(self).audio_len
                &&& final(self).language == old(self).language
                &&& final(self).translate == old(self).translate
                &&& final(self).custom_words == old(self).custom_words
                &&& final(self).threshold == old(self).threshold
                &&& final(self).done == old(self).done
                &&& final(self).was_cancelled == old(self).was_cancelled
                &&& !final(self).switch_tried
                &&& final(self).next_start == old(self).next_start + chunk
                &&& final(self).offset_ms == off + dur
                &&& chunks_done(*final(self)) == chunks_done(*old(self)) + 1
                &&& (segs.len() > 0 ==> {
                    &&& final(self).acc@.len() == old(self).acc@.len() + segs.len()
                    &&& final(self).acc@.subrange(0, old(self).acc@.len() as int) == old(
                        self,
                    ).acc@
                    &&& forall|i: int|
                        0 <= i < segs.len() ==> {
                            let a = #[trigger] final(self).acc@[old(self).acc@.len() + i];
                            &&& a.start == spec_sat_add(segs[i].start, off)
                            &&& a.end == spec_sat_add(segs[i].end, off)
                            &&& a.text@ == segs[i].text@
                        }
                    &&& final(self).context_text@ == join_with_space(
                        segs.map_values(|g: EngineSegment| g.text@),
                    )
                    &&& progress matches Some(p) && p.is_partial && p.segments@.len() == segs.len()
                        && forall|i: int|
                        0 <= i < segs.len() ==> {
                            let b = #[trigger] p.segments@[i];
                            &&& b.start == spec_sat_add(segs[i].start, off)
                            &&& b.end == spec_sat_add(segs[i].end, off)
                            &&& b.text@ == corrected_text(
                                segs[i].text@,
                                wviews,
                                old(self).threshold,
                            )
                        }
                })
                &&& (segs.len() == 0 ==> {
                    &&& final(self).acc == old(self).acc
                    &&& final(self).context_text@ == spec_trim(out.text@)
                    &&& (spec_trim(out.text@).len() > 0 ==> (progress matches Some(p) && ({
                        &&& p.is_partial
                        &&& p.segments@.len() == 1
                        &&& p.segments@[0].start == off
                        &&& p.segments@[0].end == off + dur
                        &&& p.segments@[0].text@ == spec_trim(out.text@)
                    })))
                    &&& (spec_trim(out.text@).len() == 0 ==> progress is None)
                })
                &&& ((timing_ok(*old(self)) && wf_engine_output(out, dur)) ==> {
                    &&& timing_ok(*final(self))
                    &&& (progress matches Some(p) ==> seg_monotonic(p.segments@) && forall|i: int|
                        0 <= i < p.segments@.len() ==> off <= (#[trigger] p.segments@[i]).start
                            && p.segments@[i].end <= final(self).offset_ms)
                })
            }),
    {
        let len = if self.audio_len - self.next_start < CHUNK_SAMPLES {
            self.audio_len - self.next_start
        } else {
            CHUNK_SAMPLES
        };
        let dur = samples_to_ms(len);
        let off = self.offset_ms;
        proof {
            assert((old(self).next_start as int) % (CHUNK_SAMPLES as int) == 0);
            lemma_chunk_step(self.next_start as int, len as int, self.audio_len as int);
            assert(self.offset_ms + dur == ms_of_samples((self.next_start + len) as int));
            assert(ms_of_samples((self.next_start + len) as int) <= usize::MAX / 16);
        }
        let ghost old_acc = self.acc@;
        let segs: Vec<EngineSegment> = match out.segments {
            Some(v) => v,
            None => Vec::new(),
        };
        proof {
            assert(out_segs(out) =~= segs@);
        }
        let mut progress: Option<TranscriptionProgress> = None;
        let ghost mut batch_view: Seq<Segment> = Seq::empty();
        if segs.len() > 0 {
            let batch = self.shift_and_collect(&segs, off);
            proof {
                batch_view = batch@;
            }
            progress = Some(TranscriptionProgress { segments: batch, is_partial: true });
        } else {
            let t = trim(out.text.as_str());
            self.context_text = t.clone();
            if !t.as_str().is_empty() {
                let mut batch: Vec<Segment> = Vec::new();
                batch.push(Segment { start: off, end: off + dur, text: t });
                proof {
                    batch_view = batch@;
                }
                progress = Some(TranscriptionProgress { segments: batch, is_partial: true });
            }
        }
        self.next_start = self.next_start + len;
        self.offset_ms = self.offset_ms + dur;
        self.switch_tried = false;
        proof {
            if timing_ok(*old(self)) && wf_engine_output(out, dur as int) {
                if segs@.len() > 0 {
                    lemma_shift_keeps_timing(old_acc, self.acc@, segs@, off, dur as int);
                    assert(batch_view.subrange(0, 0) =~= Seq::<Segment>::empty());
                    lemma_shift_keeps_timing(
                        Seq::empty(),
                        batch_view,
                        segs@,
                        off,
                        dur as int,
                    );
                }
            }
        }
        progress
    }

    /// A backend failure aborts the whole transcription: the loop is
    /// over, what was already gathered stays valid, and the failure
    /// surfaces as an inference error.
    pub fn fail_inference(&mut self, message: String) -> (e: TranscribeError)
        ensures
            *final(self) == (TranscriptionSession { done: true, ..*old(self) }),
            e matches TranscribeError::InferenceError(m) && m@ == message@,
    {
        self.done = true;
        TranscribeError::InferenceError(message)
    }

    /// Shift one chunk's segments by the chunk's offset: accumulate the
    /// raw shifted segments, build the post-processed progress batch, and
    /// carry the chunk's raw text as the next context.
    fn shift_and_collect(&mut self, segs: &Vec<EngineSegment>, off: u64) -> (batch: Vec<Segment>)
        requires
            segs@.len() > 0,
            words_bounded(old(self).custom_words@.map_values(|w: String| w@)),
            acc_texts_bounded(old(self).acc@),
            forall|i: int| 0 <= i < segs@.len() ==> (#[trigger] segs@[i]).text@.len() < u32::MAX,
        ensures
            *final(self) == (TranscriptionSession {
                acc: final(self).acc,
                context_text: final(self).context_text,
                ..*old(self)
            }),
            final(self).acc@.len() == old(self).acc@.len() + segs@.len(),
            final(self).acc@.subrange(0, old(self).acc@.len() as int) == old(self).acc@,
            forall|i: int|
                0 <= i < segs@.len() ==> {
                    let a = #[trigger] final(self).acc@[old(self).acc@.len() + i];
                    &&& a.start == spec_sat_add(segs@[i].start, off)
                    &&& a.end == spec_sat_add(segs@[i].end, off)
                    &&& a.text@ == segs@[i].text@
                },
            final(self).context_text@ == join_with_space(
                segs@.map_values(|g: EngineSegment| g.text@),
            ),
            acc_texts_bounded(final(self).acc@),
            batch@.len() == segs@.len(),
            forall|i: int|
                0 <= i < segs@.len() ==> {
                    let b = #[trigger] batch@[i];
                    &&& b.start == spec_sat_add(segs@[i].start, off)
                    &&& b.end == spec_sat_add(segs@[i].end, off)
                    &&& b.text@ == corrected_text(
                        segs@[i].text@,
                        old(self).custom_words@.map_values(|w: String| w@),
                        old(self).threshold,
                    )
                },
    {
        let ghost wviews = self.custom_words@.map_values(|w: String| w@);
        let ghost old_acc = self.acc@;
        proof {
            assert forall|i: int| 0 <= i < self.custom_words@.len() implies #[trigger] self.custom_words@[i]@.len()
                < u32::MAX by {
                assert(wviews[i] == self.custom_words@[i]@);
                assert(wviews[i].len() < u32::MAX);
            }
        }
        let mut batch: Vec<Segment> = Vec::new();
        let mut raw_texts: Vec<String> = Vec::new();
        let mut k: usize = 0;
        while k < segs.len()
            invariant
                wviews == self.custom_words@.map_values(|w: String| w@),
                forall|i: int|
                    0 <= i < self.custom_words@.len() ==> #[trigger] self.custom_words@[i]@.len()
                        < u32::MAX,
                forall|i: int|
                    0 <= i < segs@.len() ==> (#[trigger] segs@[i]).text@.len() < u32::MAX,
                0 <= k <= segs@.len(),
                *self == (TranscriptionSession {
                    acc: self.acc,
                    context_text: self.context_text,
                    ..*old(self)
                }),
                self.context_text == old(self).context_text,
                batch@.len() == k,
                raw_texts@.len() == k,
                self.acc@.len() == old_acc.len() + k,
                self.acc@.subrange(0, old_acc.len() as int) == old_acc,
                forall|i: int|
                    0 <= i < k ==> {
                        let a = #[trigger] self.acc@[old_acc.len() + i];
                        &&& a.start == spec_sat_add(segs@[i].start, off)
                        &&& a.end == spec_sat_add(segs@[i].end, off)
                        &&& a.text@ == segs@[i].text@
                    },
                forall|i: int|
                    0 <= i < k ==> {
                        let b = #[trigger] batch@[i];
                        &&& b.start == spec_sat_add(segs@[i].start, off)
                        &&& b.end == spec_sat_add(segs@[i].end, off)
                        &&& b.text@ == corrected_text(segs@[i].text@, wviews, self.threshold)
                    },
                forall|i: int| 0 <= i < k ==> #[trigger] raw_texts@[i]@ == segs@[i].text@,
            decreases segs@.len() - k,
        {
            let g = &segs[k];
            let ns = sat_add_u64(g.start, off);
            let ne = sat_add_u64(g.end, off);
            self.acc.push(Segment { start: ns, end: ne, text: g.text.clone() });
            proof {
                assert(self.acc@.subrange(0, old_acc.len() as int) =~= old_acc);
            }
            let corrected = if self.custom_words.len() > 0 {
                let applied = apply_custom_words(g.text.as_str(), &self.custom_words, self.threshold);
                trim(applied.as_str())
            } else {
                trim(g.text.as_str())
            };
            batch.push(Segment { start: ns, end: ne, text: corrected });
            raw_texts.push(g.text.clone());
            k += 1;
        }
        self.context_text = join_with_space_exec(&raw_texts);
        proof {
            assert(raw_texts@.map_values(|p: String| p@) =~= segs@.map_values(
                |g: EngineSegment| g.text@,
            ));
            let old_len = old_acc.len() as int;
            assert forall|i: int| 0 <= i < self.acc@.len() implies (#[trigger] self.acc@[i]).text@.len()
                < u32::MAX by {
                if i < old_len {
                    assert(self.acc@.subrange(0, old_len)[i] == self.acc@[i]);
                    assert(self.acc@[i] == old_acc[i]);
                } else {
                    let j = i - old_len;
                    assert(self.acc@[old_len + j].text@ == segs@[j].text@);
                }
            }
        }
        batch
    }
}

/// Shifting a chunk's well-formed segments by the consumed duration keeps
/// the accumulated timestamps monotonic and inside the consumed audio.
proof fn lemma_shift_keeps_timing(
    old_acc: Seq<Segment>,
    new_acc: Seq<Segment>,
    segs: Seq<EngineSegment>,
    off: u64,
    dur: int,
)
    requires
        0 <= dur,
        off + dur <= u64::MAX,
        new_acc.len() == old_acc.len() + segs.len(),
        new_acc.subrange(0, old_acc.len() as int) == old_acc,
        forall|i: int|
            0 <= i < segs.len() ==> {
                let a = #[trigger] new_acc[old_acc.len() + i];
                &&& a.start == spec_sat_add(segs[i].start, off)
                &&& a.end == spec_sat_add(segs[i].end, off)
            },
        seg_monotonic(old_acc),
        forall|i: int| 0 <= i < old_acc.len() ==> (#[trigger] old_acc[i]).end <= off,
        forall|i: int|
            0 <= i < segs.len() ==> (#[trigger] segs[i]).start <= segs[i].end && segs[i].end
                <= dur,
        forall|i: int| 0 <= i < segs.len() - 1 ==> (#[trigger] segs[i]).end <= segs[i + 1].start,
    ensures
        seg_monotonic(new_acc),
        forall|i: int| 0 <= i < new_acc.len() ==> (#[trigger] new_acc[i]).end <= off + dur,
        forall|i: int| old_acc.len() <= i < new_acc.len() ==> off <= (#[trigger] new_acc[i]).start,
{
    let old_len = old_acc.len() as int;
    assert forall|i: int| 0 <= i < segs.len() implies spec_sat_add(segs[i].start, off) == segs[i].start
        + off && spec_sat_add(segs[i].end, off) == segs[i].end + off by {
        assert(segs[i].start <= segs[i].end <= dur);
    }
    assert forall|i: int| 0 <= i < new_acc.len() implies (#[trigger] new_acc[i]).start
        <= new_acc[i].end && new_acc[i].end <= off + dur && (i >= old_len ==> off
        <= new_acc[i].start) by {
        if i < old_len {
            assert(new_acc.subrange(0, old_len)[i] == new_acc[i]);
            assert(new_acc[i] == old_acc[i]);
        } else {
            let j = i - old_len;
            assert(new_acc[old_len + j].start == spec_sat_add(segs[j].start, off));
            assert(new_acc[old_len + j].end == spec_sat_add(segs[j].end, off));
            assert(segs[j].start <= segs[j].end <= dur);
        }
    }
    assert forall|i: int| 0 <= i < new_acc.len() - 1 implies (#[trigger] new_acc[i]).end <= new_acc[i
        + 1].start by {
        if i < old_len - 1 {
            assert(new_acc.subrange(0, old_len)[i] == new_acc[i]);
            assert(new_acc.subrange(0, old_len)[i + 1] == new_acc[i + 1]);
        } else if i == old_len - 1 {
            assert(new_acc.subrange(0, old_len)[i] == new_acc[i]);
            assert(new_acc[i] == old_acc[i]);
            assert(old_acc[i].end <= off);
            assert(new_acc[old_len + 0].start == spec_sat_add(segs[0].start, off));
        } else {
            let j = i - old_len;
            assert(new_acc[old_len + j].end == spec_sat_add(segs[j].end, off));
            assert(new_acc[old_len + (j + 1)].start == spec_sat_add(segs[j + 1].start, off));
            assert(segs[j].end <= segs[j + 1].start);
        }
    }
}

/// The shift applied to the next chunk's timestamps equals the exact
/// duration of every sample consumed before it: for chunk k+1, the sum of
/// the first k chunks' sample counts over the sample rate.
pub proof fn lemma_offset_is_consumed_duration(s: TranscriptionSession)
    requires
        session_wf(s),
        s.next_start < s.audio_len,
    ensures
        s.offset_ms == ms_of_samples(s.next_start as int),
{
}

/// A buffer of exactly N whole chunks yields exactly N chunks.
pub proof fn lemma_exact_chunks(n: nat)
    requires
        n * CHUNK_SAMPLES <= usize::MAX,
    ensures
        num_chunks((n * CHUNK_SAMPLES) as int) == n,
{
    let c = CHUNK_SAMPLES as int;
    assert(num_chunks(n * c) == (n * c + c - 1) / c);
    assert((n * c + c - 1) / c == n) by (nonlinear_arith)
        requires
            c == 80000,
            n >= 0,
    ;
}

/// A non-empty buffer shorter than one chunk yields exactly one chunk, so
/// at most one progress event.
pub proof fn lemma_single_chunk(len: int)
    requires
        0 < len < CHUNK_SAMPLES,
    ensures
        num_chunks(len) == 1,
{
    let c = CHUNK_SAMPLES as int;
    assert(c <= len + c - 1 < 2 * c);
    assert((len + c - 1) / c == 1) by (nonlinear_arith)
        requires
            c == 80000,
            c <= len + c - 1 < 2 * c,
    ;
}

} // verus!
