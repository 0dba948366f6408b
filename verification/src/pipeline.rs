//! The text stages of the dictation pipeline and the hand-over of speech
//! segments from voice activity detection to transcription.
//!
//! Audio capture, voice activity detection, speech recognition and the
//! spoken-punctuation transform run in the binary; this module orders the
//! detected segments and turns recognized text into the text to type.
use vstd::prelude::*;

use crate::capitalization;
use crate::corrections::CorrectionEngine;
use crate::text;

verus! {

/// Audio sample rate of the pipeline (Hz).
pub const SAMPLE_RATE: u32 = 16000;

/// Audio channels of the pipeline (mono).
pub const CHANNELS: u16 = 1;

/// Samples handed to voice activity detection at a time (0.5 s).
pub const VAD_CHUNK_SAMPLES: usize = 8000;

/// Capacity of the audio chunk channel (10 s of 0.5 s chunks).
pub const AUDIO_CHANNEL_CAPACITY: usize = 20;

/// Capacity of the speech segment channel.
pub const SEGMENT_CHANNEL_CAPACITY: usize = 10;

/// Capacity of the transcription result channel.
pub const TRANSCRIPTION_CHANNEL_CAPACITY: usize = 100;

/// What voice activity detection reports for a stretch of audio.
pub enum VadResult<T> {
    /// A completed speech segment with its samples.
    Speech { start_sample: usize, samples: T },
    /// No speech completed.
    Silence,
}

/// The speech payloads among `results`, in order.
pub open spec fn speech_payloads<T>(results: Seq<VadResult<T>>) -> Seq<T>
    decreases results.len(),
{
    if results.len() == 0 {
        seq![]
    } else {
        let rest = speech_payloads(results.drop_last());
        match results.last() {
            VadResult::Speech { samples, .. } => rest.push(samples),
            VadResult::Silence => rest,
        }
    }
}

/// The speech payloads among `results`, in order.
pub fn speech_only<T>(results: Vec<VadResult<T>>) -> (r: Vec<T>)
    ensures
        r@ == speech_payloads(results@),
{
    let ghost rs = results@;
    let mut out: Vec<T> = Vec::new();
    for item in it: results
        invariant
            it.seq() == rs,
            out@ == speech_payloads(rs.take(it.index() as int)),
    {
        proof {
            let i = it.index() as int;
            assert(rs.take(i + 1).drop_last() =~= rs.take(i));
            assert(rs.take(i + 1).last() == item);
        }
        match item {
            VadResult::Speech { samples, .. } => {
                out.push(samples);
            },
            VadResult::Silence => {},
        }
    }
    assert(rs.take(rs.len() as int) =~= rs);
    out
}

/// The speech one detection call produced, oldest first: the segment it
/// returned, then the ones it queued. Both reach transcription.
pub fn payloads_from_call<T>(returned: VadResult<T>, queued: Vec<VadResult<T>>) -> (r: Vec<T>)
    ensures
        r@ == speech_payloads(seq![returned] + queued@),
{
    let ghost q = queued@;
    let mut all: Vec<VadResult<T>> = Vec::new();
    all.push(returned);
    for item in it: queued
        invariant
            it.seq() == q,
            all@ == seq![returned] + q.take(it.index() as int),
    {
        all.push(item);
        assert(all@ =~= seq![returned] + q.take(it.index() + 1));
    }
    assert(q.take(q.len() as int) =~= q);
    speech_only(all)
}

/// Everything the detector still owes once audio stops, oldest first: the
/// queued segments (completed while audio was still arriving) before the
/// flushed tail.
pub fn payloads_at_stop<T>(queued: Vec<VadResult<T>>, flushed: Option<VadResult<T>>) -> (r: Vec<
    T,
>)
    ensures
        r@ == speech_payloads(
            match flushed {
                Some(f) => queued@.push(f),
                None => queued@,
            },
        ),
{
    let mut all = queued;
    match flushed {
        Some(f) => {
            all.push(f);
        },
        None => {},
    }
    speech_only(all)
}

/// Every payload survives, in order: the payloads of a concatenation are
/// the payloads of its parts, concatenated.
pub proof fn lemma_payloads_concat<T>(a: Seq<VadResult<T>>, b: Seq<VadResult<T>>)
    ensures
        speech_payloads(a + b) == speech_payloads(a) + speech_payloads(b),
    decreases b.len(),
{
    if b.len() == 0 {
        assert(a + b =~= a);
        assert(speech_payloads(a) + speech_payloads(b) =~= speech_payloads(a));
    } else {
        lemma_payloads_concat(a, b.drop_last());
        assert((a + b).drop_last() =~= a + b.drop_last());
        assert((a + b).last() == b.last());
        match b.last() {
            VadResult::Speech { samples, .. } => {
                assert(speech_payloads(a) + speech_payloads(b.drop_last()).push(samples)
                    =~= (speech_payloads(a) + speech_payloads(b.drop_last())).push(samples));
            },
            VadResult::Silence => {},
        }
    }
}

/// The text after the stages that precede the spoken-punctuation
/// transform: the 0.6B model's punctuation normalized, then capital
/// commands applied.
pub open spec fn prepared(text: Seq<char>, is_0_6b: bool) -> Seq<char> {
    let t = if is_0_6b {
        capitalization::normalized_0_6b(text::lower_str(text))
    } else {
        text
    };
    text::spaced(capitalization::capital_tokens(text::words(t), 0))
}

/// Prepares recognized text for the spoken-punctuation transform.
pub fn prepare_transcript(text: &str, is_0_6b: bool) -> (r: String)
    ensures
        r@ == prepared(text@, is_0_6b),
{
    if is_0_6b {
        let normalized = capitalization::normalize_0_6b_punctuation(text);
        capitalization::process_capital_commands(normalized.as_str())
    } else {
        capitalization::process_capital_commands(text)
    }
}

/// `text` ending in whitespace, with one space added when it does not, so
/// that consecutive segments stay apart.
pub open spec fn with_trailing_space(text: Seq<char>) -> Seq<char> {
    if text.len() > 0 && text::is_ws(text.last()) {
        text
    } else {
        text + seq![' ']
    }
}

/// Adds the space between speech segments unless the text already ends in
/// whitespace.
pub fn ensure_trailing_space(text: String) -> (r: String)
    ensures
        r@ == with_trailing_space(text@),
{
    let c = text::chars_of(text.as_str());
    if c.len() > 0 && text::is_whitespace(c[c.len() - 1]) {
        proof {
            assert(c@.last() == c@[c@.len() - 1]);
        }
        text
    } else {
        let mut v = c;
        v.push(' ');
        text::string_of(v.as_slice())
    }
}

/// The text typed for a transformed segment: learned corrections (in every
/// mode), then capitalization, then the separating space.
pub open spec fn finished(engine: CorrectionEngine, transformed: Seq<char>) -> Seq<char> {
    with_trailing_space(
        capitalization::capitalized(text::spaced(engine.run(transformed, "all"@).0)),
    )
}

/// Finishes a transformed segment for injection. The corrections matched
/// are recorded in the engine's usage.
pub fn finish_transcript(engine: &mut CorrectionEngine, transformed: &str) -> (r: String)
    requires
        old(engine).halts(transformed@, "all"@),
    ensures
        r@ == finished(*old(engine), transformed@),
        final(engine).usage() == old(engine).usage() + old(engine).run(transformed@, "all"@).1,
        final(engine).exact_phrases() == old(engine).exact_phrases(),
        final(engine).exact_words() == old(engine).exact_words(),
        final(engine).phonetic_phrases() == old(engine).phonetic_phrases(),
        final(engine).phonetic_words() == old(engine).phonetic_words(),
        final(engine).threshold() == old(engine).threshold(),
{
    let corrected = engine.apply(transformed, "all");
    let capitalized = capitalization::apply_capitalization(corrected.as_str());
    ensure_trailing_space(capitalized)
}

/// The text typed for a transformed segment when applying the corrections
/// would never end (a phonetic phrase that covers no word matches): the
/// segment capitalized and spaced, without corrections.
pub open spec fn finished_uncorrected(transformed: Seq<char>) -> Seq<char> {
    with_trailing_space(capitalization::capitalized(transformed))
}

/// Finishes a transformed segment for injection: with the learned
/// corrections when applying them comes to an end (recording the matches in
/// the engine's usage), otherwise capitalized and spaced without them, the
/// engine left as it was. The corrections and the threshold never change.
pub fn finish_segment(engine: &mut CorrectionEngine, transformed: &str) -> (r: String)
    ensures
        old(engine).halts(transformed@, "all"@) ==> r@ == finished(*old(engine), transformed@)
            && final(engine).usage() == old(engine).usage() + old(engine).run(
            transformed@,
            "all"@,
        ).1,
        !old(engine).halts(transformed@, "all"@) ==> r@ == finished_uncorrected(transformed@)
            && final(engine).usage() == old(engine).usage(),
        final(engine).exact_phrases() == old(engine).exact_phrases(),
        final(engine).exact_words() == old(engine).exact_words(),
        final(engine).phonetic_phrases() == old(engine).phonetic_phrases(),
        final(engine).phonetic_words() == old(engine).phonetic_words(),
        final(engine).threshold() == old(engine).threshold(),
{
    if engine.halts_on(transformed, "all") {
        finish_transcript(engine, transformed)
    } else {
        let capitalized = capitalization::apply_capitalization(transformed);
        ensure_trailing_space(capitalized)
    }
}

/// The number of words in a segment's text.
pub fn word_count(text: &str) -> (r: usize)
    ensures
        r == text::words(text@).len(),
{
    let c = text::chars_of(text);
    let w = text::split_whitespace(c.as_slice());
    proof {
        text::lemma_words_are_words(text@);
    }
    w.len()
}

/// Finished text always ends in whitespace, so segments typed one after
/// another never run together.
pub proof fn lemma_finished_ends_in_space(text: Seq<char>)
    ensures
        with_trailing_space(text).len() > 0,
        text::is_ws(with_trailing_space(text).last()),
        text::starts_with(with_trailing_space(text), text),
{
    let r = with_trailing_space(text);
    assert(r.take(text.len() as int) =~= text);
}

} // verus!
