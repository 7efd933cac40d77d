//! When audio was sent to a transcription, and where the time to its final transcript went.
use vstd::prelude::*;

use crate::time::{millis_since, MAX_MILLIS};
use crate::voice::SttTimingBreakdown;

verus! {

/// A piece of audio that was sent.
#[derive(Debug, Clone, Copy)]
struct SentAudioSample {
    sent_at: std::time::Instant,
    audio_elapsed_ms: u128,
}

/// When the end of a transcription was asked for.
#[derive(Debug, Clone, Copy)]
struct FinalizeSent {
    sent_at: std::time::Instant,
    sent_ms: u128,
}

/// When what was sent to a transcription.
#[derive(Debug)]
pub struct SentAudioTiming {
    first: Option<u128>,
    latest: Option<SentAudioSample>,
    deepgram_connect_ms: Option<u128>,
    first_interim_ms: Option<u128>,
    audio_input_ended_ms: Option<u128>,
    finalize: Option<FinalizeSent>,
    speech_audio_ms: u128,
    total_silence_ms: u128,
    trailing_silence_ms: u128,
}

/// The end of the first and of the latest piece of audio that was sent, the points on the clock at
/// which the latest one was sent and the end was asked for, and the times that are known.
#[verifier::ext_equal]
pub struct SentTimingView {
    pub first: Option<u128>,
    pub latest: Option<u128>,
    pub latest_sent_at: Option<std::time::Instant>,
    pub deepgram_connect_ms: Option<u128>,
    pub first_interim_ms: Option<u128>,
    pub audio_input_ended_ms: Option<u128>,
    pub finalize_sent_ms: Option<u128>,
    pub finalize_sent_at: Option<std::time::Instant>,
    pub speech_audio_ms: u128,
    pub total_silence_ms: u128,
    pub trailing_silence_ms: u128,
}

impl View for SentAudioTiming {
    type V = SentTimingView;

    closed spec fn view(&self) -> SentTimingView {
        SentTimingView {
            first: self.first,
            latest: match self.latest {
                Some(sample) => Some(sample.audio_elapsed_ms),
                None => None,
            },
            latest_sent_at: match self.latest {
                Some(sample) => Some(sample.sent_at),
                None => None,
            },
            deepgram_connect_ms: self.deepgram_connect_ms,
            first_interim_ms: self.first_interim_ms,
            audio_input_ended_ms: self.audio_input_ended_ms,
            finalize_sent_ms: match self.finalize {
                Some(finalize) => Some(finalize.sent_ms),
                None => None,
            },
            finalize_sent_at: match self.finalize {
                Some(finalize) => Some(finalize.sent_at),
                None => None,
            },
            speech_audio_ms: self.speech_audio_ms,
            total_silence_ms: self.total_silence_ms,
            trailing_silence_ms: self.trailing_silence_ms,
        }
    }
}

impl SentTimingView {
    /// Nothing sent yet.
    pub open spec fn empty() -> SentTimingView {
        SentTimingView {
            first: None,
            latest: None,
            latest_sent_at: None,
            deepgram_connect_ms: None,
            first_interim_ms: None,
            audio_input_ended_ms: None,
            finalize_sent_ms: None,
            finalize_sent_at: None,
            speech_audio_ms: 0,
            total_silence_ms: 0,
            trailing_silence_ms: 0,
        }
    }

    /// How much longer the audio is with a piece that ends at `audio_elapsed_ms`.
    pub open spec fn gap(self, audio_elapsed_ms: u128) -> int {
        let before = match self.latest {
            Some(end) => end,
            None => 0,
        };
        if audio_elapsed_ms > before {
            audio_elapsed_ms - before
        } else {
            0
        }
    }

    /// Whether the times still fit with a piece that ends at `audio_elapsed_ms`.
    pub open spec fn fits(self, audio_elapsed_ms: u128) -> bool {
        let gap = self.gap(audio_elapsed_ms);
        &&& self.speech_audio_ms + gap <= u128::MAX
        &&& self.total_silence_ms + gap <= u128::MAX
        &&& self.trailing_silence_ms + gap <= u128::MAX
    }

    /// After a piece that was sent at `sent_at` and ends at `audio_elapsed_ms`: speech ends the
    /// silence before it, and silence grows.
    pub open spec fn sent(
        self,
        sent_at: std::time::Instant,
        audio_elapsed_ms: u128,
        is_speech: Option<bool>,
    ) -> SentTimingView {
        let gap = self.gap(audio_elapsed_ms);
        SentTimingView {
            first: if self.first is Some {
                self.first
            } else {
                Some(audio_elapsed_ms)
            },
            latest: Some(audio_elapsed_ms),
            latest_sent_at: Some(sent_at),
            speech_audio_ms: if is_speech == Some(true) {
                (self.speech_audio_ms + gap) as u128
            } else {
                self.speech_audio_ms
            },
            total_silence_ms: if is_speech == Some(false) {
                (self.total_silence_ms + gap) as u128
            } else {
                self.total_silence_ms
            },
            trailing_silence_ms: match is_speech {
                Some(true) => 0,
                Some(false) => (self.trailing_silence_ms + gap) as u128,
                None => self.trailing_silence_ms,
            },
            ..self
        }
    }

    /// Where the time to a final transcript went.
    pub open spec fn breakdown(
        self,
        final_emitted_ms: u128,
        since_finalize_ms: Option<u128>,
    ) -> SttTimingBreakdown {
        SttTimingBreakdown {
            speech_audio_ms: self.speech_audio_ms,
            vad_silence_ms: self.trailing_silence_ms,
            total_silence_ms: self.total_silence_ms,
            audio_duration_ms: match self.latest {
                Some(end) => end,
                None => 0,
            },
            deepgram_connect_ms: self.deepgram_connect_ms,
            first_interim_ms: self.first_interim_ms,
            finalize_to_final_ms: since_finalize_ms,
            final_emitted_ms,
        }
    }
}

impl SentAudioTiming {
    pub fn new() -> (timing: SentAudioTiming)
        ensures
            timing@ == SentTimingView::empty(),
    {
        SentAudioTiming {
            first: None,
            latest: None,
            deepgram_connect_ms: None,
            first_interim_ms: None,
            audio_input_ended_ms: None,
            finalize: None,
            speech_audio_ms: 0,
            total_silence_ms: 0,
            trailing_silence_ms: 0,
        }
    }

    /// Whether the times still fit with a piece of audio that ends at `audio_elapsed_ms`.
    pub fn can_record(&self, audio_elapsed_ms: u128) -> (fits: bool)
        ensures
            fits == self@.fits(audio_elapsed_ms),
    {
        let before: u128 = match self.latest {
            Some(latest) => latest.audio_elapsed_ms,
            None => 0,
        };
        let gap: u128 = audio_elapsed_ms.saturating_sub(before);
        self.speech_audio_ms.checked_add(gap).is_some() && self.total_silence_ms.checked_add(
            gap,
        ).is_some() && self.trailing_silence_ms.checked_add(gap).is_some()
    }

    /// Records a piece of audio that was sent at `sent_at`; tells whether it was the first one.
    pub fn record_sent_audio(
        &mut self,
        sent_at: std::time::Instant,
        audio_elapsed_ms: u128,
        is_speech: Option<bool>,
    ) -> (first: bool)
        requires
            old(self)@.fits(audio_elapsed_ms),
        ensures
            first == (old(self)@.first is None),
            final(self)@ == old(self)@.sent(sent_at, audio_elapsed_ms, is_speech),
    {
        let sample = SentAudioSample { sent_at, audio_elapsed_ms };
        let is_first = self.first.is_none();
        if is_first {
            self.first = Some(audio_elapsed_ms);
        }
        let before: u128 = match self.latest {
            Some(latest) => latest.audio_elapsed_ms,
            None => 0,
        };
        let gap: u128 = audio_elapsed_ms.saturating_sub(before);
        match is_speech {
            Some(true) => {
                self.speech_audio_ms = self.speech_audio_ms + gap;
                self.trailing_silence_ms = 0;
            },
            Some(false) => {
                self.total_silence_ms = self.total_silence_ms + gap;
                self.trailing_silence_ms = self.trailing_silence_ms + gap;
            },
            None => {},
        }
        self.latest = Some(sample);
        is_first
    }

    pub fn record_deepgram_connected(&mut self, connect_ms: u128)
        ensures
            final(self)@ == (SentTimingView {
                deepgram_connect_ms: Some(connect_ms),
                ..old(self)@
            }),
    {
        self.deepgram_connect_ms = Some(connect_ms);
    }

    pub fn record_audio_input_ended(&mut self, input_ended_ms: u128)
        ensures
            final(self)@ == (SentTimingView {
                audio_input_ended_ms: Some(input_ended_ms),
                ..old(self)@
            }),
    {
        self.audio_input_ended_ms = Some(input_ended_ms);
    }

    pub fn record_finalize_sent(
        &mut self,
        finalize_sent_ms: u128,
        finalize_sent_at: std::time::Instant,
    )
        ensures
            final(self)@ == (SentTimingView {
                finalize_sent_ms: Some(finalize_sent_ms),
                finalize_sent_at: Some(finalize_sent_at),
                ..old(self)@
            }),
    {
        self.finalize = Some(
            FinalizeSent { sent_at: finalize_sent_at, sent_ms: finalize_sent_ms },
        );
    }

    /// Records the time of the first interim transcript; a later one changes nothing.
    pub fn record_first_interim(&mut self, first_interim_ms: u128)
        ensures
            final(self)@ == (SentTimingView {
                first_interim_ms: if old(self)@.first_interim_ms is Some {
                    old(self)@.first_interim_ms
                } else {
                    Some(first_interim_ms)
                },
                ..old(self)@
            }),
    {
        if self.first_interim_ms.is_none() {
            self.first_interim_ms = Some(first_interim_ms);
        }
    }

    /// The milliseconds since the latest piece of audio was sent, by the clock.
    pub fn millis_since_latest(&self) -> (millis: Option<u128>)
        ensures
            millis is Some <==> self@.latest is Some,
            millis matches Some(millis) ==> millis <= MAX_MILLIS,
    {
        match self.latest {
            Some(latest) => Some(millis_since(&latest.sent_at)),
            None => None,
        }
    }

    /// The milliseconds since the end was asked for, by the clock.
    pub fn millis_since_finalize(&self) -> (millis: Option<u128>)
        ensures
            millis is Some <==> self@.finalize_sent_ms is Some,
            millis matches Some(millis) ==> millis <= MAX_MILLIS,
    {
        match self.finalize {
            Some(finalize) => Some(millis_since(&finalize.sent_at)),
            None => None,
        }
    }

    /// The time on the clock of the audio: the end of the latest piece that was sent, and the time
    /// since then; before any piece, the time since the start.
    pub fn stt_elapsed_ms(&self, since_latest_ms: u128, since_start_ms: u128) -> (elapsed_ms: u128)
        requires
            self@.latest matches Some(end) ==> end + since_latest_ms <= u128::MAX,
        ensures
            elapsed_ms == (match self@.latest {
                Some(end) => end + since_latest_ms,
                None => since_start_ms as int,
            }),
    {
        match self.latest {
            Some(latest) => latest.audio_elapsed_ms + since_latest_ms,
            None => since_start_ms,
        }
    }

    /// Where the time to a final transcript went.
    pub fn stt_timing_breakdown(
        &self,
        final_emitted_ms: u128,
        since_finalize_ms: Option<u128>,
    ) -> (breakdown: SttTimingBreakdown)
        ensures
            breakdown == self@.breakdown(final_emitted_ms, since_finalize_ms),
    {
        SttTimingBreakdown {
            speech_audio_ms: self.speech_audio_ms,
            vad_silence_ms: self.trailing_silence_ms,
            total_silence_ms: self.total_silence_ms,
            audio_duration_ms: match self.latest {
                Some(latest) => latest.audio_elapsed_ms,
                None => 0,
            },
            deepgram_connect_ms: self.deepgram_connect_ms,
            first_interim_ms: self.first_interim_ms,
            finalize_to_final_ms: since_finalize_ms,
            final_emitted_ms,
        }
    }
}

/// The silence at the end of the audio is never more than all silence: recording a piece keeps that
/// so.
pub proof fn trailing_silence_is_part_of_all(
    timing: SentTimingView,
    sent_at: std::time::Instant,
    audio_elapsed_ms: u128,
    is_speech: Option<bool>,
)
    requires
        timing.trailing_silence_ms <= timing.total_silence_ms,
        timing.fits(audio_elapsed_ms),
    ensures
        ({
            let after = timing.sent(sent_at, audio_elapsed_ms, is_speech);
            after.trailing_silence_ms <= after.total_silence_ms
        }),
{
}

/// A piece of audio that was sent: when it was sent, where it ends in the audio, and whether it is
/// speech, where that is known.
pub struct SentPiece {
    pub sent_at: std::time::Instant,
    pub end_ms: u128,
    pub is_speech: Option<bool>,
}

/// Where the audio of all pieces ends: at the end of the last one.
pub open spec fn audio_end(pieces: Seq<SentPiece>) -> int {
    if pieces.len() == 0 {
        0
    } else {
        pieces.last().end_ms as int
    }
}

/// By how much the last piece makes the audio longer: from the end of the piece before it to its
/// own, and not at all where it ends no later.
pub open spec fn last_length(pieces: Seq<SentPiece>) -> int {
    if audio_end(pieces) > audio_end(pieces.drop_last()) {
        audio_end(pieces) - audio_end(pieces.drop_last())
    } else {
        0
    }
}

/// The length of all pieces of which this is known: of speech, or of silence.
pub open spec fn length_of(pieces: Seq<SentPiece>, speech: bool) -> int
    decreases pieces.len(),
{
    if pieces.len() == 0 {
        0
    } else {
        length_of(pieces.drop_last(), speech) + if pieces.last().is_speech == Some(speech) {
            last_length(pieces)
        } else {
            0
        }
    }
}

/// The length of the silence after the last speech.
pub open spec fn silence_at_the_end(pieces: Seq<SentPiece>) -> int
    decreases pieces.len(),
{
    if pieces.len() == 0 || pieces.last().is_speech == Some(true) {
        0
    } else {
        silence_at_the_end(pieces.drop_last()) + if pieces.last().is_speech == Some(false) {
            last_length(pieces)
        } else {
            0
        }
    }
}

/// The times after some pieces were sent.
pub open spec fn timing_run(pieces: Seq<SentPiece>) -> SentTimingView
    decreases pieces.len(),
{
    if pieces.len() == 0 {
        SentTimingView::empty()
    } else {
        let piece = pieces.last();
        timing_run(pieces.drop_last()).sent(piece.sent_at, piece.end_ms, piece.is_speech)
    }
}

proof fn lengths_are_bounded(pieces: Seq<SentPiece>)
    ensures
        0 <= silence_at_the_end(pieces) <= length_of(pieces, false),
        0 <= length_of(pieces, true),
        pieces.len() > 0 ==> length_of(pieces.drop_last(), true) <= length_of(pieces, true)
            && length_of(pieces.drop_last(), false) <= length_of(pieces, false),
    decreases pieces.len(),
{
    if pieces.len() > 0 {
        lengths_are_bounded(pieces.drop_last());
    }
}

/// The times say of the pieces that were sent what they are: how much speech and how much silence
/// there is in all, how much silence there is after the last speech, and where the audio began and
/// ends; and a breakdown tells them.
pub proof fn times_tell_what_was_sent(
    pieces: Seq<SentPiece>,
    final_emitted_ms: u128,
    since_finalize_ms: Option<u128>,
)
    requires
        length_of(pieces, true) <= u128::MAX,
        length_of(pieces, false) <= u128::MAX,
    ensures
        ({
            let timing = timing_run(pieces);
            let breakdown = timing.breakdown(final_emitted_ms, since_finalize_ms);
            &&& timing.speech_audio_ms == length_of(pieces, true)
            &&& timing.total_silence_ms == length_of(pieces, false)
            &&& timing.trailing_silence_ms == silence_at_the_end(pieces)
            &&& timing.first == if pieces.len() > 0 {
                Some(pieces[0].end_ms)
            } else {
                None
            }
            &&& timing.latest == if pieces.len() > 0 {
                Some(pieces.last().end_ms)
            } else {
                None
            }
            &&& timing.latest_sent_at == if pieces.len() > 0 {
                Some(pieces.last().sent_at)
            } else {
                None
            }
            &&& breakdown.speech_audio_ms == length_of(pieces, true)
            &&& breakdown.total_silence_ms == length_of(pieces, false)
            &&& breakdown.vad_silence_ms == silence_at_the_end(pieces)
            &&& breakdown.audio_duration_ms == audio_end(pieces)
            &&& breakdown.finalize_to_final_ms == since_finalize_ms
            &&& breakdown.final_emitted_ms == final_emitted_ms
        }),
    decreases pieces.len(),
{
    lengths_are_bounded(pieces);
    if pieces.len() > 0 {
        times_tell_what_was_sent(pieces.drop_last(), final_emitted_ms, since_finalize_ms);
        lengths_are_bounded(pieces.drop_last());
    }
}

/// Where each piece ends no earlier than the one before it and all are known to be speech or not,
/// the speech and the silence make up the audio.
pub proof fn speech_and_silence_make_up_the_audio(pieces: Seq<SentPiece>)
    requires
        forall|i: int| 0 < i < pieces.len() ==> pieces[i - 1].end_ms <= (#[trigger] pieces[i]).end_ms,
        forall|i: int| 0 <= i < pieces.len() ==> (#[trigger] pieces[i]).is_speech is Some,
    ensures
        length_of(pieces, true) + length_of(pieces, false) == audio_end(pieces),
    decreases pieces.len(),
{
    if pieces.len() > 0 {
        let rest = pieces.drop_last();
        let last = pieces.len() - 1;
        assert(pieces[last].is_speech is Some);
        assert(last > 0 ==> pieces[last - 1].end_ms <= pieces[last].end_ms);
        assert forall|i: int| 0 < i < rest.len() implies rest[i - 1].end_ms <= (
        #[trigger] rest[i]).end_ms by {
            assert(pieces[i - 1].end_ms <= pieces[i].end_ms);
        }
        assert forall|i: int| 0 <= i < rest.len() implies (#[trigger] rest[i]).is_speech is Some by {
            assert(pieces[i].is_speech is Some);
        }
        speech_and_silence_make_up_the_audio(rest);
        assert(last > 0 ==> audio_end(rest) == pieces[last - 1].end_ms);
        assert(last_length(pieces) == audio_end(pieces) - audio_end(rest));
        let speech = pieces.last().is_speech.unwrap();
        assert(pieces.last().is_speech == Some(speech));
        if speech {
            assert(length_of(pieces, false) == length_of(rest, false));
        } else {
            assert(length_of(pieces, true) == length_of(rest, true));
        }
    }
}

/// Whether each piece ends no earlier than the one before it.
pub open spec fn ends_ascend(pieces: Seq<SentPiece>) -> bool {
    forall|i: int| 0 < i < pieces.len() ==> pieces[i - 1].end_ms <= (#[trigger] pieces[i]).end_ms
}

proof fn lengths_are_within_the_audio(pieces: Seq<SentPiece>)
    requires
        ends_ascend(pieces),
    ensures
        length_of(pieces, true) + length_of(pieces, false) <= audio_end(pieces),
        pieces.len() > 0 ==> ends_ascend(pieces.drop_last()) && audio_end(pieces.drop_last())
            <= audio_end(pieces),
    decreases pieces.len(),
{
    if pieces.len() > 0 {
        let rest = pieces.drop_last();
        assert forall|i: int| 0 < i < rest.len() implies rest[i - 1].end_ms <= (
        #[trigger] rest[i]).end_ms by {
            assert(pieces[i - 1].end_ms <= pieces[i].end_ms);
        }
        lengths_are_within_the_audio(rest);
        let last = pieces.len() - 1;
        if last > 0 {
            assert(pieces[last - 1].end_ms <= pieces[last].end_ms);
            assert(audio_end(rest) == pieces[last - 1].end_ms);
        }
        assert(last_length(pieces) == audio_end(pieces) - audio_end(rest));
    }
}

/// Pieces that end one after the other can always be recorded, however many there are.
pub proof fn pieces_in_order_can_be_recorded(pieces: Seq<SentPiece>)
    requires
        pieces.len() > 0,
        ends_ascend(pieces),
    ensures
        timing_run(pieces.drop_last()).fits(pieces.last().end_ms),
{
    let rest = pieces.drop_last();
    lengths_are_within_the_audio(pieces);
    lengths_are_within_the_audio(rest);
    lengths_are_bounded(rest);
    times_tell_what_was_sent(rest, 0, None);
    assert(rest.len() > 0 ==> rest.last() == pieces[rest.len() - 1]);
}

} // verus!
