//! Playing spoken output into a room.
use vstd::prelude::*;

use crate::voice::livekit::audio::{
    decoded, decoding_is_independent_of_parts, left_over, linear16_bytes_to_samples_with_pending,
    truncate_to_complete_channels, truncation_keeps_whole_frames, whole_frames, with_pending,
};
use crate::voice::{TtsEvent, TtsEventView};

verus! {

/// The byte of spoken output that waits for the one after it.
#[derive(Debug, Clone, Copy, PartialEq, Eq, Structural)]
pub struct Playback {
    pub pending_byte: Option<u8>,
}

/// A frame to play.
#[derive(Debug)]
pub struct OutputFrame {
    pub samples: Vec<i16>,
    pub samples_per_channel: u32,
}

/// What to do with an event of spoken output.
#[derive(Debug)]
pub enum PlaybackAction {
    Nothing,
    Play(OutputFrame),
    /// Drop what was given to be played and was not played yet.
    Clear,
}

/// The samples to play; none where there is nothing to play.
pub open spec fn played(
    playback: Playback,
    event: TtsEventView,
    channels: u32,
) -> Option<Seq<i16>> {
    match event {
        TtsEventView::AudioChunk { bytes, .. } => {
            let samples = whole_frames(
                decoded(with_pending(playback.pending_byte, bytes)),
                channels,
            );
            if samples.len() > 0 {
                Some(samples)
            } else {
                None
            }
        },
        _ => None,
    }
}

/// The byte that waits after an event: the end of the output, or a reset, drops it.
pub open spec fn waiting(playback: Playback, event: TtsEventView) -> Option<u8> {
    match event {
        TtsEventView::AudioChunk { bytes, .. } => left_over(
            with_pending(playback.pending_byte, bytes),
        ),
        TtsEventView::FirstAudio { .. } => playback.pending_byte,
        _ => None,
    }
}

impl Playback {
    pub fn new() -> (playback: Playback)
        ensures
            playback.pending_byte is None,
    {
        Playback { pending_byte: None }
    }

    /// What to do with an event of spoken output, for so many channels.
    pub fn on_event(&mut self, event: TtsEvent, channels: u32) -> (action: PlaybackAction)
        ensures
            final(self).pending_byte == waiting(*old(self), event@),
            match played(*old(self), event@, channels) {
                Some(samples) => {
                    &&& action is Play
                    &&& action->Play_0.samples@ == samples
                    &&& channels > 0
                    &&& action->Play_0.samples_per_channel == (samples.len() as u32) / channels
                },
                None => if event@ is PlaybackReset {
                    action is Clear
                } else {
                    action is Nothing
                },
            },
    {
        match event {
            TtsEvent::FirstAudio { .. } => PlaybackAction::Nothing,
            TtsEvent::AudioChunk { bytes, .. } => {
                let mut samples = linear16_bytes_to_samples_with_pending(
                    &mut self.pending_byte,
                    bytes.as_slice(),
                );
                truncate_to_complete_channels(&mut samples, channels);
                if samples.len() == 0 {
                    return PlaybackAction::Nothing;
                }
                let samples_per_channel: u32 = samples.len() as u32 / channels;
                PlaybackAction::Play(OutputFrame { samples, samples_per_channel })
            },
            TtsEvent::PlaybackReset => {
                self.pending_byte = None;
                PlaybackAction::Clear
            },
            TtsEvent::Done => {
                self.pending_byte = None;
                PlaybackAction::Nothing
            },
        }
    }
}

/// After a reset nothing of the output before it is played: what follows is played as if it were
/// the first.
pub proof fn reset_forgets_what_came_before(
    playback: Playback,
    event: TtsEventView,
    channels: u32,
)
    ensures
        ({
            let after = Playback { pending_byte: waiting(playback, TtsEventView::PlaybackReset) };
            let fresh = Playback { pending_byte: None };
            &&& played(after, event, channels) == played(fresh, event, channels)
            &&& waiting(after, event) == waiting(fresh, event)
        }),
{
}

/// The bytes of audio in events, one after the other.
pub open spec fn audio_in(events: Seq<TtsEventView>) -> Seq<u8>
    decreases events.len(),
{
    if events.len() == 0 {
        Seq::empty()
    } else {
        match events.last() {
            TtsEventView::AudioChunk { bytes, .. } => audio_in(events.drop_last()) + bytes,
            _ => audio_in(events.drop_last()),
        }
    }
}

/// What was played of some events, and the byte that waits after them.
pub open spec fn playback_run(events: Seq<TtsEventView>, channels: u32) -> (Playback, Seq<i16>)
    decreases events.len(),
{
    if events.len() == 0 {
        (Playback { pending_byte: None }, Seq::empty())
    } else {
        let (playback, samples) = playback_run(events.drop_last(), channels);
        (
            Playback { pending_byte: waiting(playback, events.last()) },
            match played(playback, events.last(), channels) {
                Some(more) => samples + more,
                None => samples,
            },
        )
    }
}

/// Spoken output in one channel is played to its last sample, however its bytes are cut into chunks:
/// what is played of some audio is its samples, and what waits is the byte that is left over.
pub proof fn one_channel_plays_all_audio(events: Seq<TtsEventView>)
    requires
        forall|i: int|
            0 <= i < events.len() ==> #[trigger] events[i] is AudioChunk || events[i] is FirstAudio,
    ensures
        playback_run(events, 1).1 == decoded(audio_in(events)),
        playback_run(events, 1).0.pending_byte == left_over(audio_in(events)),
    decreases events.len(),
{
    if events.len() == 0 {
        assert(playback_run(events, 1).1 =~= decoded(audio_in(events)));
    } else {
        let rest = events.drop_last();
        assert forall|i: int| 0 <= i < rest.len() implies #[trigger] rest[i] is AudioChunk || rest[i]
            is FirstAudio by {
            assert(events[i] is AudioChunk || events[i] is FirstAudio);
        }
        one_channel_plays_all_audio(rest);
        let last = events[events.len() - 1];
        let (playback, samples) = playback_run(rest, 1);
        if let TtsEventView::AudioChunk { bytes, .. } = last {
            decoding_is_independent_of_parts(None, audio_in(rest), bytes);
            let more = decoded(with_pending(playback.pending_byte, bytes));
            assert(whole_frames(more, 1) =~= more);
            assert(samples + more =~= decoded(audio_in(events)));
        }
    }
}

/// Of each chunk whole frames of all channels are played, from its first sample on, and less than one
/// frame of it is not; the end of the output and a reset leave nothing waiting.
pub proof fn chunks_are_played_in_whole_frames(
    playback: Playback,
    event: TtsEventView,
    channels: u32,
)
    requires
        channels > 0,
    ensures
        event matches TtsEventView::AudioChunk { bytes, .. } ==> {
            let given = decoded(with_pending(playback.pending_byte, bytes));
            let part = match played(playback, event, channels) {
                Some(samples) => samples,
                None => Seq::empty(),
            };
            &&& part.len() % (channels as nat) == 0
            &&& part == given.take(part.len() as int)
            &&& given.len() - part.len() < channels
        },
        !(event is AudioChunk) ==> played(playback, event, channels) is None,
        event is Done || event is PlaybackReset ==> waiting(playback, event) is None,
        event is FirstAudio ==> waiting(playback, event) == playback.pending_byte,
{
    if let TtsEventView::AudioChunk { bytes, .. } = event {
        let given = decoded(with_pending(playback.pending_byte, bytes));
        truncation_keeps_whole_frames(given, channels);
        assert(given.take(0) =~= Seq::empty());
    }
}

} // verus!
