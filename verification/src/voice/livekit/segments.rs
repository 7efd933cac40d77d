//! Cutting a participant's audio into turns.
use vstd::prelude::*;

use crate::text::{views, views_of_push};
use crate::voice::livekit::audio::{encoded, linear16_samples_to_bytes};
use crate::voice::livekit::LiveKitConfig;
use crate::voice::{AudioChunk, AudioChunkView};

verus! {

/// A participant's audio: whether a turn is open, and otherwise the speech that is held until there
/// is enough of it to open one.
#[derive(Debug)]
pub struct ActiveLiveKitAudioTurn {
    open: bool,
    elapsed_ms: u128,
    silence_ms: u128,
    held: Vec<AudioChunk>,
}

#[verifier::ext_equal]
pub struct AudioTurnView {
    pub open: bool,
    pub elapsed_ms: u128,
    pub silence_ms: u128,
    pub held: Seq<AudioChunkView>,
}

impl View for ActiveLiveKitAudioTurn {
    type V = AudioTurnView;

    closed spec fn view(&self) -> AudioTurnView {
        AudioTurnView {
            open: self.open,
            elapsed_ms: self.elapsed_ms,
            silence_ms: self.silence_ms,
            held: views(self.held@),
        }
    }
}

/// What a frame leads to: whether a turn opens, the audio to put into it, and whether it ends.
#[derive(Debug)]
pub struct FrameStep {
    pub opens: bool,
    pub chunks: Vec<AudioChunk>,
    pub closes: bool,
}

#[verifier::ext_equal]
pub struct FrameStepView {
    pub opens: bool,
    pub chunks: Seq<AudioChunkView>,
    pub closes: bool,
}

impl View for FrameStep {
    type V = FrameStepView;

    open spec fn view(&self) -> FrameStepView {
        FrameStepView { opens: self.opens, chunks: views(self.chunks@), closes: self.closes }
    }
}

/// The spans that decide on turns, in whole milliseconds: the speech that opens one, and the silence
/// that ends one.
pub struct SegmentLimits {
    pub min_speech_ms: int,
    pub silence_timeout_ms: int,
}

impl LiveKitConfig {
    /// The spans that decide on turns.
    pub open spec fn limits(&self) -> SegmentLimits {
        SegmentLimits {
            min_speech_ms: self.input_min_speech.total_nanos() / 1_000_000,
            silence_timeout_ms: self.input_silence_timeout.total_nanos() / 1_000_000,
        }
    }
}

impl AudioTurnView {
    /// No turn, and no speech held.
    pub open spec fn idle() -> AudioTurnView {
        AudioTurnView { open: false, elapsed_ms: 0, silence_ms: 0, held: Seq::empty() }
    }

    /// What always holds: silence is part of the time; nothing is held while a turn is open; and
    /// what is held is speech, as long as the time says.
    pub open spec fn consistent(self) -> bool {
        &&& self.silence_ms <= self.elapsed_ms
        &&& self.open ==> self.held.len() == 0
        &&& forall|i: int|
            0 <= i < self.held.len() ==> (#[trigger] self.held[i]).is_speech == Some(true)
        &&& self.held.len() > 0 ==> self.held.last().elapsed_ms == self.elapsed_ms
        &&& !self.open && self.held.len() == 0 ==> self.elapsed_ms == 0
        &&& !self.open ==> self.silence_ms == 0
    }

    /// After a frame: silence where no turn is open drops the speech that is held; speech is held
    /// until there is enough of it, and then opens a turn with all of it; and in an open turn each
    /// frame is put into it, and enough silence ends it.
    pub open spec fn pushed(
        self,
        limits: SegmentLimits,
        samples: Seq<i16>,
        frame_ms: u128,
        speech: bool,
    ) -> (AudioTurnView, FrameStepView) {
        let nothing = FrameStepView { opens: false, chunks: Seq::empty(), closes: false };
        if !self.open && !speech {
            (AudioTurnView::idle(), nothing)
        } else {
            let elapsed_ms = (self.elapsed_ms + frame_ms) as u128;
            let silence_ms = if speech {
                0
            } else {
                (self.silence_ms + frame_ms) as u128
            };
            let chunk = AudioChunkView {
                bytes: encoded(samples),
                elapsed_ms,
                is_speech: Some(speech),
            };
            let open = AudioTurnView { open: true, elapsed_ms, silence_ms, held: Seq::empty() };
            if !self.open {
                let held = self.held.push(chunk);
                if elapsed_ms >= limits.min_speech_ms {
                    (open, FrameStepView { opens: true, chunks: held, ..nothing })
                } else {
                    (AudioTurnView { open: false, held, ..open }, nothing)
                }
            } else if !speech && silence_ms >= limits.silence_timeout_ms {
                (
                    AudioTurnView::idle(),
                    FrameStepView { chunks: seq![chunk], closes: true, ..nothing },
                )
            } else {
                (open, FrameStepView { chunks: seq![chunk], ..nothing })
            }
        }
    }
}

impl ActiveLiveKitAudioTurn {
    #[verifier::type_invariant]
    spec fn well_formed(self) -> bool {
        self@.consistent()
    }

    pub fn new() -> (turn: ActiveLiveKitAudioTurn)
        ensures
            turn@ == AudioTurnView::idle(),
    {
        let held: Vec<AudioChunk> = Vec::new();
        assert(views(held@) =~= Seq::empty());
        ActiveLiveKitAudioTurn { open: false, elapsed_ms: 0, silence_ms: 0, held }
    }

    /// Takes a frame in, which is `frame_ms` long and holds speech or not.
    pub fn push_frame(
        &mut self,
        samples: &[i16],
        frame_ms: u128,
        speech: bool,
        config: &LiveKitConfig,
    ) -> (step: FrameStep)
        requires
            old(self)@.elapsed_ms + frame_ms <= u128::MAX,
        ensures
            final(self)@ == old(self)@.pushed(config.limits(), samples@, frame_ms, speech).0,
            step@ == old(self)@.pushed(config.limits(), samples@, frame_ms, speech).1,
            final(self)@.consistent(),
    {
        proof {
            use_type_invariant(&*self);
        }
        let ghost before = self@;
        let ghost described = before.pushed(config.limits(), samples@, frame_ms, speech);
        let mut chunks: Vec<AudioChunk> = Vec::new();
        assert(views(chunks@) =~= Seq::empty());
        if !self.open && !speech {
            *self = ActiveLiveKitAudioTurn::new();
            return FrameStep { opens: false, chunks, closes: false };
        }
        let elapsed_ms: u128 = self.elapsed_ms + frame_ms;
        let silence_ms: u128 = if speech {
            0
        } else {
            self.silence_ms + frame_ms
        };
        let chunk = AudioChunk {
            bytes: linear16_samples_to_bytes(samples),
            elapsed_ms,
            is_speech: Some(speech),
        };
        if !self.open {
            let mut turn = ActiveLiveKitAudioTurn::new();
            std::mem::swap(self, &mut turn);
            let mut held = turn.held;
            proof {
                views_of_push(held@, chunk);
            }
            held.push(chunk);
            if elapsed_ms >= config.input_min_speech.as_millis() {
                let none: Vec<AudioChunk> = Vec::new();
                assert(views(none@) =~= Seq::empty());
                *self = ActiveLiveKitAudioTurn { open: true, elapsed_ms, silence_ms, held: none };
                FrameStep { opens: true, chunks: held, closes: false }
            } else {
                *self = ActiveLiveKitAudioTurn { open: false, elapsed_ms, silence_ms, held };
                FrameStep { opens: false, chunks, closes: false }
            }
        } else {
            chunks.push(chunk);
            assert(views(chunks@) =~= seq![chunk@]);
            let closes = !speech && silence_ms >= config.input_silence_timeout.as_millis();
            if closes {
                *self = ActiveLiveKitAudioTurn::new();
            } else {
                let none: Vec<AudioChunk> = Vec::new();
                assert(views(none@) =~= Seq::empty());
                *self = ActiveLiveKitAudioTurn { open: true, elapsed_ms, silence_ms, held: none };
            }
            FrameStep { opens: false, chunks, closes }
        }
    }

    /// Ends the turn: it could not be opened, or its audio is not taken any more.
    pub fn close(&mut self)
        ensures
            final(self)@ == AudioTurnView::idle(),
    {
        *self = ActiveLiveKitAudioTurn::new();
    }
}

/// A frame: its samples, its length, and whether it holds speech.
pub struct FrameView {
    pub samples: Seq<i16>,
    pub ms: u128,
    pub speech: bool,
}

/// A participant's audio up to some point: all audio of each turn so far, the last one still open
/// where the state says so.
#[verifier::ext_equal]
pub struct SegmentRun {
    pub state: AudioTurnView,
    pub turns: Seq<Seq<AudioChunkView>>,
}

/// A participant's audio after some frames.
pub open spec fn segment_run(limits: SegmentLimits, frames: Seq<FrameView>) -> SegmentRun
    decreases frames.len(),
{
    if frames.len() == 0 {
        SegmentRun { state: AudioTurnView::idle(), turns: Seq::empty() }
    } else {
        let run = segment_run(limits, frames.drop_last());
        let frame = frames.last();
        let (state, step) = run.state.pushed(limits, frame.samples, frame.ms, frame.speech);
        SegmentRun {
            state,
            turns: if step.opens {
                run.turns.push(step.chunks)
            } else if step.chunks.len() > 0 {
                run.turns.drop_last().push(run.turns.last() + step.chunks)
            } else {
                run.turns
            },
        }
    }
}

/// The length of all frames.
pub open spec fn total_ms(frames: Seq<FrameView>) -> int
    decreases frames.len(),
{
    if frames.len() == 0 {
        0
    } else {
        total_ms(frames.drop_last()) + frames.last().ms
    }
}

/// Whether a turn begins with enough speech: some first part of it is speech alone, and as long as
/// is needed.
pub open spec fn begins_with_speech(limits: SegmentLimits, chunks: Seq<AudioChunkView>) -> bool {
    exists|n: int|
        0 < n <= chunks.len() && (#[trigger] chunks[n - 1]).elapsed_ms >= limits.min_speech_ms
            && forall|i: int| 0 <= i < n ==> (#[trigger] chunks[i]).is_speech == Some(true)
}

/// Every turn begins with enough speech, so that noise that is shorter opens none; and each ends
/// only after it began. At every point the state is consistent.
pub proof fn turns_begin_with_enough_speech(limits: SegmentLimits, frames: Seq<FrameView>)
    requires
        total_ms(frames) <= u128::MAX,
    ensures
        ({
            let run = segment_run(limits, frames);
            &&& run.state.consistent()
            &&& run.state.elapsed_ms <= total_ms(frames)
            &&& run.state.open ==> run.turns.len() > 0
            &&& forall|i: int|
                0 <= i < run.turns.len() ==> begins_with_speech(limits, #[trigger] run.turns[i])
        }),
    decreases frames.len(),
{
    if frames.len() > 0 {
        let rest = frames.drop_last();
        total_ms_grows(frames);
        turns_begin_with_enough_speech(limits, rest);
        let run = segment_run(limits, rest);
        let next = segment_run(limits, frames);
        let frame = frames.last();
        let (state, step) = run.state.pushed(limits, frame.samples, frame.ms, frame.speech);
        if step.opens {
            let n = step.chunks.len() as int;
            assert(step.chunks[n - 1].elapsed_ms >= limits.min_speech_ms);
            assert(begins_with_speech(limits, step.chunks));
        } else if step.chunks.len() > 0 {
            let before = run.turns.last();
            assert(begins_with_speech(limits, run.turns[run.turns.len() - 1]));
            let n = choose|n: int|
                0 < n <= before.len() && (#[trigger] before[n - 1]).elapsed_ms
                    >= limits.min_speech_ms && forall|i: int|
                    0 <= i < n ==> (#[trigger] before[i]).is_speech == Some(true);
            let after = before + step.chunks;
            assert(after[n - 1] == before[n - 1]);
            assert forall|i: int| 0 <= i < n implies (#[trigger] after[i]).is_speech == Some(
                true,
            ) by {
                assert(before[i].is_speech == Some(true));
            }
            assert(begins_with_speech(limits, after));
        }
        assert forall|i: int| 0 <= i < next.turns.len() implies begins_with_speech(
            limits,
            #[trigger] next.turns[i],
        ) by {
            if i < run.turns.len() {
                assert(begins_with_speech(limits, run.turns[i]));
            }
        }
    }
}

proof fn total_ms_grows(frames: Seq<FrameView>)
    ensures
        frames.len() > 0 ==> total_ms(frames.drop_last()) <= total_ms(frames),
        total_ms(frames) >= 0,
    decreases frames.len(),
{
    if frames.len() > 0 {
        total_ms_grows(frames.drop_last());
    }
}

/// An open turn ends exactly on a silent frame with which the silence since the last speech is as
/// long as the limit.
pub proof fn silence_ends_a_turn(
    state: AudioTurnView,
    limits: SegmentLimits,
    samples: Seq<i16>,
    frame_ms: u128,
    speech: bool,
)
    requires
        state.consistent(),
        state.open,
        state.elapsed_ms + frame_ms <= u128::MAX,
    ensures
        ({
            let (next, step) = state.pushed(limits, samples, frame_ms, speech);
            &&& step.closes <==> !speech && state.silence_ms + frame_ms
                >= limits.silence_timeout_ms
            &&& next.open <==> !step.closes
            &&& step.chunks.len() == 1
            &&& step.chunks[0].bytes == encoded(samples)
        }),
{
}

/// The silence after the last frame with speech: the length of all frames that follow it.
pub open spec fn silence_since_speech(frames: Seq<FrameView>) -> int
    decreases frames.len(),
{
    if frames.len() == 0 || frames.last().speech {
        0
    } else {
        silence_since_speech(frames.drop_last()) + frames.last().ms
    }
}

/// The frames with speech after the last silent frame.
pub open spec fn speech_since_silence(frames: Seq<FrameView>) -> Seq<FrameView>
    decreases frames.len(),
{
    if frames.len() == 0 || !frames.last().speech {
        Seq::empty()
    } else {
        speech_since_silence(frames.drop_last()).push(frames.last())
    }
}

/// The audio of a turn that consists of these frames: one chunk for each, which tells the time from
/// the turn's beginning to the frame's end.
pub open spec fn audio_of(frames: Seq<FrameView>) -> Seq<AudioChunkView> {
    Seq::new(
        frames.len(),
        |i: int|
            AudioChunkView {
                bytes: encoded(frames[i].samples),
                elapsed_ms: total_ms(frames.take(i + 1)) as u128,
                is_speech: Some(frames[i].speech),
            },
    )
}

proof fn audio_of_push(frames: Seq<FrameView>, frame: FrameView)
    ensures
        audio_of(frames.push(frame)) == audio_of(frames).push(
            AudioChunkView {
                bytes: encoded(frame.samples),
                elapsed_ms: (total_ms(frames) + frame.ms) as u128,
                is_speech: Some(frame.speech),
            },
        ),
        total_ms(frames.push(frame)) == total_ms(frames) + frame.ms,
{
    let all = frames.push(frame);
    assert(all.drop_last() =~= frames);
    assert forall|i: int| 0 <= i < frames.len() implies audio_of(all)[i] == audio_of(frames)[i] by {
        assert(all.take(i + 1) =~= frames.take(i + 1));
    }
    assert(all.take(all.len() as int) =~= all);
    assert(audio_of(all) =~= audio_of(frames).push(audio_of(all).last()));
}

/// Whether the audio of a turn is that of the frames from `first` on, where the speech that opened
/// it begins.
pub open spec fn holds_frames_from(
    turn: Seq<AudioChunkView>,
    frames: Seq<FrameView>,
    first: int,
) -> bool {
    &&& 0 <= first < frames.len()
    &&& frames[first].speech
    &&& first > 0 ==> !frames[first - 1].speech
    &&& turn == audio_of(frames.skip(first))
}

/// What the frames come to: the state says what they say.
spec fn cut(run: SegmentRun, limits: SegmentLimits, frames: Seq<FrameView>) -> bool {
    let state = run.state;
    if state.open {
        &&& state.silence_ms == silence_since_speech(frames)
        &&& run.turns.len() > 0
        &&& exists|first: int|
            holds_frames_from(run.turns.last(), frames, first) && state.elapsed_ms == total_ms(
                #[trigger] frames.skip(first),
            )
    } else {
        &&& state.held == audio_of(speech_since_silence(frames))
        &&& state.elapsed_ms == total_ms(speech_since_silence(frames))
    }
}

proof fn speech_is_at_the_end(frames: Seq<FrameView>)
    ensures
        ({
            let first = frames.len() - speech_since_silence(frames).len();
            &&& 0 <= first
            &&& speech_since_silence(frames) == frames.skip(first)
            &&& forall|i: int| first <= i < frames.len() ==> (#[trigger] frames[i]).speech
            &&& first > 0 ==> !frames[first - 1].speech
        }),
    decreases frames.len(),
{
    let speech = speech_since_silence(frames);
    let first = frames.len() - speech.len();
    if frames.len() > 0 && frames.last().speech {
        speech_is_at_the_end(frames.drop_last());
        assert(speech =~= frames.skip(first));
        assert forall|i: int| first <= i < frames.len() implies (#[trigger] frames[i]).speech by {
            if i < frames.len() - 1 {
                assert(frames.drop_last()[i].speech);
            }
        }
        if first > 0 {
            assert(!frames.drop_last()[first - 1].speech);
        }
    } else {
        assert(speech =~= frames.skip(first));
    }
}

proof fn total_of_skip(frames: Seq<FrameView>, first: int)
    requires
        0 <= first <= frames.len(),
    ensures
        total_ms(frames.skip(first)) <= total_ms(frames),
        0 <= total_ms(frames.skip(first)),
    decreases frames.len(),
{
    total_ms_grows(frames);
    total_ms_grows(frames.skip(first));
    if first < frames.len() {
        total_of_skip(frames.drop_last(), first);
        assert(frames.skip(first).drop_last() =~= frames.drop_last().skip(first));
    }
}

proof fn silence_is_bounded(frames: Seq<FrameView>)
    ensures
        0 <= silence_since_speech(frames) <= total_ms(frames),
    decreases frames.len(),
{
    total_ms_grows(frames);
    if frames.len() > 0 {
        silence_is_bounded(frames.drop_last());
    }
}

proof fn run_is_cut(limits: SegmentLimits, frames: Seq<FrameView>)
    requires
        total_ms(frames) <= u128::MAX,
    ensures
        cut(segment_run(limits, frames), limits, frames),
    decreases frames.len(),
{
    let run = segment_run(limits, frames);
    if frames.len() == 0 {
        assert(run.state.held =~= audio_of(speech_since_silence(frames)));
    } else {
        let rest = frames.drop_last();
        let frame = frames.last();
        total_ms_grows(frames);
        run_is_cut(limits, rest);
        turns_begin_with_enough_speech(limits, rest);
        silence_is_bounded(frames);
        let before = segment_run(limits, rest);
        if before.state.open {
            let first = choose|first: int|
                holds_frames_from(before.turns.last(), rest, first) && before.state.elapsed_ms
                    == total_ms(#[trigger] rest.skip(first));
            assert(rest.skip(first).push(frame) =~= frames.skip(first));
            audio_of_push(rest.skip(first), frame);
            total_of_skip(frames, first);
            let step = before.state.pushed(limits, frame.samples, frame.ms, frame.speech).1;
            assert(audio_of(rest.skip(first)).push(step.chunks[0]) =~= before.turns.last()
                + step.chunks);
            assert(holds_frames_from(run.turns.last(), frames, first));
            if !run.state.open {
                assert(run.state.held =~= audio_of(speech_since_silence(frames)));
            }
        } else if frame.speech {
            let first = frames.len() - speech_since_silence(frames).len();
            speech_is_at_the_end(frames);
            audio_of_push(speech_since_silence(rest), frame);
            total_of_skip(frames, first);
            if run.state.open {
                assert(holds_frames_from(run.turns.last(), frames, first));
                assert(run.state.elapsed_ms == total_ms(frames.skip(first)));
            }
        } else {
            assert(run.state.held =~= audio_of(speech_since_silence(frames)));
        }
    }
}

/// In an open turn the silence that is counted is the length of the frames after the last one with
/// speech, and none right after such a frame.
pub proof fn silence_is_counted_from_the_last_speech(limits: SegmentLimits, frames: Seq<FrameView>)
    requires
        total_ms(frames) <= u128::MAX,
    ensures
        ({
            let state = segment_run(limits, frames).state;
            state.open ==> {
                &&& state.silence_ms == silence_since_speech(frames)
                &&& frames.last().speech ==> state.silence_ms == 0
            }
        }),
{
    run_is_cut(limits, frames);
}

/// A frame opens a turn exactly where none is open and the speech that ends with it is long enough,
/// and all of that speech is then put into the turn. It ends an open turn exactly where the frames
/// since the last speech are as long as the limit. A frame is put into the turn that is open when
/// it comes, the one that ends it too, and no other audio is handed on.
pub proof fn turns_follow_the_frames(
    limits: SegmentLimits,
    frames: Seq<FrameView>,
    frame: FrameView,
)
    requires
        total_ms(frames.push(frame)) <= u128::MAX,
    ensures
        ({
            let all = frames.push(frame);
            let open = segment_run(limits, frames).state.open;
            let (next, step) = segment_run(limits, frames).state.pushed(
                limits,
                frame.samples,
                frame.ms,
                frame.speech,
            );
            let speech = speech_since_silence(all);
            &&& step.opens <==> !open && frame.speech && total_ms(speech) >= limits.min_speech_ms
            &&& step.closes <==> open && !frame.speech && silence_since_speech(all)
                >= limits.silence_timeout_ms
            &&& next.open <==> step.opens || open && !step.closes
            &&& step.opens ==> step.chunks == audio_of(speech)
            &&& open ==> step.chunks.len() == 1 && exists|first: int|
                #[trigger] holds_frames_from(
                    segment_run(limits, frames).turns.last() + step.chunks,
                    all,
                    first,
                )
            &&& !open && !step.opens ==> step.chunks.len() == 0
        }),
{
    let all = frames.push(frame);
    assert(all.drop_last() =~= frames);
    total_ms_grows(all);
    run_is_cut(limits, frames);
    turns_begin_with_enough_speech(limits, frames);
    silence_is_bounded(all);
    speech_is_at_the_end(all);
    let before = segment_run(limits, frames);
    if before.state.open {
        let first = choose|first: int|
            holds_frames_from(before.turns.last(), frames, first) && before.state.elapsed_ms
                == total_ms(#[trigger] frames.skip(first));
        assert(frames.skip(first).push(frame) =~= all.skip(first));
        audio_of_push(frames.skip(first), frame);
        total_of_skip(all, first);
        let step = before.state.pushed(limits, frame.samples, frame.ms, frame.speech).1;
        assert(audio_of(frames.skip(first)).push(step.chunks[0]) =~= before.turns.last()
            + step.chunks);
        assert(holds_frames_from(before.turns.last() + step.chunks, all, first));
    } else if frame.speech {
        audio_of_push(speech_since_silence(frames), frame);
        total_of_skip(all, all.len() - speech_since_silence(all).len());
    }
}

/// While a turn is open it holds all frames from the beginning of the speech that opened it, in
/// order and with nothing between them.
pub proof fn an_open_turn_holds_its_frames(limits: SegmentLimits, frames: Seq<FrameView>)
    requires
        total_ms(frames) <= u128::MAX,
        segment_run(limits, frames).state.open,
    ensures
        segment_run(limits, frames).turns.len() > 0,
        exists|first: int| #[trigger]
            holds_frames_from(segment_run(limits, frames).turns.last(), frames, first),
{
    run_is_cut(limits, frames);
}

/// The spans that decide on turns are those of the configuration, in milliseconds, less than one of
/// which is not counted.
pub proof fn limits_are_those_configured(config: LiveKitConfig)
    ensures
        config.limits().min_speech_ms * 1_000_000 <= config.input_min_speech.total_nanos() < (
        config.limits().min_speech_ms + 1) * 1_000_000,
        config.limits().silence_timeout_ms * 1_000_000 <= config.input_silence_timeout.total_nanos()
            < (config.limits().silence_timeout_ms + 1) * 1_000_000,
{
}

} // verus!
