//! A transcription's course: audio goes out, and messages come in.
use vstd::prelude::*;

use crate::runtime::{byte_len, text_bytes};
use crate::text::{debug_form, decimal, decimal_text, holds, holds_label, holds_part, views};
use crate::voice::deepgram::timing::{timing_run, SentAudioTiming, SentPiece, SentTimingView};
use crate::voice::deepgram::transcript::{
    is_set, transcript_run, unreadable_message, DeepgramListenMessage, DeepgramTranscriptState,
    ListenMessageView, TranscriptStateView,
};
use crate::voice::{
    AudioChunk, AudioChunkView, SttError, SttErrorView, SttResult, SttTimingBreakdown,
    TranscriptEvent, TranscriptEventView,
};

verus! {

/// The error of a connection that could not be made.
pub fn connect_error(message: &str) -> (error: SttError)
    ensures
        error@ == SttErrorView::Backend("Deepgram WebSocket connect failed: "@ + message@),
{
    SttError::Backend("Deepgram WebSocket connect failed: ".to_owned().concat(message))
}

/// Records that the connection was made; gives the line that traces it.
pub fn connected(timing: &mut SentAudioTiming, connect_ms: u128) -> (trace: String)
    ensures
        final(timing)@ == (SentTimingView {
            deepgram_connect_ms: Some(connect_ms),
            ..old(timing)@
        }),
        trace@ == "deepgram_connected elapsed_ms="@ + decimal(connect_ms as nat),
{
    timing.record_deepgram_connected(connect_ms);
    "deepgram_connected elapsed_ms=".to_owned().concat(decimal_text(connect_ms).as_str())
}

/// Where the sending of audio stands.
#[derive(Debug, Clone, Copy, PartialEq, Eq, Structural)]
pub enum SenderPhase {
    /// It waits for audio.
    NextAudio,
    /// It sends a piece of audio.
    SendingAudio { audio_elapsed_ms: u128, is_speech: Option<bool> },
    /// It asks for the end of what was understood.
    SendingFinalize,
    /// It asks for the end of the stream.
    SendingClose,
    /// It is over.
    Finished,
}

/// The sending of a transcription's audio.
#[derive(Debug, Clone, Copy, PartialEq, Eq, Structural)]
pub struct AudioSender {
    pub phase: SenderPhase,
}

/// What happened since the last step of sending.
#[derive(Debug)]
pub enum SenderInput {
    /// A piece of audio came; `None` where there is no more.
    Audio(Option<AudioChunk>),
    /// What was to be sent was sent, beginning at `sent_at`, or could not be.
    Sent { outcome: std::result::Result<(), String>, sent_at: std::time::Instant },
}

pub enum SenderInputView {
    Audio(Option<AudioChunkView>),
    Sent { outcome: std::result::Result<(), Seq<char>>, sent_at: std::time::Instant },
}

impl View for SenderInput {
    type V = SenderInputView;

    open spec fn view(&self) -> SenderInputView {
        match *self {
            SenderInput::Audio(Some(chunk)) => SenderInputView::Audio(Some(chunk@)),
            SenderInput::Audio(None) => SenderInputView::Audio(None),
            SenderInput::Sent { outcome: Ok(()), sent_at } => SenderInputView::Sent {
                outcome: Ok(()),
                sent_at,
            },
            SenderInput::Sent { outcome: Err(message), sent_at } => SenderInputView::Sent {
                outcome: Err(message@),
                sent_at,
            },
        }
    }
}

/// What the sending does next.
#[derive(Debug)]
pub enum SenderAction {
    NextAudio,
    SendBinary(Vec<u8>),
    SendText(String),
    Finish(SttResult<()>),
}

#[verifier::ext_equal]
pub enum SenderActionView {
    NextAudio,
    SendBinary(Seq<u8>),
    SendText(Seq<char>),
    Finish(std::result::Result<(), SttErrorView>),
}

impl View for SenderAction {
    type V = SenderActionView;

    open spec fn view(&self) -> SenderActionView {
        match *self {
            SenderAction::NextAudio => SenderActionView::NextAudio,
            SenderAction::SendBinary(bytes) => SenderActionView::SendBinary(bytes@),
            SenderAction::SendText(text) => SenderActionView::SendText(text@),
            SenderAction::Finish(Ok(())) => SenderActionView::Finish(Ok(())),
            SenderAction::Finish(Err(error)) => SenderActionView::Finish(Err(error@)),
        }
    }
}

/// One step of sending: the line that traces it, and what to do next.
#[derive(Debug)]
pub struct SenderStep {
    pub trace: Option<String>,
    pub action: SenderAction,
}

#[verifier::ext_equal]
pub struct SenderStepView {
    pub trace: Option<Seq<char>>,
    pub action: SenderActionView,
}

impl View for SenderStep {
    type V = SenderStepView;

    open spec fn view(&self) -> SenderStepView {
        SenderStepView { trace: crate::text::opt_view(self.trace), action: self.action@ }
    }
}

/// What asks for the end of what was understood.
pub open spec fn finalize_message() -> Seq<char> {
    "{\"type\":\"Finalize\"}"@
}

/// What asks for the end of the stream.
pub open spec fn close_message() -> Seq<char> {
    "{\"type\":\"CloseStream\"}"@
}

/// The line that traces the first piece of audio.
pub open spec fn first_audio_trace(elapsed_ms: u128, audio_elapsed_ms: u128) -> Seq<char> {
    "deepgram_first_audio_sent stream_elapsed_ms="@ + decimal(elapsed_ms as nat)
        + " audio_elapsed_ms="@ + decimal(audio_elapsed_ms as nat)
}

impl AudioSender {
    /// Whether an input of this form may come.
    pub open spec fn expects(self, input: SenderInputView) -> bool {
        match self.phase {
            SenderPhase::NextAudio => input is Audio,
            SenderPhase::Finished => false,
            _ => input is Sent,
        }
    }

    /// Whether the times still fit after the step.
    pub open spec fn fits(self, input: SenderInputView, timing: SentTimingView) -> bool {
        match (self.phase, input) {
            (
                SenderPhase::SendingAudio { audio_elapsed_ms, .. },
                SenderInputView::Sent { outcome: Ok(()), .. },
            ) => timing.fits(audio_elapsed_ms),
            _ => true,
        }
    }

    /// The end of sending on an error.
    pub open spec fn failed(self, timing: SentTimingView, message: Seq<char>) -> (
        AudioSender,
        SentTimingView,
        SenderStepView,
    ) {
        (
            AudioSender { phase: SenderPhase::Finished },
            timing,
            SenderStepView {
                trace: None,
                action: SenderActionView::Finish(Err(SttErrorView::Backend(message))),
            },
        )
    }

    /// One step of sending, `elapsed_ms` after the stream began: a piece without bytes is passed
    /// over; the time of each piece that was sent is recorded; and after the audio the end of what
    /// was understood, and then of the stream, is asked for.
    pub open spec fn stepped(
        self,
        timing: SentTimingView,
        input: SenderInputView,
        elapsed_ms: u128,
    ) -> (AudioSender, SentTimingView, SenderStepView) {
        match (self.phase, input) {
            (SenderPhase::NextAudio, SenderInputView::Audio(Some(chunk))) => if chunk.bytes.len()
                == 0 {
                (
                    self,
                    timing,
                    SenderStepView { trace: None, action: SenderActionView::NextAudio },
                )
            } else {
                (
                    AudioSender {
                        phase: SenderPhase::SendingAudio {
                            audio_elapsed_ms: chunk.elapsed_ms,
                            is_speech: chunk.is_speech,
                        },
                    },
                    timing,
                    SenderStepView {
                        trace: None,
                        action: SenderActionView::SendBinary(chunk.bytes),
                    },
                )
            },
            (
                SenderPhase::SendingAudio { audio_elapsed_ms, is_speech },
                SenderInputView::Sent { outcome: Ok(()), sent_at },
            ) => (
                AudioSender { phase: SenderPhase::NextAudio },
                timing.sent(sent_at, audio_elapsed_ms, is_speech),
                SenderStepView {
                    trace: if timing.first is None {
                        Some(first_audio_trace(elapsed_ms, audio_elapsed_ms))
                    } else {
                        None
                    },
                    action: SenderActionView::NextAudio,
                },
            ),
            (SenderPhase::SendingAudio { .. }, SenderInputView::Sent { outcome: Err(message), .. }) => {
                self.failed(timing, "Deepgram audio send failed: "@ + message)
            },
            (SenderPhase::NextAudio, SenderInputView::Audio(None)) => (
                AudioSender { phase: SenderPhase::SendingFinalize },
                SentTimingView { audio_input_ended_ms: Some(elapsed_ms), ..timing },
                SenderStepView {
                    trace: Some(
                        "deepgram_audio_input_ended elapsed_ms="@ + decimal(elapsed_ms as nat),
                    ),
                    action: SenderActionView::SendText(finalize_message()),
                },
            ),
            (SenderPhase::SendingFinalize, SenderInputView::Sent { outcome: Ok(()), sent_at }) => (
                AudioSender { phase: SenderPhase::SendingClose },
                SentTimingView {
                    finalize_sent_ms: Some(elapsed_ms),
                    finalize_sent_at: Some(sent_at),
                    ..timing
                },
                SenderStepView {
                    trace: Some("deepgram_finalize_sent elapsed_ms="@ + decimal(elapsed_ms as nat)),
                    action: SenderActionView::SendText(close_message()),
                },
            ),
            (SenderPhase::SendingFinalize, SenderInputView::Sent { outcome: Err(message), .. }) => {
                self.failed(timing, "Deepgram finalize send failed: "@ + message)
            },
            (SenderPhase::SendingClose, SenderInputView::Sent { outcome: Err(message), .. }) => {
                self.failed(timing, "Deepgram close send failed: "@ + message)
            },
            _ => (
                AudioSender { phase: SenderPhase::Finished },
                timing,
                SenderStepView { trace: None, action: SenderActionView::Finish(Ok(())) },
            ),
        }
    }

    pub fn new() -> (sender: AudioSender)
        ensures
            sender.phase == SenderPhase::NextAudio,
    {
        AudioSender { phase: SenderPhase::NextAudio }
    }

    fn fail(&mut self, what: &str, message: &str) -> (step: SenderStep)
        ensures
            final(self).phase == SenderPhase::Finished,
            step@ == (SenderStepView {
                trace: None,
                action: SenderActionView::Finish(Err(SttErrorView::Backend(what@ + message@))),
            }),
    {
        self.phase = SenderPhase::Finished;
        SenderStep {
            trace: None,
            action: SenderAction::Finish(Err(SttError::Backend(what.to_owned().concat(message)))),
        }
    }

    /// Takes sending one step on, `elapsed_ms` after the stream began.
    pub fn step(
        &mut self,
        timing: &mut SentAudioTiming,
        input: SenderInput,
        elapsed_ms: u128,
    ) -> (step: SenderStep)
        requires
            old(self).expects(input@),
            old(self).fits(input@, old(timing)@),
        ensures
            ({
                let (sender, times, described) = old(self).stepped(
                    old(timing)@,
                    input@,
                    elapsed_ms,
                );
                &&& *final(self) == sender
                &&& final(timing)@ == times
                &&& step@ == described
            }),
    {
        match input {
            SenderInput::Audio(Some(chunk)) => {
                if chunk.bytes.len() == 0 {
                    return SenderStep { trace: None, action: SenderAction::NextAudio };
                }
                self.phase = SenderPhase::SendingAudio {
                    audio_elapsed_ms: chunk.elapsed_ms,
                    is_speech: chunk.is_speech,
                };
                SenderStep { trace: None, action: SenderAction::SendBinary(chunk.bytes) }
            },
            SenderInput::Audio(None) => {
                timing.record_audio_input_ended(elapsed_ms);
                self.phase = SenderPhase::SendingFinalize;
                SenderStep {
                    trace: Some(
                        "deepgram_audio_input_ended elapsed_ms=".to_owned().concat(
                            decimal_text(elapsed_ms).as_str(),
                        ),
                    ),
                    action: SenderAction::SendText("{\"type\":\"Finalize\"}".to_owned()),
                }
            },
            SenderInput::Sent { outcome, sent_at } => match self.phase {
                SenderPhase::SendingAudio { audio_elapsed_ms, is_speech } => match outcome {
                    Ok(()) => {
                        let first = timing.record_sent_audio(sent_at, audio_elapsed_ms, is_speech);
                        self.phase = SenderPhase::NextAudio;
                        let trace = if first {
                            Some(
                                "deepgram_first_audio_sent stream_elapsed_ms=".to_owned().concat(
                                    decimal_text(elapsed_ms).as_str(),
                                ).concat(" audio_elapsed_ms=").concat(
                                    decimal_text(audio_elapsed_ms).as_str(),
                                ),
                            )
                        } else {
                            None
                        };
                        SenderStep { trace, action: SenderAction::NextAudio }
                    },
                    Err(message) => self.fail("Deepgram audio send failed: ", message.as_str()),
                },
                SenderPhase::SendingFinalize => match outcome {
                    Ok(()) => {
                        timing.record_finalize_sent(elapsed_ms, sent_at);
                        self.phase = SenderPhase::SendingClose;
                        SenderStep {
                            trace: Some(
                                "deepgram_finalize_sent elapsed_ms=".to_owned().concat(
                                    decimal_text(elapsed_ms).as_str(),
                                ),
                            ),
                            action: SenderAction::SendText("{\"type\":\"CloseStream\"}".to_owned()),
                        }
                    },
                    Err(message) => self.fail("Deepgram finalize send failed: ", message.as_str()),
                },
                _ => match outcome {
                    Ok(()) => {
                        self.phase = SenderPhase::Finished;
                        SenderStep { trace: None, action: SenderAction::Finish(Ok(())) }
                    },
                    Err(message) => self.fail("Deepgram close send failed: ", message.as_str()),
                },
            },
        }
    }
}

/// The sending of audio up to some point: what was handed over to be sent, in order.
#[verifier::ext_equal]
pub struct SenderRun {
    pub sender: AudioSender,
    pub timing: SentTimingView,
    /// The bytes of the pieces of audio that came.
    pub audio: Seq<Seq<u8>>,
    /// What was to be sent.
    pub sent: Seq<SenderActionView>,
    pub result: Option<std::result::Result<(), SttErrorView>>,
}

/// The sending of audio after some inputs, each with the time at which it came. An input that the
/// sender does not expect does not occur.
pub open spec fn sender_run(inputs: Seq<(SenderInputView, u128)>) -> SenderRun
    decreases inputs.len(),
{
    if inputs.len() == 0 {
        SenderRun {
            sender: AudioSender { phase: SenderPhase::NextAudio },
            timing: SentTimingView::empty(),
            audio: Seq::empty(),
            sent: Seq::empty(),
            result: None,
        }
    } else {
        let run = sender_run(inputs.drop_last());
        let (input, elapsed_ms) = inputs.last();
        if run.sender.expects(input) && run.sender.fits(input, run.timing) {
            let (sender, timing, step) = run.sender.stepped(run.timing, input, elapsed_ms);
            SenderRun {
                sender,
                timing,
                audio: match input {
                    SenderInputView::Audio(Some(chunk)) if chunk.bytes.len() > 0 => run.audio.push(
                        chunk.bytes,
                    ),
                    _ => run.audio,
                },
                sent: match step.action {
                    SenderActionView::SendBinary(_) | SenderActionView::SendText(_) => {
                        run.sent.push(step.action)
                    },
                    _ => run.sent,
                },
                result: match step.action {
                    SenderActionView::Finish(result) => Some(result),
                    _ => None,
                },
            }
        } else {
            run
        }
    }
}

/// The pieces of audio as they are sent.
pub open spec fn as_binary(audio: Seq<Seq<u8>>) -> Seq<SenderActionView> {
    audio.map_values(|bytes: Seq<u8>| SenderActionView::SendBinary(bytes))
}

/// All audio is sent as it came, but for pieces without bytes; only after it is the end of what was
/// understood asked for, and only then the end of the stream. Sending succeeds only once all of
/// that was sent.
pub proof fn audio_is_sent_before_the_end(inputs: Seq<(SenderInputView, u128)>)
    ensures
        ({
            let run = sender_run(inputs);
            let audio = as_binary(run.audio);
            let finalize = SenderActionView::SendText(finalize_message());
            let close = SenderActionView::SendText(close_message());
            &&& run.result is Some <==> run.sender.phase is Finished
            &&& match run.sender.phase {
                SenderPhase::NextAudio | SenderPhase::SendingAudio { .. } => run.sent == audio,
                SenderPhase::SendingFinalize => run.sent == audio.push(finalize),
                SenderPhase::SendingClose => run.sent == audio.push(finalize).push(close),
                SenderPhase::Finished => {
                    ||| run.sent == audio.push(finalize).push(close)
                    ||| run.result->0 is Err && (run.sent == audio || run.sent == audio.push(
                        finalize,
                    ))
                },
            }
        }),
    decreases inputs.len(),
{
    if inputs.len() == 0 {
        assert(sender_run(inputs).sent =~= as_binary(sender_run(inputs).audio));
    } else {
        audio_is_sent_before_the_end(inputs.drop_last());
        let before = sender_run(inputs.drop_last());
        let run = sender_run(inputs);
        if run.audio.len() > before.audio.len() {
            assert(as_binary(run.audio) =~= as_binary(before.audio).push(
                SenderActionView::SendBinary(run.audio.last()),
            ));
        }
    }
}

/// Whether an input is what sending waits for after `action`: audio, or whether something was sent.
pub open spec fn fits_sending(action: SenderActionView, input: SenderInputView) -> bool {
    match action {
        SenderActionView::NextAudio => input is Audio,
        SenderActionView::SendBinary(_) | SenderActionView::SendText(_) => input is Sent,
        SenderActionView::Finish(_) => false,
    }
}

/// What sending asks for on `input`, after it asked for `action`.
pub open spec fn sends_after(action: SenderActionView, input: SenderInputView) -> SenderActionView {
    match input {
        SenderInputView::Audio(Some(chunk)) => if chunk.bytes.len() > 0 {
            SenderActionView::SendBinary(chunk.bytes)
        } else {
            SenderActionView::NextAudio
        },
        SenderInputView::Audio(None) => SenderActionView::SendText("{\"type\":\"Finalize\"}"@),
        SenderInputView::Sent { outcome: Ok(()), .. } => match action {
            SenderActionView::SendText(text) => if text == "{\"type\":\"Finalize\"}"@ {
                SenderActionView::SendText("{\"type\":\"CloseStream\"}"@)
            } else {
                SenderActionView::Finish(Ok(()))
            },
            _ => SenderActionView::NextAudio,
        },
        SenderInputView::Sent { outcome: Err(message), .. } => {
            let what = match action {
                SenderActionView::SendText(text) => if text == "{\"type\":\"Finalize\"}"@ {
                    "Deepgram finalize send failed: "@
                } else {
                    "Deepgram close send failed: "@
                },
                _ => "Deepgram audio send failed: "@,
            };
            SenderActionView::Finish(Err(SttErrorView::Backend(what + message)))
        },
    }
}

/// What sending asked for, in order: audio first.
pub open spec fn sender_actions(inputs: Seq<(SenderInputView, u128)>) -> Seq<SenderActionView>
    decreases inputs.len(),
{
    if inputs.len() == 0 {
        seq![SenderActionView::NextAudio]
    } else {
        let run = sender_run(inputs.drop_last());
        let before = sender_actions(inputs.drop_last());
        let (input, elapsed_ms) = inputs.last();
        if run.sender.expects(input) && run.sender.fits(input, run.timing) {
            before.push(run.sender.stepped(run.timing, input, elapsed_ms).2.action)
        } else {
            before
        }
    }
}

/// Whether the sender is in the phase that goes with what it asked for.
spec fn sending(phase: SenderPhase, action: SenderActionView) -> bool {
    match phase {
        SenderPhase::NextAudio => action is NextAudio,
        SenderPhase::SendingAudio { .. } => action is SendBinary,
        SenderPhase::SendingFinalize => action == SenderActionView::SendText(
            "{\"type\":\"Finalize\"}"@,
        ),
        SenderPhase::SendingClose => action == SenderActionView::SendText(
            "{\"type\":\"CloseStream\"}"@,
        ),
        SenderPhase::Finished => action is Finish,
    }
}

proof fn sending_goes_with_actions(inputs: Seq<(SenderInputView, u128)>)
    ensures
        sender_actions(inputs).len() > 0,
        sending(sender_run(inputs).sender.phase, sender_actions(inputs).last()),
    decreases inputs.len(),
{
    if inputs.len() > 0 {
        sending_goes_with_actions(inputs.drop_last());
    }
}

/// Sending asks for audio until there is no more, sends each piece that has bytes before it asks for
/// the next one, and asks for the end of what was understood only once the audio has ended, and for
/// that of the stream only after that. It is over once all was sent, or with the first thing that
/// could not be, of which the error tells. When the audio ended, and when the end was asked for, is
/// recorded.
pub proof fn sending_follows_the_audio(
    inputs: Seq<(SenderInputView, u128)>,
    input: SenderInputView,
    elapsed_ms: u128,
)
    ensures
        ({
            let run = sender_run(inputs);
            let last = sender_actions(inputs).last();
            &&& run.sender.expects(input) <==> fits_sending(last, input)
            &&& fits_sending(last, input) ==> {
                let (_, times, step) = run.sender.stepped(run.timing, input, elapsed_ms);
                &&& step.action == sends_after(last, input)
                &&& times.audio_input_ended_ms == if input == SenderInputView::Audio(None) {
                    Some(elapsed_ms)
                } else {
                    run.timing.audio_input_ended_ms
                }
                &&& if step.action == SenderActionView::SendText("{\"type\":\"CloseStream\"}"@) {
                    times.finalize_sent_ms == Some(elapsed_ms) && times.finalize_sent_at == Some(
                        input->Sent_sent_at,
                    )
                } else {
                    times.finalize_sent_ms == run.timing.finalize_sent_ms
                        && times.finalize_sent_at == run.timing.finalize_sent_at
                }
            }
        }),
{
    sending_goes_with_actions(inputs);
    reveal_strlit("{\"type\":\"Finalize\"}");
    reveal_strlit("{\"type\":\"CloseStream\"}");
    assert("{\"type\":\"Finalize\"}"@.len() != "{\"type\":\"CloseStream\"}"@.len());
}

/// The pieces of audio that were sent, in order.
pub open spec fn pieces_sent(inputs: Seq<(SenderInputView, u128)>) -> Seq<SentPiece>
    decreases inputs.len(),
{
    if inputs.len() == 0 {
        Seq::empty()
    } else {
        let before = pieces_sent(inputs.drop_last());
        let run = sender_run(inputs.drop_last());
        match (sender_actions(inputs.drop_last()).last(), inputs.last().0) {
            (
                SenderActionView::SendBinary(_),
                SenderInputView::Sent { outcome: Ok(()), sent_at },
            ) if run.sender.fits(inputs.last().0, run.timing) => {
                let chunk = last_audio(inputs.drop_last());
                before.push(
                    SentPiece { sent_at, end_ms: chunk.elapsed_ms, is_speech: chunk.is_speech },
                )
            },
            _ => before,
        }
    }
}

/// The last piece of audio with bytes that came when audio was asked for.
pub open spec fn last_audio(inputs: Seq<(SenderInputView, u128)>) -> AudioChunkView
    recommends
        inputs.len() > 0,
    decreases inputs.len(),
{
    if inputs.len() == 0 {
        AudioChunkView { bytes: Seq::empty(), elapsed_ms: 0, is_speech: None }
    } else {
        match (sender_actions(inputs.drop_last()).last(), inputs.last().0) {
            (SenderActionView::NextAudio, SenderInputView::Audio(Some(chunk))) => {
                if chunk.bytes.len() > 0 {
                    chunk
                } else {
                    last_audio(inputs.drop_last())
                }
            },
            _ => last_audio(inputs.drop_last()),
        }
    }
}

/// What is recorded of sending is of the pieces that were sent, each with the times and the kind
/// that it came with.
pub proof fn sent_pieces_are_recorded(inputs: Seq<(SenderInputView, u128)>)
    ensures
        ({
            let run = sender_run(inputs);
            let times = timing_run(pieces_sent(inputs));
            &&& run.timing.first == times.first
            &&& run.timing.latest == times.latest
            &&& run.timing.latest_sent_at == times.latest_sent_at
            &&& run.timing.speech_audio_ms == times.speech_audio_ms
            &&& run.timing.total_silence_ms == times.total_silence_ms
            &&& run.timing.trailing_silence_ms == times.trailing_silence_ms
            &&& run.sender.phase matches SenderPhase::SendingAudio { audio_elapsed_ms, is_speech }
                ==> audio_elapsed_ms == last_audio(inputs).elapsed_ms && is_speech == last_audio(
                inputs,
            ).is_speech
        }),
    decreases inputs.len(),
{
    if inputs.len() > 0 {
        let rest = inputs.drop_last();
        sent_pieces_are_recorded(rest);
        sending_goes_with_actions(rest);
        let run = sender_run(rest);
        let (input, elapsed_ms) = inputs.last();
        if pieces_sent(inputs).len() > pieces_sent(rest).len() {
            assert(pieces_sent(inputs).drop_last() =~= pieces_sent(rest));
        }
    }
}

/// A line to trace, or an event to deliver.
#[derive(Debug)]
pub enum ListenOutput {
    Trace(String),
    Event(TranscriptEvent),
}

#[verifier::ext_equal]
pub enum ListenOutputView {
    Trace(Seq<char>),
    Event(TranscriptEventView),
}

impl View for ListenOutput {
    type V = ListenOutputView;

    open spec fn view(&self) -> ListenOutputView {
        match self {
            ListenOutput::Trace(line) => ListenOutputView::Trace(line@),
            ListenOutput::Event(event) => ListenOutputView::Event(event@),
        }
    }
}

/// A time that may not be known.
pub open spec fn optional_ms_text(value: Option<u128>) -> Seq<char> {
    match value {
        Some(value) => decimal(value as nat),
        None => "n/a"@,
    }
}

/// A time that may not be known.
pub fn optional_ms(value: Option<u128>) -> (text: String)
    ensures
        text@ == optional_ms_text(value),
{
    match value {
        Some(value) => decimal_text(value),
        None => "n/a".to_owned(),
    }
}

/// The line that traces where the time to a final transcript went.
pub open spec fn breakdown_trace(b: SttTimingBreakdown) -> Seq<char> {
    "stt_breakdown speech_audio_ms="@ + decimal(b.speech_audio_ms as nat) + " vad_silence_ms="@
        + decimal(b.vad_silence_ms as nat) + " total_silence_ms="@ + decimal(
        b.total_silence_ms as nat,
    ) + " audio_duration_ms="@ + decimal(b.audio_duration_ms as nat) + " deepgram_connect_ms="@
        + optional_ms_text(b.deepgram_connect_ms) + " first_interim_ms="@ + optional_ms_text(
        b.first_interim_ms,
    ) + " finalize_to_final_ms="@ + optional_ms_text(b.finalize_to_final_ms)
        + " final_emitted_ms="@ + decimal(b.final_emitted_ms as nat)
}

fn breakdown_line(b: &SttTimingBreakdown) -> (line: String)
    ensures
        line@ == breakdown_trace(*b),
{
    "stt_breakdown speech_audio_ms=".to_owned().concat(
        decimal_text(b.speech_audio_ms).as_str(),
    ).concat(" vad_silence_ms=").concat(decimal_text(b.vad_silence_ms).as_str()).concat(
        " total_silence_ms=",
    ).concat(decimal_text(b.total_silence_ms).as_str()).concat(" audio_duration_ms=").concat(
        decimal_text(b.audio_duration_ms).as_str(),
    ).concat(" deepgram_connect_ms=").concat(optional_ms(b.deepgram_connect_ms).as_str()).concat(
        " first_interim_ms=",
    ).concat(optional_ms(b.first_interim_ms).as_str()).concat(" finalize_to_final_ms=").concat(
        optional_ms(b.finalize_to_final_ms).as_str(),
    ).concat(" final_emitted_ms=").concat(decimal_text(b.final_emitted_ms).as_str())
}

/// The line that traces a final transcript.
pub open spec fn final_trace(text: Seq<char>, elapsed_ms: u128, source: Seq<char>) -> Seq<char> {
    "stt_final_emitted elapsed_ms="@ + decimal(elapsed_ms as nat) + " source="@ + source
        + " transcript_chars="@ + decimal(text_bytes(text) as nat)
}

/// What is delivered for an event: a final transcript after where the time to it went.
pub open spec fn delivered(
    timing: SentTimingView,
    since_finalize_ms: Option<u128>,
    event: TranscriptEventView,
    source: Seq<char>,
) -> Seq<ListenOutputView> {
    match event {
        TranscriptEventView::Final { text, elapsed_ms } => {
            let breakdown = timing.breakdown(elapsed_ms, since_finalize_ms);
            seq![
                ListenOutputView::Trace(breakdown_trace(breakdown)),
                ListenOutputView::Event(TranscriptEventView::Breakdown(breakdown)),
                ListenOutputView::Trace(final_trace(text, elapsed_ms, source)),
                ListenOutputView::Event(event),
            ]
        },
        _ => seq![ListenOutputView::Event(event)],
    }
}

/// Appends what is delivered for an event. Delivery of the rest is given up where an event cannot
/// be delivered.
pub fn send_transcript_event(
    output: &mut Vec<ListenOutput>,
    timing: &SentAudioTiming,
    since_finalize_ms: Option<u128>,
    event: TranscriptEvent,
    source: &str,
)
    ensures
        views(final(output)@) == views(old(output)@) + delivered(
            timing@,
            since_finalize_ms,
            event@,
            source@,
        ),
{
    if let TranscriptEvent::Final { text, elapsed_ms } = &event {
        let breakdown = timing.stt_timing_breakdown(*elapsed_ms, since_finalize_ms);
        output.push(ListenOutput::Trace(breakdown_line(&breakdown)));
        output.push(ListenOutput::Event(TranscriptEvent::Breakdown(breakdown)));
        output.push(
            ListenOutput::Trace(
                "stt_final_emitted elapsed_ms=".to_owned().concat(
                    decimal_text(*elapsed_ms).as_str(),
                ).concat(" source=").concat(source).concat(" transcript_chars=").concat(
                    decimal_text(byte_len(text.as_str()) as u128).as_str(),
                ),
            ),
        );
    }
    output.push(ListenOutput::Event(event));
    assert(views(output@) =~= views(old(output)@) + delivered(
        timing@,
        since_finalize_ms,
        event@,
        source@,
    ));
}

/// Whether a message tells of something that was understood.
pub open spec fn understood(message: ListenMessageView) -> bool {
    message.results && message.transcript is Some && message.transcript->0.len() > 0
}

/// Whether a message tells of the first interim transcript.
pub open spec fn first_interim(message: ListenMessageView, seen: bool) -> bool {
    understood(message) && !message.is_final && !seen
}

/// The lines that trace a message.
pub open spec fn message_trace(
    message: ListenMessageView,
    elapsed_ms: u128,
    seen: bool,
) -> Seq<ListenOutputView> {
    let chars = decimal(text_bytes(message.transcript->0) as nat);
    let interim = if first_interim(message, seen) {
        seq![
            ListenOutputView::Trace(
                "deepgram_first_interim elapsed_ms="@ + decimal(elapsed_ms as nat)
                    + " transcript_chars="@ + chars,
            ),
        ]
    } else {
        Seq::empty()
    };
    let speech_final = if understood(message) && message.speech_final {
        seq![
            ListenOutputView::Trace(
                "deepgram_speech_final elapsed_ms="@ + decimal(elapsed_ms as nat) + " is_final="@
                    + bool_text(message.is_final) + " transcript_chars="@ + chars,
            ),
        ]
    } else {
        Seq::empty()
    };
    interim + speech_final
}

/// A truth value's text.
pub open spec fn bool_text(value: bool) -> Seq<char> {
    if value {
        "true"@
    } else {
        "false"@
    }
}

/// A truth value's text.
pub fn bool_str(value: bool) -> (text: &'static str)
    ensures
        text@ == bool_text(value),
{
    if value {
        "true"
    } else {
        "false"
    }
}

/// The times after a message: that of the first interim transcript is recorded.
pub open spec fn timing_after(
    timing: SentTimingView,
    message: ListenMessageView,
    elapsed_ms: u128,
    seen: bool,
) -> SentTimingView {
    if first_interim(message, seen) && timing.first_interim_ms is None {
        SentTimingView { first_interim_ms: Some(elapsed_ms), ..timing }
    } else {
        timing
    }
}

/// Records and traces a message.
pub fn trace_deepgram_message(
    output: &mut Vec<ListenOutput>,
    timing: &mut SentAudioTiming,
    message: &DeepgramListenMessage,
    elapsed_ms: u128,
    first_interim_seen: &mut bool,
)
    ensures
        views(final(output)@) == views(old(output)@) + message_trace(
            message@,
            elapsed_ms,
            *old(first_interim_seen),
        ),
        final(timing)@ == timing_after(
            old(timing)@,
            message@,
            elapsed_ms,
            *old(first_interim_seen),
        ),
        *final(first_interim_seen) == (*old(first_interim_seen) || first_interim(
            message@,
            *old(first_interim_seen),
        )),
{
    let ghost seen = *first_interim_seen;
    let ghost before = views(output@);
    let ghost traced = message_trace(message@, elapsed_ms, seen);
    assert(before + Seq::<ListenOutputView>::empty() =~= before);
    if !message.is_results() {
        assert(traced =~= Seq::empty());
        return ;
    }
    let transcript = match message.transcript() {
        Some(transcript) => transcript,
        None => {
            assert(traced =~= Seq::empty());
            return ;
        },
    };
    if transcript.as_str().is_empty() {
        assert(traced =~= Seq::empty());
        return ;
    }
    let is_final = is_set(message.is_final);
    let chars: usize = byte_len(transcript.as_str());
    if !is_final && !*first_interim_seen {
        *first_interim_seen = true;
        timing.record_first_interim(elapsed_ms);
        output.push(
            ListenOutput::Trace(
                "deepgram_first_interim elapsed_ms=".to_owned().concat(
                    decimal_text(elapsed_ms).as_str(),
                ).concat(" transcript_chars=").concat(decimal_text(chars as u128).as_str()),
            ),
        );
    }
    if is_set(message.speech_final) {
        output.push(
            ListenOutput::Trace(
                "deepgram_speech_final elapsed_ms=".to_owned().concat(
                    decimal_text(elapsed_ms).as_str(),
                ).concat(" is_final=").concat(bool_str(is_final)).concat(
                    " transcript_chars=",
                ).concat(decimal_text(chars as u128).as_str()),
            ),
        );
    }
    assert(views(output@) =~= before + traced);
}

/// The line that traces where the time to a final transcript went holds each time under its name, and
/// the line that traces a final transcript its time, where it came from and how long it is.
pub proof fn traces_tell_all_times(
    b: SttTimingBreakdown,
    text: Seq<char>,
    elapsed_ms: u128,
    source: Seq<char>,
)
    ensures
        ({
            let line = breakdown_trace(b);
            let traced = final_trace(text, elapsed_ms, source);
            &&& holds(line, "speech_audio_ms="@ + decimal(b.speech_audio_ms as nat))
            &&& holds(line, " vad_silence_ms="@ + decimal(b.vad_silence_ms as nat))
            &&& holds(line, " total_silence_ms="@ + decimal(b.total_silence_ms as nat))
            &&& holds(line, " audio_duration_ms="@ + decimal(b.audio_duration_ms as nat))
            &&& holds(line, " deepgram_connect_ms="@ + time_or_none(b.deepgram_connect_ms))
            &&& holds(line, " first_interim_ms="@ + time_or_none(b.first_interim_ms))
            &&& holds(line, " finalize_to_final_ms="@ + time_or_none(b.finalize_to_final_ms))
            &&& holds(line, " final_emitted_ms="@ + decimal(b.final_emitted_ms as nat))
            &&& holds(traced, decimal(elapsed_ms as nat) + " source="@ + source)
            &&& holds(traced, " transcript_chars="@ + decimal(text_bytes(text) as nat))
        }),
{
    reveal_strlit("stt_breakdown speech_audio_ms=");
    reveal_strlit("stt_breakdown ");
    reveal_strlit("speech_audio_ms=");
    assert("stt_breakdown speech_audio_ms="@ =~= "stt_breakdown "@ + "speech_audio_ms="@);
    let mut line = "stt_breakdown speech_audio_ms="@ + decimal(b.speech_audio_ms as nat);
    holds_label("stt_breakdown "@, "speech_audio_ms="@, decimal(b.speech_audio_ms as nat));
    holds_label(line, " vad_silence_ms="@, decimal(b.vad_silence_ms as nat));
    line = line + " vad_silence_ms="@ + decimal(b.vad_silence_ms as nat);
    holds_label(line, " total_silence_ms="@, decimal(b.total_silence_ms as nat));
    line = line + " total_silence_ms="@ + decimal(b.total_silence_ms as nat);
    holds_label(line, " audio_duration_ms="@, decimal(b.audio_duration_ms as nat));
    line = line + " audio_duration_ms="@ + decimal(b.audio_duration_ms as nat);
    holds_label(line, " deepgram_connect_ms="@, time_or_none(b.deepgram_connect_ms));
    line = line + " deepgram_connect_ms="@ + time_or_none(b.deepgram_connect_ms);
    holds_label(line, " first_interim_ms="@, time_or_none(b.first_interim_ms));
    line = line + " first_interim_ms="@ + time_or_none(b.first_interim_ms);
    holds_label(line, " finalize_to_final_ms="@, time_or_none(b.finalize_to_final_ms));
    line = line + " finalize_to_final_ms="@ + time_or_none(b.finalize_to_final_ms);
    holds_label(line, " final_emitted_ms="@, decimal(b.final_emitted_ms as nat));
    line = line + " final_emitted_ms="@ + decimal(b.final_emitted_ms as nat);
    assert(line == breakdown_trace(b));
    let time = decimal(elapsed_ms as nat);
    let start = "stt_final_emitted elapsed_ms="@ + time;
    let traced = start + " source="@ + source;
    let from = time + " source="@ + source;
    assert(traced =~= "stt_final_emitted elapsed_ms="@ + from);
    holds_part("stt_final_emitted elapsed_ms="@, from, Seq::empty());
    holds_label(traced, " transcript_chars="@, decimal(text_bytes(text) as nat));
}

/// A time in decimal, or that there is none.
pub open spec fn time_or_none(value: Option<u128>) -> Seq<char> {
    if value is Some {
        decimal(value->0 as nat)
    } else {
        "n/a"@
    }
}

/// Where a transcription stands.
#[derive(Debug, Clone, Copy, PartialEq, Eq, Structural)]
pub enum ListenPhase {
    /// It reads messages.
    Reading,
    /// It waits for the end of sending.
    AwaitingSender,
    /// It is over.
    Finished,
}

/// A transcription that is running.
#[derive(Debug)]
pub struct ListenSession {
    transcript: DeepgramTranscriptState,
    first_interim_seen: bool,
    phase: ListenPhase,
}

#[verifier::ext_equal]
pub struct ListenSessionView {
    pub transcript: TranscriptStateView,
    pub first_interim_seen: bool,
    pub phase: ListenPhase,
}

impl View for ListenSession {
    type V = ListenSessionView;

    closed spec fn view(&self) -> ListenSessionView {
        ListenSessionView {
            transcript: self.transcript@,
            first_interim_seen: self.first_interim_seen,
            phase: self.phase,
        }
    }
}

/// How the task that sends audio ended.
#[derive(Debug)]
pub enum SenderEnd {
    Ended(SttResult<()>),
    Cancelled,
    Failed(String),
}

pub enum SenderEndView {
    Ended(std::result::Result<(), SttErrorView>),
    Cancelled,
    Failed(Seq<char>),
}

impl View for SenderEnd {
    type V = SenderEndView;

    open spec fn view(&self) -> SenderEndView {
        match *self {
            SenderEnd::Ended(Ok(())) => SenderEndView::Ended(Ok(())),
            SenderEnd::Ended(Err(error)) => SenderEndView::Ended(Err(error@)),
            SenderEnd::Cancelled => SenderEndView::Cancelled,
            SenderEnd::Failed(message) => SenderEndView::Failed(message@),
        }
    }
}

impl SenderEndView {
    /// Whether all audio was sent.
    pub open spec fn result(self) -> std::result::Result<(), SttErrorView> {
        match self {
            SenderEndView::Ended(result) => result,
            SenderEndView::Cancelled => Err(
                SttErrorView::Backend("Deepgram audio sender task was cancelled"@),
            ),
            SenderEndView::Failed(message) => Err(
                SttErrorView::Backend("Deepgram audio sender task failed: "@ + message),
            ),
        }
    }
}

/// The view of a result without a value.
pub open spec fn unit_view(result: SttResult<()>) -> std::result::Result<(), SttErrorView> {
    match result {
        Ok(()) => Ok(()),
        Err(error) => Err(error@),
    }
}

/// Whether all audio was sent.
pub fn await_stt_sender(end: SenderEnd) -> (result: SttResult<()>)
    ensures
        unit_view(result) == end@.result(),
{
    match end {
        SenderEnd::Ended(result) => result,
        SenderEnd::Cancelled => Err(
            SttError::Backend("Deepgram audio sender task was cancelled".to_owned()),
        ),
        SenderEnd::Failed(message) => Err(
            SttError::Backend(
                "Deepgram audio sender task failed: ".to_owned().concat(message.as_str()),
            ),
        ),
    }
}

/// What happened since the last step of a transcription.
#[derive(Debug)]
pub enum ListenInput {
    /// A text came; `message` is what it reads as in JSON, or what is wrong with it.
    Text { data: String, message: std::result::Result<DeepgramListenMessage, String> },
    /// Something came that is no text and does not close the connection.
    Other,
    /// The connection could not be read.
    ReadFailed(String),
    /// The connection was closed, or has nothing more.
    Closed,
    /// The sending of audio ended.
    Sender(SenderEnd),
}

pub enum ListenInputView {
    Text { data: Seq<char>, message: std::result::Result<ListenMessageView, Seq<char>> },
    Other,
    ReadFailed(Seq<char>),
    Closed,
    Sender(SenderEndView),
}

impl View for ListenInput {
    type V = ListenInputView;

    open spec fn view(&self) -> ListenInputView {
        match *self {
            ListenInput::Text { data, message: Ok(message) } => ListenInputView::Text {
                data: data@,
                message: Ok(message@),
            },
            ListenInput::Text { data, message: Err(fault) } => ListenInputView::Text {
                data: data@,
                message: Err(fault@),
            },
            ListenInput::Other => ListenInputView::Other,
            ListenInput::ReadFailed(message) => ListenInputView::ReadFailed(message@),
            ListenInput::Closed => ListenInputView::Closed,
            ListenInput::Sender(end) => ListenInputView::Sender(end@),
        }
    }
}

/// What a transcription waits for.
#[derive(Debug)]
pub enum ListenAction {
    Read,
    AwaitSender,
    Finish(SttResult<()>),
}

pub enum ListenActionView {
    Read,
    AwaitSender,
    Finish(std::result::Result<(), SttErrorView>),
}

impl View for ListenAction {
    type V = ListenActionView;

    open spec fn view(&self) -> ListenActionView {
        match *self {
            ListenAction::Read => ListenActionView::Read,
            ListenAction::AwaitSender => ListenActionView::AwaitSender,
            ListenAction::Finish(result) => ListenActionView::Finish(unit_view(result)),
        }
    }
}

/// One step of a transcription: what to trace and to deliver, in order, and what it waits for.
#[derive(Debug)]
pub struct ListenStep {
    pub output: Vec<ListenOutput>,
    pub action: ListenAction,
}

#[verifier::ext_equal]
pub struct ListenStepView {
    pub session: ListenSessionView,
    pub timing: SentTimingView,
    pub output: Seq<ListenOutputView>,
    pub action: ListenActionView,
}

impl ListenSessionView {
    /// Whether an input of this form may come.
    pub open spec fn expects(self, input: ListenInputView) -> bool {
        match self.phase {
            ListenPhase::Reading => !(input is Sender),
            ListenPhase::AwaitingSender => input is Sender,
            ListenPhase::Finished => false,
        }
    }

    /// The end of a transcription on an error.
    pub open spec fn failed(self, timing: SentTimingView, error: SttErrorView) -> ListenStepView {
        ListenStepView {
            session: ListenSessionView { phase: ListenPhase::Finished, ..self },
            timing,
            output: Seq::empty(),
            action: ListenActionView::Finish(Err(error)),
        }
    }

    /// The step on a message: it is traced, taken in, and what it tells is delivered.
    pub open spec fn on_message(
        self,
        timing: SentTimingView,
        message: ListenMessageView,
        elapsed_ms: u128,
        since_finalize_ms: Option<u128>,
    ) -> ListenStepView {
        let times = timing_after(timing, message, elapsed_ms, self.first_interim_seen);
        let (transcript, events) = self.transcript.ingested(message, elapsed_ms);
        let traced = message_trace(message, elapsed_ms, self.first_interim_seen);
        ListenStepView {
            session: ListenSessionView {
                transcript,
                first_interim_seen: self.first_interim_seen || first_interim(
                    message,
                    self.first_interim_seen,
                ),
                ..self
            },
            timing: times,
            output: if events.len() > 0 {
                traced + delivered(times, since_finalize_ms, events[0], "deepgram_message"@)
            } else {
                traced
            },
            action: ListenActionView::Read,
        }
    }

    /// The step on the end of sending: where all was sent, what was left is final, and then the end
    /// is told.
    pub open spec fn on_sender_end(
        self,
        timing: SentTimingView,
        end: SenderEndView,
        elapsed_ms: u128,
        since_finalize_ms: Option<u128>,
    ) -> ListenStepView {
        match end.result() {
            Err(error) => self.failed(timing, error),
            Ok(()) => {
                let (transcript, events) = self.transcript.finished(elapsed_ms);
                let done = ListenOutputView::Event(TranscriptEventView::Done);
                ListenStepView {
                    session: ListenSessionView {
                        transcript,
                        phase: ListenPhase::Finished,
                        ..self
                    },
                    timing,
                    output: if events.len() > 0 {
                        delivered(timing, since_finalize_ms, events[0], "stream_finish"@).push(done)
                    } else {
                        seq![done]
                    },
                    action: ListenActionView::Finish(Ok(())),
                }
            },
        }
    }

    /// The step on `input`, at `elapsed_ms` on the clock of the audio, `since_finalize_ms` after the
    /// end of what was understood was asked for, where it was.
    pub open spec fn stepped(
        self,
        timing: SentTimingView,
        input: ListenInputView,
        elapsed_ms: u128,
        since_finalize_ms: Option<u128>,
    ) -> ListenStepView {
        match input {
            ListenInputView::Text { message: Ok(message), .. } => self.on_message(
                timing,
                message,
                elapsed_ms,
                since_finalize_ms,
            ),
            ListenInputView::Text { data, message: Err(fault) } => self.failed(
                timing,
                unreadable_message(data, fault),
            ),
            ListenInputView::Other => ListenStepView {
                session: self,
                timing,
                output: Seq::empty(),
                action: ListenActionView::Read,
            },
            ListenInputView::ReadFailed(message) => self.failed(
                timing,
                SttErrorView::Backend("Deepgram WebSocket read failed: "@ + message),
            ),
            ListenInputView::Closed => ListenStepView {
                session: ListenSessionView { phase: ListenPhase::AwaitingSender, ..self },
                timing,
                output: Seq::empty(),
                action: ListenActionView::AwaitSender,
            },
            ListenInputView::Sender(end) => self.on_sender_end(
                timing,
                end,
                elapsed_ms,
                since_finalize_ms,
            ),
        }
    }
}

impl ListenSession {
    pub fn new() -> (session: ListenSession)
        ensures
            session@ == (ListenSessionView {
                transcript: TranscriptStateView::empty(),
                first_interim_seen: false,
                phase: ListenPhase::Reading,
            }),
    {
        ListenSession {
            transcript: DeepgramTranscriptState::new(),
            first_interim_seen: false,
            phase: ListenPhase::Reading,
        }
    }

    fn fail(&mut self, error: SttError) -> (step: ListenStep)
        ensures
            final(self)@ == (ListenSessionView { phase: ListenPhase::Finished, ..old(self)@ }),
            views(step.output@) == Seq::<ListenOutputView>::empty(),
            step.action@ == ListenActionView::Finish(Err(error@)),
    {
        self.phase = ListenPhase::Finished;
        let step = ListenStep { output: Vec::new(), action: ListenAction::Finish(Err(error)) };
        assert(views(step.output@) =~= Seq::empty());
        step
    }

    /// Takes the transcription one step on, at `elapsed_ms` on the clock of the audio and
    /// `since_finalize_ms` after the end of what was understood was asked for, where it was.
    pub fn step(
        &mut self,
        timing: &mut SentAudioTiming,
        input: ListenInput,
        elapsed_ms: u128,
        since_finalize_ms: Option<u128>,
    ) -> (step: ListenStep)
        requires
            old(self)@.expects(input@),
        ensures
            ({
                let described = old(self)@.stepped(
                    old(timing)@,
                    input@,
                    elapsed_ms,
                    since_finalize_ms,
                );
                &&& final(self)@ == described.session
                &&& final(timing)@ == described.timing
                &&& views(step.output@) == described.output
                &&& step.action@ == described.action
            }),
    {
        let ghost described = self@.stepped(timing@, input@, elapsed_ms, since_finalize_ms);
        let mut output: Vec<ListenOutput> = Vec::new();
        assert(views(output@) =~= Seq::empty());
        match input {
            ListenInput::Text { data, message } => match message {
                Ok(message) => {
                    trace_deepgram_message(
                        &mut output,
                        timing,
                        &message,
                        elapsed_ms,
                        &mut self.first_interim_seen,
                    );
                    match self.transcript.ingest(data.as_str(), Ok(&message), elapsed_ms) {
                        Ok(events) => {
                            let mut events = events;
                            let ghost told = views(events@);
                            if events.len() > 0 {
                                assert(told[0] == events@[0]@);
                                let event = events.swap_remove(0);
                                send_transcript_event(
                                    &mut output,
                                    timing,
                                    since_finalize_ms,
                                    event,
                                    "deepgram_message",
                                );
                            }
                            assert(views(output@) =~= described.output);
                            ListenStep { output, action: ListenAction::Read }
                        },
                        Err(error) => self.fail(error),
                    }
                },
                Err(fault) => {
                    match self.transcript.ingest(data.as_str(), Err(fault), elapsed_ms) {
                        Ok(_) => ListenStep { output, action: ListenAction::Read },
                        Err(error) => self.fail(error),
                    }
                },
            },
            ListenInput::Other => ListenStep { output, action: ListenAction::Read },
            ListenInput::ReadFailed(message) => self.fail(
                SttError::Backend(
                    "Deepgram WebSocket read failed: ".to_owned().concat(message.as_str()),
                ),
            ),
            ListenInput::Closed => {
                self.phase = ListenPhase::AwaitingSender;
                ListenStep { output, action: ListenAction::AwaitSender }
            },
            ListenInput::Sender(end) => match await_stt_sender(end) {
                Err(error) => self.fail(error),
                Ok(()) => {
                    self.phase = ListenPhase::Finished;
                    if let Some(event) = self.transcript.finish(elapsed_ms) {
                        send_transcript_event(
                            &mut output,
                            timing,
                            since_finalize_ms,
                            event,
                            "stream_finish",
                        );
                    }
                    output.push(ListenOutput::Event(TranscriptEvent::Done));
                    assert(views(output@) =~= described.output);
                    ListenStep { output, action: ListenAction::Finish(Ok(())) }
                },
            },
        }
    }
}

/// The events among what is traced and delivered.
pub open spec fn events_of(output: Seq<ListenOutputView>) -> Seq<TranscriptEventView>
    decreases output.len(),
{
    if output.len() == 0 {
        Seq::empty()
    } else {
        match output.last() {
            ListenOutputView::Event(event) => events_of(output.drop_last()).push(event),
            _ => events_of(output.drop_last()),
        }
    }
}

proof fn events_of_sum(a: Seq<ListenOutputView>, b: Seq<ListenOutputView>)
    ensures
        events_of(a + b) == events_of(a) + events_of(b),
    decreases b.len(),
{
    if b.len() == 0 {
        assert(a + b =~= a);
        assert(events_of(a) + events_of(b) =~= events_of(a));
    } else {
        events_of_sum(a, b.drop_last());
        assert((a + b).drop_last() =~= a + b.drop_last());
        assert(events_of(a + b) =~= events_of(a) + events_of(b));
    }
}

/// What a step may take in: the input, what sending has recorded until then, and the two times.
pub struct ListenTick {
    pub input: ListenInputView,
    pub timing: SentTimingView,
    pub elapsed_ms: u128,
    pub since_finalize_ms: Option<u128>,
}

/// A transcription up to some point: all events that were delivered, and its result where it is
/// over.
#[verifier::ext_equal]
pub struct ListenSessionRun {
    pub session: ListenSessionView,
    pub events: Seq<TranscriptEventView>,
    pub result: Option<std::result::Result<(), SttErrorView>>,
}

/// A transcription after some inputs. An input that it does not expect does not occur.
pub open spec fn session_run(ticks: Seq<ListenTick>) -> ListenSessionRun
    decreases ticks.len(),
{
    if ticks.len() == 0 {
        ListenSessionRun {
            session: ListenSessionView {
                transcript: TranscriptStateView::empty(),
                first_interim_seen: false,
                phase: ListenPhase::Reading,
            },
            events: Seq::empty(),
            result: None,
        }
    } else {
        let run = session_run(ticks.drop_last());
        let tick = ticks.last();
        if run.session.expects(tick.input) {
            let step = run.session.stepped(
                tick.timing,
                tick.input,
                tick.elapsed_ms,
                tick.since_finalize_ms,
            );
            ListenSessionRun {
                session: step.session,
                events: run.events + events_of(step.output),
                result: match step.action {
                    ListenActionView::Finish(result) => Some(result),
                    _ => None,
                },
            }
        } else {
            run
        }
    }
}

/// Whether each final transcript follows directly on where the time to it went.
pub open spec fn finals_are_broken_down(events: Seq<TranscriptEventView>) -> bool {
    forall|i: int|
        0 <= i < events.len() ==> (#[trigger] events[i] matches TranscriptEventView::Final {
            elapsed_ms,
            ..
        } ==> i > 0 && (events[i - 1] matches TranscriptEventView::Breakdown(breakdown)
            && breakdown.final_emitted_ms == elapsed_ms))
}

/// Whether no event tells of the end.
pub open spec fn no_end(events: Seq<TranscriptEventView>) -> bool {
    forall|i: int| 0 <= i < events.len() ==> !(#[trigger] events[i] is Done)
}

proof fn delivered_events(
    timing: SentTimingView,
    since_finalize_ms: Option<u128>,
    event: TranscriptEventView,
    source: Seq<char>,
)
    ensures
        events_of(delivered(timing, since_finalize_ms, event, source)) == (match event {
            TranscriptEventView::Final { elapsed_ms, .. } => seq![
                TranscriptEventView::Breakdown(timing.breakdown(elapsed_ms, since_finalize_ms)),
                event,
            ],
            _ => seq![event],
        }),
{
    let output = delivered(timing, since_finalize_ms, event, source);
    reveal_with_fuel(events_of, 5);
    if event is Final {
        assert(output.drop_last().drop_last().drop_last().drop_last() =~= Seq::empty());
        assert(events_of(output) =~= seq![output[1]->Event_0, event]);
    } else {
        assert(output.drop_last() =~= Seq::empty());
        assert(events_of(output) =~= seq![event]);
    }
}

proof fn message_trace_holds_no_event(message: ListenMessageView, elapsed_ms: u128, seen: bool)
    ensures
        events_of(message_trace(message, elapsed_ms, seen)) == Seq::<TranscriptEventView>::empty(),
{
    let traced = message_trace(message, elapsed_ms, seen);
    reveal_with_fuel(events_of, 3);
    if traced.len() == 2 {
        assert(traced.drop_last().drop_last() =~= Seq::empty());
    } else if traced.len() == 1 {
        assert(traced.drop_last() =~= Seq::empty());
    }
}

proof fn broken_down_of_sum(a: Seq<TranscriptEventView>, b: Seq<TranscriptEventView>)
    requires
        finals_are_broken_down(a),
        finals_are_broken_down(b),
    ensures
        finals_are_broken_down(a + b),
{
    let all = a + b;
    assert forall|i: int| 0 <= i < all.len() implies (
    #[trigger] all[i] matches TranscriptEventView::Final { elapsed_ms, .. } ==> i > 0 && (all[i - 1]
        matches TranscriptEventView::Breakdown(breakdown) && breakdown.final_emitted_ms
        == elapsed_ms)) by {
        if i < a.len() {
            assert(all[i] == a[i]);
        } else {
            assert(all[i] == b[i - a.len()]);
        }
    }
}

proof fn no_end_of_sum(a: Seq<TranscriptEventView>, b: Seq<TranscriptEventView>)
    requires
        no_end(a),
        no_end(b),
    ensures
        no_end(a + b),
{
}

/// What a message delivers holds no end, and its final transcript is broken down.
proof fn message_events(session: ListenSessionView, tick: ListenTick, message: ListenMessageView)
    ensures
        ({
            let step = session.on_message(
                tick.timing,
                message,
                tick.elapsed_ms,
                tick.since_finalize_ms,
            );
            finals_are_broken_down(events_of(step.output)) && no_end(events_of(step.output))
        }),
{
    let seen = session.first_interim_seen;
    let times = timing_after(tick.timing, message, tick.elapsed_ms, seen);
    let events = session.transcript.ingested(message, tick.elapsed_ms).1;
    let traced = message_trace(message, tick.elapsed_ms, seen);
    message_trace_holds_no_event(message, tick.elapsed_ms, seen);
    if events.len() > 0 {
        let part = delivered(times, tick.since_finalize_ms, events[0], "deepgram_message"@);
        events_of_sum(traced, part);
        delivered_events(times, tick.since_finalize_ms, events[0], "deepgram_message"@);
        assert(events_of(traced) + events_of(part) =~= events_of(part));
    }
}

/// What the end of sending delivers, where all was sent: the end last, and nothing else that tells
/// of it.
proof fn sender_end_events(session: ListenSessionView, tick: ListenTick, end: SenderEndView)
    requires
        end.result() is Ok,
    ensures
        ({
            let told = events_of(
                session.on_sender_end(
                    tick.timing,
                    end,
                    tick.elapsed_ms,
                    tick.since_finalize_ms,
                ).output,
            );
            &&& finals_are_broken_down(told)
            &&& told.len() > 0
            &&& told.last() is Done
            &&& no_end(told.drop_last())
        }),
{
    let output = session.on_sender_end(
        tick.timing,
        end,
        tick.elapsed_ms,
        tick.since_finalize_ms,
    ).output;
    let events = session.transcript.finished(tick.elapsed_ms).1;
    let part = output.drop_last();
    if events.len() > 0 {
        delivered_events(tick.timing, tick.since_finalize_ms, events[0], "stream_finish"@);
        assert(part =~= delivered(
            tick.timing,
            tick.since_finalize_ms,
            events[0],
            "stream_finish"@,
        ));
    } else {
        assert(part =~= Seq::empty());
    }
    assert(events_of(output) == events_of(part).push(TranscriptEventView::Done));
    assert(events_of(output).drop_last() =~= events_of(part));
}

/// Each final transcript is delivered directly after where the time to it went. The end is told
/// last, once, and exactly where the transcription succeeds.
pub proof fn transcription_is_delivered_in_order(ticks: Seq<ListenTick>)
    ensures
        ({
            let run = session_run(ticks);
            &&& finals_are_broken_down(run.events)
            &&& run.result is Some <==> run.session.phase is Finished
            &&& if run.result matches Some(Ok(())) {
                &&& run.events.len() > 0
                &&& run.events.last() is Done
                &&& no_end(run.events.drop_last())
            } else {
                no_end(run.events)
            }
        }),
    decreases ticks.len(),
{
    if ticks.len() > 0 {
        transcription_is_delivered_in_order(ticks.drop_last());
        let run = session_run(ticks.drop_last());
        let tick = ticks.last();
        if run.session.expects(tick.input) {
            let step = run.session.stepped(
                tick.timing,
                tick.input,
                tick.elapsed_ms,
                tick.since_finalize_ms,
            );
            let next = session_run(ticks);
            let told = events_of(step.output);
            match tick.input {
                ListenInputView::Text { message: Ok(message), .. } => {
                    message_events(run.session, tick, message);
                    no_end_of_sum(run.events, told);
                },
                ListenInputView::Sender(end) if end.result() is Ok => {
                    sender_end_events(run.session, tick, end);
                    no_end_of_sum(run.events, told.drop_last());
                    assert(next.events.drop_last() =~= run.events + told.drop_last());
                },
                _ => {
                    assert(step.output =~= Seq::empty());
                    no_end_of_sum(run.events, told);
                },
            }
            broken_down_of_sum(run.events, told);
        }
    }
}

/// Whether no more messages are read after this input: the connection was closed or failed, or a
/// text came that is no message.
pub open spec fn ends_reading(input: ListenInputView) -> bool {
    match input {
        ListenInputView::Text { message, .. } => message is Err,
        ListenInputView::ReadFailed(_) | ListenInputView::Closed => true,
        _ => false,
    }
}

/// Whether reading is over.
pub open spec fn reading_over(ticks: Seq<ListenTick>) -> bool
    decreases ticks.len(),
{
    ticks.len() > 0 && (reading_over(ticks.drop_last()) || ends_reading(ticks.last().input))
}

/// The messages that came until reading was over, each with the time at which it came.
pub open spec fn messages_read(ticks: Seq<ListenTick>) -> Seq<(ListenMessageView, u128)>
    decreases ticks.len(),
{
    if ticks.len() == 0 {
        Seq::empty()
    } else {
        let before = messages_read(ticks.drop_last());
        match ticks.last().input {
            ListenInputView::Text { message: Ok(message), .. } => if reading_over(
                ticks.drop_last(),
            ) {
                before
            } else {
                before.push((message, ticks.last().elapsed_ms))
            },
            _ => before,
        }
    }
}

/// The result of a transcription: an error of the first thing that could not be read, or, once the
/// connection was closed, whether all audio was sent.
pub open spec fn result_of(ticks: Seq<ListenTick>) -> Option<std::result::Result<(), SttErrorView>>
    decreases ticks.len(),
{
    if ticks.len() == 0 {
        None
    } else if result_of(ticks.drop_last()) is Some {
        result_of(ticks.drop_last())
    } else if reading_over(ticks.drop_last()) {
        match ticks.last().input {
            ListenInputView::Sender(SenderEndView::Ended(Ok(()))) => Some(Ok(())),
            ListenInputView::Sender(SenderEndView::Ended(Err(error))) => Some(Err(error)),
            ListenInputView::Sender(SenderEndView::Cancelled) => Some(
                Err(SttErrorView::Backend("Deepgram audio sender task was cancelled"@)),
            ),
            ListenInputView::Sender(SenderEndView::Failed(message)) => Some(
                Err(SttErrorView::Backend("Deepgram audio sender task failed: "@ + message)),
            ),
            _ => None,
        }
    } else {
        match ticks.last().input {
            ListenInputView::Text { data, message: Err(fault) } => Some(
                Err(
                    SttErrorView::Backend(
                        "invalid Deepgram transcript JSON: "@ + fault + "; data="@ + debug_form(
                            data,
                        ),
                    ),
                ),
            ),
            ListenInputView::ReadFailed(message) => Some(
                Err(SttErrorView::Backend("Deepgram WebSocket read failed: "@ + message)),
            ),
            _ => None,
        }
    }
}

/// The transcripts among events, in order.
pub open spec fn transcripts_of(events: Seq<TranscriptEventView>) -> Seq<TranscriptEventView>
    decreases events.len(),
{
    if events.len() == 0 {
        Seq::empty()
    } else {
        let before = transcripts_of(events.drop_last());
        if events.last() is Partial || events.last() is Final {
            before.push(events.last())
        } else {
            before
        }
    }
}

proof fn transcripts_of_sum(a: Seq<TranscriptEventView>, b: Seq<TranscriptEventView>)
    ensures
        transcripts_of(a + b) == transcripts_of(a) + transcripts_of(b),
    decreases b.len(),
{
    if b.len() == 0 {
        assert(a + b =~= a);
        assert(transcripts_of(a) + transcripts_of(b) =~= transcripts_of(a));
    } else {
        transcripts_of_sum(a, b.drop_last());
        assert((a + b).drop_last() =~= a + b.drop_last());
        assert(transcripts_of(a + b) =~= transcripts_of(a) + transcripts_of(b));
    }
}

/// What is delivered for a transcript holds that transcript, and no other.
proof fn delivered_transcripts(
    timing: SentTimingView,
    since_finalize_ms: Option<u128>,
    event: TranscriptEventView,
    source: Seq<char>,
)
    requires
        event is Partial || event is Final,
    ensures
        transcripts_of(events_of(delivered(timing, since_finalize_ms, event, source))) == seq![
            event,
        ],
{
    delivered_events(timing, since_finalize_ms, event, source);
    let told = events_of(delivered(timing, since_finalize_ms, event, source));
    reveal_with_fuel(transcripts_of, 3);
    if event is Final {
        assert(told.drop_last().drop_last() =~= Seq::empty());
    } else {
        assert(told.drop_last() =~= Seq::empty());
    }
    assert(transcripts_of(told) =~= seq![event]);
}

/// A final transcript is delivered after where the time to it went, as the times until then say it;
/// any other event is delivered alone.
pub proof fn finals_follow_their_times(
    timing: SentTimingView,
    since_finalize_ms: Option<u128>,
    event: TranscriptEventView,
    source: Seq<char>,
)
    ensures
        ({
            let events = events_of(delivered(timing, since_finalize_ms, event, source));
            &&& events.len() > 0 && events.last() == event
            &&& !(event is Final) ==> events.len() == 1
            &&& event is Final ==> events.len() == 2 && events[0] is Breakdown && {
                let told = events[0]->Breakdown_0;
                &&& told.speech_audio_ms == timing.speech_audio_ms
                &&& told.vad_silence_ms == timing.trailing_silence_ms
                &&& told.total_silence_ms == timing.total_silence_ms
                &&& told.audio_duration_ms == (if timing.latest is Some {
                    timing.latest->0
                } else {
                    0
                })
                &&& told.deepgram_connect_ms == timing.deepgram_connect_ms
                &&& told.first_interim_ms == timing.first_interim_ms
                &&& told.finalize_to_final_ms == since_finalize_ms
                &&& told.final_emitted_ms == event->Final_elapsed_ms
            }
        }),
{
    delivered_events(timing, since_finalize_ms, event, source);
}

/// Whether a message tells of something that was understood, and is not final.
pub open spec fn tells_interim(message: ListenMessageView) -> bool {
    message.results && !message.is_final && message.transcript is Some && message.transcript->0.len()
        > 0
}

/// Whether one of the messages tells of something that was understood, and is not final.
pub open spec fn any_interim(messages: Seq<(ListenMessageView, u128)>) -> bool
    decreases messages.len(),
{
    messages.len() > 0 && (any_interim(messages.drop_last()) || tells_interim(messages.last().0))
}

proof fn result_follows_ticks(ticks: Seq<ListenTick>)
    ensures
        ({
            let run = session_run(ticks);
            &&& run.result == result_of(ticks)
            &&& run.session.phase is Reading <==> !reading_over(ticks)
            &&& run.session.phase is AwaitingSender <==> reading_over(ticks) && run.result is None
        }),
    decreases ticks.len(),
{
    if ticks.len() > 0 {
        let rest = ticks.drop_last();
        result_follows_ticks(rest);
        transcription_is_delivered_in_order(rest);
        let run = session_run(rest);
        if run.session.expects(ticks.last().input) {
            assert(run.result is None);
        }
    }
}

/// A transcription delivers what its messages come to, whatever else comes between them: the
/// transcripts that it delivers are those that the messages tell that came until reading was over.
/// At the end, where all audio was sent, what was left follows, as the messages leave it. Its result
/// is that of the first thing that could not be read, or that of sending.
#[verifier::rlimit(40)]
pub proof fn transcripts_of_all_messages_are_delivered(ticks: Seq<ListenTick>)
    ensures
        ({
            let run = session_run(ticks);
            let read = transcript_run(messages_read(ticks));
            &&& run.result == result_of(ticks)
            &&& !(run.result matches Some(Ok(()))) ==> {
                &&& transcripts_of(run.events) == read.told
                &&& run.session.transcript == read.state
            }
            &&& run.session.phase is Reading <==> !reading_over(ticks)
            &&& run.session.phase is AwaitingSender <==> reading_over(ticks) && run.result is None
            &&& run.session.first_interim_seen <==> any_interim(messages_read(ticks))
            &&& ticks.len() > 0 && session_run(ticks.drop_last()).result is None && (run.result
                matches Some(Ok(()))) ==> transcripts_of(run.events) == read.told
                + read.state.finished(ticks.last().elapsed_ms).1
        }),
    decreases ticks.len(),
{
    result_follows_ticks(ticks);
    if ticks.len() > 0 {
        let rest = ticks.drop_last();
        let tick = ticks.last();
        result_follows_ticks(rest);
        transcripts_of_all_messages_are_delivered(rest);
        let run = session_run(rest);
        let next = session_run(ticks);
        let read = transcript_run(messages_read(rest));
        if run.session.expects(tick.input) {
            let step = run.session.stepped(
                tick.timing,
                tick.input,
                tick.elapsed_ms,
                tick.since_finalize_ms,
            );
            let told = events_of(step.output);
            transcripts_of_sum(run.events, told);
            match tick.input {
                ListenInputView::Text { message: Ok(message), .. } => {
                    let seen = run.session.first_interim_seen;
                    let times = timing_after(tick.timing, message, tick.elapsed_ms, seen);
                    let events = run.session.transcript.ingested(message, tick.elapsed_ms).1;
                    let traced = message_trace(message, tick.elapsed_ms, seen);
                    message_trace_holds_no_event(message, tick.elapsed_ms, seen);
                    let all = messages_read(ticks);
                    assert(all.drop_last() =~= messages_read(rest));
                    if events.len() > 0 {
                        let part = delivered(
                            times,
                            tick.since_finalize_ms,
                            events[0],
                            "deepgram_message"@,
                        );
                        events_of_sum(traced, part);
                        delivered_transcripts(
                            times,
                            tick.since_finalize_ms,
                            events[0],
                            "deepgram_message"@,
                        );
                        assert(events_of(traced) + events_of(part) =~= events_of(part));
                        assert(events =~= seq![events[0]]);
                    } else {
                        assert(transcripts_of(told) =~= Seq::empty());
                    }
                    assert(transcripts_of(told) =~= events);
                },
                ListenInputView::Sender(end) if end.result() is Ok => {
                    let events = run.session.transcript.finished(tick.elapsed_ms).1;
                    let part = step.output.drop_last();
                    assert(events_of(step.output) == events_of(part).push(
                        TranscriptEventView::Done,
                    ));
                    assert(told.drop_last() =~= events_of(part));
                    if events.len() > 0 {
                        delivered_transcripts(
                            tick.timing,
                            tick.since_finalize_ms,
                            events[0],
                            "stream_finish"@,
                        );
                        assert(part =~= delivered(
                            tick.timing,
                            tick.since_finalize_ms,
                            events[0],
                            "stream_finish"@,
                        ));
                        assert(events =~= seq![events[0]]);
                    } else {
                        assert(part =~= Seq::empty());
                        assert(transcripts_of(events_of(part)) =~= Seq::empty());
                    }
                    assert(transcripts_of(told) =~= events);
                },
                _ => {
                    assert(step.output =~= Seq::empty());
                    assert(transcripts_of(run.events) + transcripts_of(told) =~= transcripts_of(
                        run.events,
                    ));
                },
            }
        }
    }
}

/// The first message that tells something understood that is not final has its time recorded, once.
pub proof fn the_first_interim_is_recorded(ticks: Seq<ListenTick>, tick: ListenTick)
    ensures
        ({
            let run = session_run(ticks);
            let step = run.session.stepped(
                tick.timing,
                tick.input,
                tick.elapsed_ms,
                tick.since_finalize_ms,
            );
            let first = (tick.input matches ListenInputView::Text { message: Ok(message), .. }
                && tells_interim(message)) && !any_interim(messages_read(ticks))
                && tick.timing.first_interim_ms is None;
            step.timing == if first {
                SentTimingView { first_interim_ms: Some(tick.elapsed_ms), ..tick.timing }
            } else {
                tick.timing
            }
        }),
{
    transcripts_of_all_messages_are_delivered(ticks);
}

} // verus!
