//! A speech's course: the text goes out at once, and audio comes in.
use vstd::prelude::*;

use crate::llm::StatusCode;
use crate::text::{
    chars_of, text_of, trim, trimmed, trimming_leaves_the_middle, views, white_space,
};
use crate::time::Duration;
use crate::voice::deepgram::DeepgramConfig;
use crate::voice::{Result, TtsError, TtsErrorView, TtsEvent, TtsEventView};

verus! {

/// A text cut to at most `max_chars` characters; dots at its end stand for what was cut, where
/// there is room for them.
pub open spec fn truncated(input: Seq<char>, max_chars: int) -> Seq<char> {
    if input.len() <= max_chars {
        input
    } else if max_chars >= 3 {
        input.take(max_chars - 3) + "..."@
    } else {
        Seq::empty()
    }
}

/// A text cut to at most `max_chars` characters.
pub fn truncate_tts_input(input: String, max_chars: usize) -> (output: String)
    ensures
        output@ == truncated(input@, max_chars as int),
{
    let chars = chars_of(input.as_str());
    if chars.len() <= max_chars {
        return input;
    }
    if max_chars >= 3 {
        let kept = text_of(&chars, 0, max_chars - 3);
        assert(kept@ =~= chars@.take(max_chars - 3));
        kept.concat("...")
    } else {
        let output = String::new();
        assert(output@ =~= Seq::empty());
        output
    }
}

/// A text that was cut is no longer than allowed; one that was too long, and had room for the dots,
/// is exactly as long as allowed; and one that was not too long is kept.
pub proof fn truncation_keeps_the_limit(input: Seq<char>, max_chars: int)
    requires
        0 <= max_chars,
    ensures
        truncated(input, max_chars).len() <= max_chars,
        input.len() > max_chars >= 3 ==> truncated(input, max_chars).len() == max_chars,
        input.len() <= max_chars ==> truncated(input, max_chars) == input,
        truncated(truncated(input, max_chars), max_chars) == truncated(input, max_chars),
{
    reveal_strlit("...");
}

/// The error of a request for speech, or of a read of its audio, that failed.
pub fn map_reqwest_tts_error(timed_out: bool, message: &str) -> (error: TtsError)
    ensures
        error@ == request_fault(timed_out, message@),
{
    if timed_out {
        TtsError::Backend("Deepgram TTS request timed out".to_owned())
    } else {
        TtsError::Backend("Deepgram TTS request failed: ".to_owned().concat(message))
    }
}

/// The error of a request for speech, or of a read of its audio, that failed.
pub open spec fn request_fault(timed_out: bool, message: Seq<char>) -> TtsErrorView {
    TtsErrorView::Backend(
        if timed_out {
            "Deepgram TTS request timed out"@
        } else {
            "Deepgram TTS request failed: "@ + message
        },
    )
}

/// The error of a request for speech that was refused.
pub open spec fn status_fault(status: Seq<char>, body: Seq<char>) -> TtsErrorView {
    TtsErrorView::Backend("Deepgram TTS returned HTTP "@ + status + ": "@ + body)
}

/// The error of a request for speech that was refused.
pub fn deepgram_tts_status_error(status: &StatusCode, body: &str) -> (error: TtsError)
    ensures
        error@ == status_fault(status@.text, body@),
{
    TtsError::Backend(
        "Deepgram TTS returned HTTP ".to_owned().concat(status.text.as_str()).concat(": ").concat(
            body,
        ),
    )
}

/// A request for speech: where to, with which authorization, for how long, and the text to speak.
#[derive(Debug)]
pub struct SpeakRequest {
    pub url: String,
    pub authorization: String,
    pub timeout: Duration,
    pub text: String,
}

#[verifier::ext_equal]
pub struct SpeakRequestView {
    pub url: Seq<char>,
    pub authorization: Seq<char>,
    pub timeout: Duration,
    pub text: Seq<char>,
}

impl View for SpeakRequest {
    type V = SpeakRequestView;

    open spec fn view(&self) -> SpeakRequestView {
        SpeakRequestView {
            url: self.url@,
            authorization: self.authorization@,
            timeout: self.timeout,
            text: self.text@,
        }
    }
}

/// The request to speak `text`.
pub open spec fn speak_request(config: DeepgramConfig, text: Seq<char>) -> SpeakRequestView {
    SpeakRequestView {
        url: config.speak_url@,
        authorization: "Token "@ + config.api_key@,
        timeout: config.timeout,
        text: truncated(text, config.tts_max_chars as int),
    }
}

/// Where a speech stands.
#[derive(Debug)]
pub enum SpeakPhase {
    /// It collects the text.
    Collecting { input: String },
    /// It waits for the answer to its request.
    Requested,
    /// It reads audio.
    Reading { first_audio_sent: bool },
    /// It is over.
    Finished,
}

#[verifier::ext_equal]
pub enum SpeakPhaseView {
    Collecting { input: Seq<char> },
    Requested,
    Reading { first_audio_sent: bool },
    Finished,
}

impl View for SpeakPhase {
    type V = SpeakPhaseView;

    open spec fn view(&self) -> SpeakPhaseView {
        match *self {
            SpeakPhase::Collecting { input } => SpeakPhaseView::Collecting { input: input@ },
            SpeakPhase::Requested => SpeakPhaseView::Requested,
            SpeakPhase::Reading { first_audio_sent } => SpeakPhaseView::Reading {
                first_audio_sent,
            },
            SpeakPhase::Finished => SpeakPhaseView::Finished,
        }
    }
}

/// What happened since the last step of a speech.
#[derive(Debug)]
pub enum SpeakInput {
    /// A fragment of the text came; `None` where there is no more.
    Text(Option<String>),
    /// The request, or a read, failed.
    Failed { timed_out: bool, message: String },
    /// The answer came; `body` is its body where the request was refused.
    Response { status: StatusCode, body: String },
    /// Audio came; `None` where there is no more.
    Audio(Option<Vec<u8>>),
}

pub enum SpeakInputView {
    Text(Option<Seq<char>>),
    Failed { timed_out: bool, message: Seq<char> },
    Response { code: u16, status: Seq<char>, body: Seq<char> },
    Audio(Option<Seq<u8>>),
}

impl View for SpeakInput {
    type V = SpeakInputView;

    open spec fn view(&self) -> SpeakInputView {
        match *self {
            SpeakInput::Text(Some(fragment)) => SpeakInputView::Text(Some(fragment@)),
            SpeakInput::Text(None) => SpeakInputView::Text(None),
            SpeakInput::Failed { timed_out, message } => SpeakInputView::Failed {
                timed_out,
                message: message@,
            },
            SpeakInput::Response { status, body } => SpeakInputView::Response {
                code: status@.code,
                status: status@.text,
                body: body@,
            },
            SpeakInput::Audio(Some(bytes)) => SpeakInputView::Audio(Some(bytes@)),
            SpeakInput::Audio(None) => SpeakInputView::Audio(None),
        }
    }
}

/// What a speech does next.
#[derive(Debug)]
pub enum SpeakAction {
    NextText,
    Request(SpeakRequest),
    NextAudio,
    Finish(Result<()>),
}

#[verifier::ext_equal]
pub enum SpeakActionView {
    NextText,
    Request(SpeakRequestView),
    NextAudio,
    Finish(std::result::Result<(), TtsErrorView>),
}

impl View for SpeakAction {
    type V = SpeakActionView;

    open spec fn view(&self) -> SpeakActionView {
        match *self {
            SpeakAction::NextText => SpeakActionView::NextText,
            SpeakAction::Request(request) => SpeakActionView::Request(request@),
            SpeakAction::NextAudio => SpeakActionView::NextAudio,
            SpeakAction::Finish(Ok(())) => SpeakActionView::Finish(Ok(())),
            SpeakAction::Finish(Err(error)) => SpeakActionView::Finish(Err(error@)),
        }
    }
}

/// One step of a speech: the events to deliver, in order, and what to do next. A speech whose event
/// cannot be delivered is given up.
#[derive(Debug)]
pub struct SpeakStep {
    pub events: Vec<TtsEvent>,
    pub action: SpeakAction,
}

#[verifier::ext_equal]
pub struct SpeakStepView {
    pub phase: SpeakPhaseView,
    pub events: Seq<TtsEventView>,
    pub action: SpeakActionView,
}

impl SpeakPhaseView {
    /// Whether an input of this form may come.
    pub open spec fn expects(self, input: SpeakInputView) -> bool {
        match self {
            SpeakPhaseView::Collecting { .. } => input is Text,
            SpeakPhaseView::Requested => input is Failed || input is Response,
            SpeakPhaseView::Reading { .. } => input is Failed || input is Audio,
            SpeakPhaseView::Finished => false,
        }
    }

    /// The end of a speech on an error.
    pub open spec fn failed(self, error: TtsErrorView) -> SpeakStepView {
        SpeakStepView {
            phase: SpeakPhaseView::Finished,
            events: Seq::empty(),
            action: SpeakActionView::Finish(Err(error)),
        }
    }

    /// The end of a speech.
    pub open spec fn done(self) -> SpeakStepView {
        SpeakStepView {
            phase: SpeakPhaseView::Finished,
            events: seq![TtsEventView::Done],
            action: SpeakActionView::Finish(Ok(())),
        }
    }

    /// The step on `input`, `elapsed_ms` after the text stream began: the whole text is requested
    /// once there is no more of it, unless it is white space alone; audio is told as it comes, but
    /// for pieces without bytes.
    pub open spec fn stepped(
        self,
        config: DeepgramConfig,
        input: SpeakInputView,
        elapsed_ms: u128,
    ) -> SpeakStepView {
        match (self, input) {
            (
                SpeakPhaseView::Collecting { input },
                SpeakInputView::Text(Some(fragment)),
            ) => SpeakStepView {
                phase: SpeakPhaseView::Collecting { input: input + fragment },
                events: Seq::empty(),
                action: SpeakActionView::NextText,
            },
            (SpeakPhaseView::Collecting { input }, SpeakInputView::Text(None)) => if trimmed(
                input,
            ).len() == 0 {
                self.done()
            } else {
                SpeakStepView {
                    phase: SpeakPhaseView::Requested,
                    events: Seq::empty(),
                    action: SpeakActionView::Request(speak_request(config, input)),
                }
            },
            (_, SpeakInputView::Failed { timed_out, message }) => self.failed(
                request_fault(timed_out, message),
            ),
            (_, SpeakInputView::Response { code, status, body }) => if 200 <= code < 300 {
                SpeakStepView {
                    phase: SpeakPhaseView::Reading { first_audio_sent: false },
                    events: Seq::empty(),
                    action: SpeakActionView::NextAudio,
                }
            } else {
                self.failed(status_fault(status, body))
            },
            (
                SpeakPhaseView::Reading { first_audio_sent },
                SpeakInputView::Audio(Some(bytes)),
            ) => if bytes.len() == 0 {
                SpeakStepView {
                    phase: self,
                    events: Seq::empty(),
                    action: SpeakActionView::NextAudio,
                }
            } else {
                let first = if first_audio_sent {
                    Seq::empty()
                } else {
                    seq![TtsEventView::FirstAudio { elapsed_ms }]
                };
                SpeakStepView {
                    phase: SpeakPhaseView::Reading { first_audio_sent: true },
                    events: first.push(TtsEventView::AudioChunk { bytes, elapsed_ms }),
                    action: SpeakActionView::NextAudio,
                }
            },
            _ => self.done(),
        }
    }
}

/// A speech that is running.
#[derive(Debug)]
pub struct SpeakStream {
    phase: SpeakPhase,
}

impl View for SpeakStream {
    type V = SpeakPhaseView;

    closed spec fn view(&self) -> SpeakPhaseView {
        self.phase@
    }
}

impl SpeakStream {
    pub fn new() -> (stream: SpeakStream)
        ensures
            stream@ == (SpeakPhaseView::Collecting { input: Seq::empty() }),
    {
        let stream = SpeakStream { phase: SpeakPhase::Collecting { input: String::new() } };
        assert(stream@ =~= (SpeakPhaseView::Collecting { input: Seq::empty() }));
        stream
    }

    fn done(&mut self) -> (step: SpeakStep)
        ensures
            final(self)@ == SpeakPhaseView::Finished,
            views(step.events@) == seq![TtsEventView::Done],
            step.action@ == SpeakActionView::Finish(Ok(())),
    {
        self.phase = SpeakPhase::Finished;
        let mut events: Vec<TtsEvent> = Vec::new();
        events.push(TtsEvent::Done);
        assert(views(events@) =~= seq![TtsEventView::Done]);
        SpeakStep { events, action: SpeakAction::Finish(Ok(())) }
    }

    fn fail(&mut self, error: TtsError) -> (step: SpeakStep)
        ensures
            final(self)@ == SpeakPhaseView::Finished,
            views(step.events@) == Seq::<TtsEventView>::empty(),
            step.action@ == SpeakActionView::Finish(Err(error@)),
    {
        self.phase = SpeakPhase::Finished;
        let events: Vec<TtsEvent> = Vec::new();
        assert(views(events@) =~= Seq::empty());
        SpeakStep { events, action: SpeakAction::Finish(Err(error)) }
    }

    /// Takes the speech one step on, `elapsed_ms` after the text stream began.
    pub fn step(
        &mut self,
        config: &DeepgramConfig,
        input: SpeakInput,
        elapsed_ms: u128,
    ) -> (step: SpeakStep)
        requires
            old(self)@.expects(input@),
        ensures
            ({
                let described = old(self)@.stepped(*config, input@, elapsed_ms);
                &&& final(self)@ == described.phase
                &&& views(step.events@) == described.events
                &&& step.action@ == described.action
            }),
    {
        let ghost described = self@.stepped(*config, input@, elapsed_ms);
        let mut events: Vec<TtsEvent> = Vec::new();
        assert(views(events@) =~= Seq::empty());
        match input {
            SpeakInput::Text(fragment) => {
                let mut phase = SpeakPhase::Finished;
                std::mem::swap(&mut phase, &mut self.phase);
                let mut collected = match phase {
                    SpeakPhase::Collecting { input } => input,
                    _ => String::new(),
                };
                match fragment {
                    Some(fragment) => {
                        collected.append(fragment.as_str());
                        self.phase = SpeakPhase::Collecting { input: collected };
                        SpeakStep { events, action: SpeakAction::NextText }
                    },
                    None => {
                        if trim(collected.as_str()).as_str().is_empty() {
                            return self.done();
                        }
                        self.phase = SpeakPhase::Requested;
                        let request = SpeakRequest {
                            url: config.speak_url.clone(),
                            authorization: "Token ".to_owned().concat(config.api_key.as_str()),
                            timeout: config.timeout,
                            text: truncate_tts_input(collected, config.tts_max_chars),
                        };
                        SpeakStep { events, action: SpeakAction::Request(request) }
                    },
                }
            },
            SpeakInput::Failed { timed_out, message } => self.fail(
                map_reqwest_tts_error(timed_out, message.as_str()),
            ),
            SpeakInput::Response { status, body } => {
                if !status.is_success() {
                    return self.fail(deepgram_tts_status_error(&status, body.as_str()));
                }
                self.phase = SpeakPhase::Reading { first_audio_sent: false };
                SpeakStep { events, action: SpeakAction::NextAudio }
            },
            SpeakInput::Audio(Some(bytes)) => {
                if bytes.len() > 0 {
                    let first = match &self.phase {
                        SpeakPhase::Reading { first_audio_sent } => !*first_audio_sent,
                        _ => false,
                    };
                    if first {
                        events.push(TtsEvent::FirstAudio { elapsed_ms });
                    }
                    events.push(TtsEvent::AudioChunk { bytes, elapsed_ms });
                    self.phase = SpeakPhase::Reading { first_audio_sent: true };
                    assert(views(events@) =~= described.events);
                }
                SpeakStep { events, action: SpeakAction::NextAudio }
            },
            SpeakInput::Audio(None) => self.done(),
        }
    }
}

/// A speech up to some point: the text and the audio that came, what was requested, the events that
/// were delivered, and its result where it is over.
#[verifier::ext_equal]
pub struct SpeakRun {
    pub phase: SpeakPhaseView,
    pub text: Seq<char>,
    pub audio: Seq<(Seq<u8>, u128)>,
    pub requests: Seq<SpeakRequestView>,
    pub events: Seq<TtsEventView>,
    pub result: Option<std::result::Result<(), TtsErrorView>>,
}

/// A speech after some inputs, each with the time at which it came. An input that it does not
/// expect does not occur.
pub open spec fn speak_run(config: DeepgramConfig, inputs: Seq<(SpeakInputView, u128)>) -> SpeakRun
    decreases inputs.len(),
{
    if inputs.len() == 0 {
        SpeakRun {
            phase: SpeakPhaseView::Collecting { input: Seq::empty() },
            text: Seq::empty(),
            audio: Seq::empty(),
            requests: Seq::empty(),
            events: Seq::empty(),
            result: None,
        }
    } else {
        let run = speak_run(config, inputs.drop_last());
        let (input, elapsed_ms) = inputs.last();
        if run.phase.expects(input) {
            let step = run.phase.stepped(config, input, elapsed_ms);
            SpeakRun {
                phase: step.phase,
                text: match input {
                    SpeakInputView::Text(Some(fragment)) => run.text + fragment,
                    _ => run.text,
                },
                audio: match input {
                    SpeakInputView::Audio(Some(bytes)) if bytes.len() > 0 => run.audio.push(
                        (bytes, elapsed_ms),
                    ),
                    _ => run.audio,
                },
                requests: match step.action {
                    SpeakActionView::Request(request) => run.requests.push(request),
                    _ => run.requests,
                },
                events: run.events + step.events,
                result: match step.action {
                    SpeakActionView::Finish(result) => Some(result),
                    _ => None,
                },
            }
        } else {
            run
        }
    }
}

/// The events that tell audio: its first piece is announced, at its time.
pub open spec fn audio_events(audio: Seq<(Seq<u8>, u128)>) -> Seq<TtsEventView> {
    let chunks = audio.map_values(
        |piece: (Seq<u8>, u128)|
            TtsEventView::AudioChunk { bytes: piece.0, elapsed_ms: piece.1 },
    );
    if audio.len() > 0 {
        seq![TtsEventView::FirstAudio { elapsed_ms: audio[0].1 }] + chunks
    } else {
        chunks
    }
}

/// A speech is requested at most once, with the whole text, cut to the limit; where the text is
/// white space alone it is not requested at all. All audio is told as it came, after its first piece
/// was announced; and the end is told last, exactly where the speech succeeds.
pub proof fn speech_is_requested_once_and_told_in_order(
    config: DeepgramConfig,
    inputs: Seq<(SpeakInputView, u128)>,
)
    ensures
        ({
            let run = speak_run(config, inputs);
            &&& run.phase matches SpeakPhaseView::Collecting { input } ==> input == run.text
                && run.requests.len() == 0
            &&& run.requests.len() == 0 || run.requests == seq![speak_request(config, run.text)]
            &&& trimmed(run.text).len() == 0 ==> run.requests.len() == 0
            &&& run.phase is Requested || run.phase is Reading ==> run.requests.len() == 1
            &&& !(run.phase is Reading || run.phase is Finished) ==> run.audio.len() == 0
            &&& run.phase matches SpeakPhaseView::Reading { first_audio_sent } ==> first_audio_sent
                == (run.audio.len() > 0)
            &&& run.result is Some <==> run.phase is Finished
            &&& run.events == if run.result matches Some(Ok(())) {
                audio_events(run.audio).push(TtsEventView::Done)
            } else {
                audio_events(run.audio)
            }
        }),
    decreases inputs.len(),
{
    let run = speak_run(config, inputs);
    if inputs.len() == 0 {
        assert(run.events =~= audio_events(run.audio));
    } else {
        speech_is_requested_once_and_told_in_order(config, inputs.drop_last());
        let before = speak_run(config, inputs.drop_last());
        let (input, elapsed_ms) = inputs.last();
        if before.phase.expects(input) {
            let step = before.phase.stepped(config, input, elapsed_ms);
            if step.action is Request {
                assert(run.requests =~= seq![speak_request(config, run.text)]);
            }
            match input {
                SpeakInputView::Audio(Some(bytes)) if bytes.len() > 0 => {
                    assert(run.events =~= audio_events(run.audio));
                },
                _ => {
                    if step.events.len() == 0 {
                        assert(run.events =~= before.events);
                    } else {
                        assert(run.events =~= before.events.push(TtsEventView::Done));
                    }
                },
            }
        }
    }
}

/// Whether an input is what a speech waits for after `action`.
pub open spec fn fits_speaking(action: SpeakActionView, input: SpeakInputView) -> bool {
    match action {
        SpeakActionView::NextText => input is Text,
        SpeakActionView::Request(_) => input is Failed || input is Response,
        SpeakActionView::NextAudio => input is Failed || input is Audio,
        SpeakActionView::Finish(_) => false,
    }
}

/// What a speech of `text` asks for on `input`, after text or audio was asked for or a request was
/// made.
pub open spec fn speaks_after(
    config: DeepgramConfig,
    text: Seq<char>,
    input: SpeakInputView,
) -> SpeakActionView {
    match input {
        SpeakInputView::Text(Some(_)) => SpeakActionView::NextText,
        SpeakInputView::Text(None) => if exists|i: int|
            0 <= i < text.len() && !white_space(#[trigger] text[i]) {
            SpeakActionView::Request(speak_request(config, text))
        } else {
            SpeakActionView::Finish(Ok(()))
        },
        SpeakInputView::Failed { timed_out, message } => {
            let fault = if timed_out {
                "Deepgram TTS request timed out"@
            } else {
                "Deepgram TTS request failed: "@ + message
            };
            SpeakActionView::Finish(Err(TtsErrorView::Backend(fault)))
        },
        SpeakInputView::Response { code, status, body } => if code / 100 == 2 {
            SpeakActionView::NextAudio
        } else {
            SpeakActionView::Finish(
                Err(
                    TtsErrorView::Backend(
                        "Deepgram TTS returned HTTP "@ + status + ": "@ + body,
                    ),
                ),
            )
        },
        SpeakInputView::Audio(Some(_)) => SpeakActionView::NextAudio,
        SpeakInputView::Audio(None) => SpeakActionView::Finish(Ok(())),
    }
}

/// What a speech asked for, in order: text first.
pub open spec fn speak_actions(
    config: DeepgramConfig,
    inputs: Seq<(SpeakInputView, u128)>,
) -> Seq<SpeakActionView>
    decreases inputs.len(),
{
    if inputs.len() == 0 {
        seq![SpeakActionView::NextText]
    } else {
        let run = speak_run(config, inputs.drop_last());
        let before = speak_actions(config, inputs.drop_last());
        let (input, elapsed_ms) = inputs.last();
        if run.phase.expects(input) {
            before.push(run.phase.stepped(config, input, elapsed_ms).action)
        } else {
            before
        }
    }
}

spec fn speaking(phase: SpeakPhaseView, action: SpeakActionView) -> bool {
    match phase {
        SpeakPhaseView::Collecting { .. } => action is NextText,
        SpeakPhaseView::Requested => action is Request,
        SpeakPhaseView::Reading { .. } => action is NextAudio,
        SpeakPhaseView::Finished => action is Finish,
    }
}

proof fn speaking_goes_with_actions(config: DeepgramConfig, inputs: Seq<(SpeakInputView, u128)>)
    ensures
        speak_actions(config, inputs).len() > 0,
        speaking(speak_run(config, inputs).phase, speak_actions(config, inputs).last()),
    decreases inputs.len(),
{
    if inputs.len() > 0 {
        speaking_goes_with_actions(config, inputs.drop_last());
    }
}

/// A speech takes text until there is no more, and then requests all of it, unless it is white space
/// alone: then it is over. An answer of success is read to its end, whatever audio comes; any other
/// answer, and any failure, ends the speech with its error.
pub proof fn speech_follows_its_inputs(
    config: DeepgramConfig,
    inputs: Seq<(SpeakInputView, u128)>,
    input: SpeakInputView,
    elapsed_ms: u128,
)
    ensures
        ({
            let run = speak_run(config, inputs);
            let last = speak_actions(config, inputs).last();
            let step = run.phase.stepped(config, input, elapsed_ms);
            &&& run.phase.expects(input) <==> fits_speaking(last, input)
            &&& fits_speaking(last, input) ==> step.action == speaks_after(config, run.text, input)
            &&& fits_speaking(last, input) ==> forall|i: int|
                0 <= i < step.events.len() ==> match #[trigger] step.events[i] {
                    TtsEventView::FirstAudio { elapsed_ms: told_ms } => told_ms == elapsed_ms,
                    TtsEventView::AudioChunk { bytes, elapsed_ms: told_ms } => told_ms == elapsed_ms
                        && input == SpeakInputView::Audio(Some(bytes)),
                    _ => step.action is Finish,
                }
        }),
{
    speaking_goes_with_actions(config, inputs);
    speech_is_requested_once_and_told_in_order(config, inputs);
    let text = speak_run(config, inputs).text;
    trimming_leaves_the_middle(text);
    let (from, to) = choose|from: int, to: int|
        #![trigger text.subrange(from, to)]
        0 <= from <= to <= text.len() && trimmed(text) == text.subrange(from, to) && (forall|i: int|
            0 <= i < from || to <= i < text.len() ==> white_space(#[trigger] text[i])) && (from < to
            ==> !white_space(text[from]) && !white_space(text[to - 1]));
    if from < to {
        assert(!white_space(text[from]));
    }
}

/// A text that is cut begins as the text does, and ends in dots where there is room for them; the
/// request is for this text, at the place and with the key and the time that are configured.
pub proof fn a_request_holds_the_beginning_of_the_text(config: DeepgramConfig, text: Seq<char>)
    ensures
        ({
            let request = speak_request(config, text);
            let limit = config.tts_max_chars as int;
            &&& text.len() <= limit ==> request.text == text
            &&& text.len() > limit >= 3 ==> {
                &&& request.text.len() == limit
                &&& forall|i: int| 0 <= i < limit - 3 ==> #[trigger] request.text[i] == text[i]
                &&& forall|i: int| limit - 3 <= i < limit ==> #[trigger] request.text[i] == '.'
            }
            &&& text.len() > limit && limit < 3 ==> request.text.len() == 0
            &&& request.url == config.speak_url@
            &&& request.authorization == "Token "@ + config.api_key@
            &&& request.timeout == config.timeout
        }),
{
    reveal_strlit("...");
}

} // verus!
