//! One voice turn: listen for a final transcript, then answer it and speak the answer.
use std::sync::Arc;

use vstd::prelude::*;
use vstd::utf8::encode_utf8;

use crate::llm::ChatMessageView;
use crate::runtime::laws::{
    answer_is_what_was_streamed, conversation_is_kept, partial_answers_are_not_committed, turn_run,
};
use crate::runtime::{
    answer_view, byte_len, is_answer, text_bytes, without_answer, AgentRuntime, ConversationContext,
    RuntimeConfig, RuntimeError, RuntimeErrorView, RuntimeView, ToolsTold, TurnInputView,
};
use crate::tools::{Tool, ToolRegistry};
use crate::voice::adapter::RuntimeTtsAdapter;
use crate::voice::{
    SttErrorView, SttResult, TranscriptEvent, TranscriptEventView, TtsAdapterError,
    TtsAdapterErrorView, VoiceEvent, VoiceTurnError, VoiceTurnErrorView, VoiceTurnOutput,
};

verus! {

/// What happened while a turn listens.
#[derive(Debug)]
pub enum TranscriptInput {
    Cancelled,
    /// The transcription gave an event, or failed.
    Event(SttResult<TranscriptEvent>),
    /// The transcription ended.
    End,
}

pub enum TranscriptInputView {
    Cancelled,
    Event(std::result::Result<TranscriptEventView, SttErrorView>),
    End,
}

impl View for TranscriptInput {
    type V = TranscriptInputView;

    open spec fn view(&self) -> TranscriptInputView {
        match *self {
            TranscriptInput::Cancelled => TranscriptInputView::Cancelled,
            TranscriptInput::Event(Ok(event)) => TranscriptInputView::Event(Ok(event@)),
            TranscriptInput::Event(Err(error)) => TranscriptInputView::Event(Err(error@)),
            TranscriptInput::End => TranscriptInputView::End,
        }
    }
}

/// What a listening turn does next.
#[derive(Debug)]
pub enum ListenNext {
    /// Listen on.
    Listen,
    /// Answer the transcript.
    Answer(String),
    /// End with an error.
    Fail(VoiceTurnError),
}

pub enum ListenNextView {
    Listen,
    Answer(Seq<char>),
    Fail(VoiceTurnErrorView),
}

impl View for ListenNext {
    type V = ListenNextView;

    open spec fn view(&self) -> ListenNextView {
        match *self {
            ListenNext::Listen => ListenNextView::Listen,
            ListenNext::Answer(text) => ListenNextView::Answer(text@),
            ListenNext::Fail(error) => ListenNextView::Fail(error@),
        }
    }
}

/// One step of listening: the event to tell, and what to do next.
#[derive(Debug)]
pub struct ListenStep {
    pub voice: Option<VoiceEvent>,
    pub next: ListenNext,
}

/// One step of listening: a partial transcript is told, a final one is told and answered, and
/// without one, or on an error, the turn fails.
pub open spec fn listened(input: TranscriptInputView, elapsed_ms: u128) -> (
    Option<VoiceEvent>,
    ListenNextView,
) {
    match input {
        TranscriptInputView::Cancelled => (
            Some(VoiceEvent::VoiceTurnCancelled { elapsed_ms }),
            ListenNextView::Fail(VoiceTurnErrorView::Cancelled),
        ),
        TranscriptInputView::Event(
            Ok(TranscriptEventView::Partial { text, elapsed_ms: stt_elapsed_ms }),
        ) => (
            Some(
                VoiceEvent::SttPartial {
                    elapsed_ms,
                    stt_elapsed_ms,
                    transcript_chars: text_bytes(text),
                },
            ),
            ListenNextView::Listen,
        ),
        TranscriptInputView::Event(
            Ok(TranscriptEventView::Final { text, elapsed_ms: stt_elapsed_ms }),
        ) => (
            Some(
                VoiceEvent::SttFinal {
                    elapsed_ms,
                    stt_elapsed_ms,
                    transcript_chars: text_bytes(text),
                },
            ),
            ListenNextView::Answer(text),
        ),
        TranscriptInputView::Event(Ok(TranscriptEventView::Breakdown(_))) => (
            None,
            ListenNextView::Listen,
        ),
        TranscriptInputView::Event(Ok(TranscriptEventView::Done)) | TranscriptInputView::End => (
            Some(VoiceEvent::VoiceTurnFailed { elapsed_ms }),
            ListenNextView::Fail(VoiceTurnErrorView::MissingFinalTranscript),
        ),
        TranscriptInputView::Event(Err(error)) => (
            Some(VoiceEvent::VoiceTurnFailed { elapsed_ms }),
            ListenNextView::Fail(VoiceTurnErrorView::Stt(error)),
        ),
    }
}

/// One step of listening, `elapsed_ms` after the audio began.
pub fn listen(input: TranscriptInput, elapsed_ms: u128) -> (step: ListenStep)
    ensures
        step.voice == listened(input@, elapsed_ms).0,
        step.next@ == listened(input@, elapsed_ms).1,
{
    match input {
        TranscriptInput::Cancelled => ListenStep {
            voice: Some(VoiceEvent::VoiceTurnCancelled { elapsed_ms }),
            next: ListenNext::Fail(VoiceTurnError::Cancelled),
        },
        TranscriptInput::Event(
            Ok(TranscriptEvent::Partial { text, elapsed_ms: stt_elapsed_ms }),
        ) => ListenStep {
            voice: Some(
                VoiceEvent::SttPartial {
                    elapsed_ms,
                    stt_elapsed_ms,
                    transcript_chars: byte_len(text.as_str()),
                },
            ),
            next: ListenNext::Listen,
        },
        TranscriptInput::Event(
            Ok(TranscriptEvent::Final { text, elapsed_ms: stt_elapsed_ms }),
        ) => ListenStep {
            voice: Some(
                VoiceEvent::SttFinal {
                    elapsed_ms,
                    stt_elapsed_ms,
                    transcript_chars: byte_len(text.as_str()),
                },
            ),
            next: ListenNext::Answer(text),
        },
        TranscriptInput::Event(Ok(TranscriptEvent::Breakdown(_))) => ListenStep {
            voice: None,
            next: ListenNext::Listen,
        },
        TranscriptInput::Event(Ok(TranscriptEvent::Done)) | TranscriptInput::End => ListenStep {
            voice: Some(VoiceEvent::VoiceTurnFailed { elapsed_ms }),
            next: ListenNext::Fail(VoiceTurnError::MissingFinalTranscript),
        },
        TranscriptInput::Event(Err(error)) => ListenStep {
            voice: Some(VoiceEvent::VoiceTurnFailed { elapsed_ms }),
            next: ListenNext::Fail(VoiceTurnError::Stt(error)),
        },
    }
}

/// The listening of a turn up to some point: what was told, and what it came to.
#[verifier::ext_equal]
pub struct ListenRun {
    pub told: Seq<VoiceEvent>,
    pub next: ListenNextView,
}

/// The listening of a turn after some inputs; none is taken once the turn listens no more.
pub open spec fn listen_run(inputs: Seq<(TranscriptInputView, u128)>) -> ListenRun
    decreases inputs.len(),
{
    if inputs.len() == 0 {
        ListenRun { told: Seq::empty(), next: ListenNextView::Listen }
    } else {
        let run = listen_run(inputs.drop_last());
        if run.next is Listen {
            let (input, elapsed_ms) = inputs.last();
            let (voice, next) = listened(input, elapsed_ms);
            ListenRun {
                told: match voice {
                    Some(event) => run.told.push(event),
                    None => run.told,
                },
                next,
            }
        } else {
            run
        }
    }
}

/// Whether all events tell partial transcripts.
pub open spec fn all_partial(told: Seq<VoiceEvent>) -> bool {
    forall|i: int| 0 <= i < told.len() ==> #[trigger] told[i] is SttPartial
}

/// A turn listens to the first final transcript, and to no more: what it tells is partial
/// transcripts, and one event more once it listens no longer. That last one is a final transcript
/// where there is something to answer, and an end without an answer otherwise.
pub proof fn listening_ends_once(inputs: Seq<(TranscriptInputView, u128)>)
    ensures
        ({
            let run = listen_run(inputs);
            &&& run.next is Listen ==> all_partial(run.told)
            &&& run.next is Answer ==> run.told.len() > 0 && run.told.last() is SttFinal
                && all_partial(run.told.drop_last())
            &&& run.next is Fail ==> run.told.len() > 0 && (run.told.last() is VoiceTurnCancelled
                || run.told.last() is VoiceTurnFailed) && all_partial(run.told.drop_last())
        }),
    decreases inputs.len(),
{
    if inputs.len() > 0 {
        listening_ends_once(inputs.drop_last());
        let run = listen_run(inputs.drop_last());
        let next = listen_run(inputs);
        if run.next is Listen && !(next.next is Listen) {
            assert(next.told.drop_last() =~= run.told);
        }
    }
}

/// Whether a turn listens on after this input: it is a partial transcript, or tells how long
/// something took.
pub open spec fn listens_on(input: TranscriptInputView) -> bool {
    input matches TranscriptInputView::Event(Ok(event)) && (event is Partial || event is Breakdown)
}

/// The partial transcripts that came, in order: when each came, when it was understood, and how
/// many bytes its text has.
pub open spec fn partials_in(inputs: Seq<(TranscriptInputView, u128)>) -> Seq<(u128, u128, int)>
    decreases inputs.len(),
{
    if inputs.len() == 0 {
        Seq::empty()
    } else {
        let before = partials_in(inputs.drop_last());
        match inputs.last() {
            (
                TranscriptInputView::Event(Ok(TranscriptEventView::Partial { text, elapsed_ms })),
                at_ms,
            ) => before.push((at_ms, elapsed_ms, encode_utf8(text).len() as usize as int)),
            _ => before,
        }
    }
}

/// The partial transcripts that were told, in order.
pub open spec fn partials_told(told: Seq<VoiceEvent>) -> Seq<(u128, u128, int)>
    decreases told.len(),
{
    if told.len() == 0 {
        Seq::empty()
    } else {
        let before = partials_told(told.drop_last());
        match told.last() {
            VoiceEvent::SttPartial { elapsed_ms, stt_elapsed_ms, transcript_chars } => before.push(
                (elapsed_ms, stt_elapsed_ms, transcript_chars as int),
            ),
            _ => before,
        }
    }
}

/// A turn listens as long as only partial transcripts and timings come, and tells each partial
/// transcript as it comes.
pub proof fn partial_transcripts_are_told(inputs: Seq<(TranscriptInputView, u128)>)
    requires
        forall|i: int| 0 <= i < inputs.len() ==> listens_on(#[trigger] inputs[i].0),
    ensures
        listen_run(inputs).next is Listen,
        partials_told(listen_run(inputs).told) == partials_in(inputs),
        listen_run(inputs).told.len() == partials_in(inputs).len(),
    decreases inputs.len(),
{
    if inputs.len() > 0 {
        let rest = inputs.drop_last();
        assert forall|i: int| 0 <= i < rest.len() implies listens_on(#[trigger] rest[i].0) by {
            assert(listens_on(inputs[i].0));
        }
        partial_transcripts_are_told(rest);
        assert(listens_on(inputs[inputs.len() - 1].0));
        let run = listen_run(rest);
        let told = listen_run(inputs).told;
        if told.len() > run.told.len() {
            assert(told.drop_last() =~= run.told);
        }
    }
}

/// The first input that is neither a partial transcript nor a timing ends the listening, whatever
/// came before and comes after it: a final transcript is answered, with exactly its text; an error of
/// the transcription, its end, and a cancellation fail the turn as such. Each is told with the time
/// at which it came.
pub proof fn the_first_final_transcript_is_answered(
    before: Seq<(TranscriptInputView, u128)>,
    input: TranscriptInputView,
    elapsed_ms: u128,
    later: Seq<(TranscriptInputView, u128)>,
)
    requires
        forall|i: int| 0 <= i < before.len() ==> listens_on(#[trigger] before[i].0),
        !listens_on(input),
    ensures
        ({
            let run = listen_run(before.push((input, elapsed_ms)) + later);
            &&& run.told.len() == partials_in(before).len() + 1
            &&& partials_told(run.told) == partials_in(before)
            &&& match input {
                TranscriptInputView::Event(Ok(event)) => match event {
                    TranscriptEventView::Final { text, elapsed_ms: stt_elapsed_ms } => {
                        &&& run.next == ListenNextView::Answer(text)
                        &&& run.told.last() == (VoiceEvent::SttFinal {
                            elapsed_ms,
                            stt_elapsed_ms,
                            transcript_chars: encode_utf8(text).len() as usize,
                        })
                    },
                    _ => {
                        &&& run.next == ListenNextView::Fail(
                            VoiceTurnErrorView::MissingFinalTranscript,
                        )
                        &&& run.told.last() == (VoiceEvent::VoiceTurnFailed { elapsed_ms })
                    },
                },
                TranscriptInputView::Event(Err(error)) => {
                    &&& run.next == ListenNextView::Fail(VoiceTurnErrorView::Stt(error))
                    &&& run.told.last() == (VoiceEvent::VoiceTurnFailed { elapsed_ms })
                },
                TranscriptInputView::End => {
                    &&& run.next == ListenNextView::Fail(VoiceTurnErrorView::MissingFinalTranscript)
                    &&& run.told.last() == (VoiceEvent::VoiceTurnFailed { elapsed_ms })
                },
                TranscriptInputView::Cancelled => {
                    &&& run.next == ListenNextView::Fail(VoiceTurnErrorView::Cancelled)
                    &&& run.told.last() == (VoiceEvent::VoiceTurnCancelled { elapsed_ms })
                },
            }
        }),
    decreases later.len(),
{
    let first = before.push((input, elapsed_ms));
    let all = first + later;
    if later.len() == 0 {
        assert(all =~= first);
        assert(first.drop_last() =~= before);
        partial_transcripts_are_told(before);
        let run = listen_run(first);
        assert(run.told.drop_last() =~= listen_run(before).told);
    } else {
        the_first_final_transcript_is_answered(before, input, elapsed_ms, later.drop_last());
        assert(all.drop_last() =~= first + later.drop_last());
    }
}

/// The half of a turn that ended first: the agent's turn, or the speaking of it.
#[derive(Debug)]
pub enum FirstHalf {
    Runtime(crate::runtime::Result<String>),
    Tts(std::result::Result<(), TtsAdapterError>),
}

impl FirstHalf {
    /// Whether the other half is to be cancelled: where the first one failed.
    pub fn cancels_the_other(&self) -> (cancels: bool)
        ensures
            cancels == (match self {
                FirstHalf::Runtime(result) => result is Err,
                FirstHalf::Tts(result) => result is Err,
            }),
    {
        match self {
            FirstHalf::Runtime(result) => result.is_err(),
            FirstHalf::Tts(result) => result.is_err(),
        }
    }
}

/// The half of a turn that ends first cancels the other one exactly where it failed: an answer that
/// is complete is still spoken, and a speech that is done waits for the turn.
pub proof fn a_failed_half_cancels_the_other(half: FirstHalf, cancels: bool)
    requires
        call_ensures(FirstHalf::cancels_the_other, (&half,), cancels),
    ensures
        half is Runtime ==> (cancels <==> half->Runtime_0 is Err),
        half is Tts ==> (cancels <==> half->Tts_0 is Err),
{
}

/// The view of how speaking ended.
pub open spec fn spoken_view(
    result: std::result::Result<(), TtsAdapterError>,
) -> std::result::Result<(), TtsAdapterErrorView> {
    match result {
        Ok(()) => Ok(()),
        Err(error) => Err(error@),
    }
}

/// The view of a voice turn's result.
pub open spec fn output_view(
    result: std::result::Result<VoiceTurnOutput, VoiceTurnError>,
) -> std::result::Result<Seq<char>, VoiceTurnErrorView> {
    match result {
        Ok(output) => Ok(output@),
        Err(error) => Err(error@),
    }
}

/// The result of a voice turn from its two halves: output only where both succeeded; a backend that
/// failed is told before a cancellation; and a failure of the agent's turn before all else.
pub open spec fn joined_result(
    runtime: std::result::Result<Seq<char>, RuntimeErrorView>,
    tts: std::result::Result<(), TtsAdapterErrorView>,
) -> std::result::Result<Seq<char>, VoiceTurnErrorView> {
    match (runtime, tts) {
        (Ok(text), Ok(())) => Ok(text),
        (Err(error), _) if !(error is Cancelled) => Err(VoiceTurnErrorView::Runtime(error)),
        (_, Err(TtsAdapterErrorView::Tts(error))) => Err(VoiceTurnErrorView::Tts(error)),
        _ => Err(VoiceTurnErrorView::Cancelled),
    }
}

/// The result of a voice turn from its two halves.
pub fn voice_turn_result(
    runtime_result: crate::runtime::Result<String>,
    tts_result: std::result::Result<(), TtsAdapterError>,
) -> (result: std::result::Result<VoiceTurnOutput, VoiceTurnError>)
    ensures
        output_view(result) == joined_result(
            answer_view(runtime_result),
            spoken_view(tts_result),
        ),
{
    match runtime_result {
        Ok(text) => match tts_result {
            Ok(()) => Ok(VoiceTurnOutput { text }),
            Err(TtsAdapterError::Cancelled) => Err(VoiceTurnError::Cancelled),
            Err(TtsAdapterError::Tts(error)) => Err(VoiceTurnError::Tts(error)),
        },
        Err(RuntimeError::Cancelled) => match tts_result {
            Err(TtsAdapterError::Tts(error)) => Err(VoiceTurnError::Tts(error)),
            _ => Err(VoiceTurnError::Cancelled),
        },
        Err(error) => Err(VoiceTurnError::Runtime(error)),
    }
}

/// The event that tells a voice turn's result.
pub open spec fn result_event(
    result: std::result::Result<Seq<char>, VoiceTurnErrorView>,
    elapsed_ms: u128,
) -> VoiceEvent {
    match result {
        Ok(text) => VoiceEvent::VoiceTurnCompleted { elapsed_ms, output_chars: text_bytes(text) },
        Err(VoiceTurnErrorView::Cancelled) => VoiceEvent::VoiceTurnCancelled { elapsed_ms },
        Err(_) => VoiceEvent::VoiceTurnFailed { elapsed_ms },
    }
}

/// The event that tells a voice turn's result.
pub fn voice_turn_result_event(
    result: &std::result::Result<VoiceTurnOutput, VoiceTurnError>,
    elapsed_ms: u128,
) -> (event: VoiceEvent)
    ensures
        event == result_event(output_view(*result), elapsed_ms),
{
    match result {
        Ok(output) => VoiceEvent::VoiceTurnCompleted {
            elapsed_ms,
            output_chars: byte_len(output.text.as_str()),
        },
        Err(VoiceTurnError::Cancelled) => VoiceEvent::VoiceTurnCancelled { elapsed_ms },
        Err(_) => VoiceEvent::VoiceTurnFailed { elapsed_ms },
    }
}

/// The end of a voice turn.
#[derive(Debug)]
pub struct VoiceTurnEnd {
    pub result: std::result::Result<VoiceTurnOutput, VoiceTurnError>,
    pub voice: VoiceEvent,
}

/// The conversation once a voice turn has ended, which the agent's turn left as `messages`: an
/// answer stays in it only where the voice turn has output.
pub open spec fn settled(
    messages: Seq<ChatMessageView>,
    runtime: std::result::Result<Seq<char>, RuntimeErrorView>,
    tts: std::result::Result<(), TtsAdapterErrorView>,
) -> Seq<ChatMessageView> {
    if joined_result(runtime, tts) is Err && runtime is Ok {
        without_answer(messages)
    } else {
        messages
    }
}

/// Ends a voice turn once both of its halves have ended. The agent's turn commits its answer when
/// it is streamed; where the answer could not be spoken to its end, it is taken back.
pub fn end_voice_turn(
    context: &mut ConversationContext,
    runtime_result: crate::runtime::Result<String>,
    tts_result: std::result::Result<(), TtsAdapterError>,
    elapsed_ms: u128,
) -> (end: VoiceTurnEnd)
    ensures
        output_view(end.result) == joined_result(
            answer_view(runtime_result),
            spoken_view(tts_result),
        ),
        end.voice == result_event(output_view(end.result), elapsed_ms),
        final(context)@ == settled(
            old(context)@,
            answer_view(runtime_result),
            spoken_view(tts_result),
        ),
{
    if runtime_result.is_ok() && tts_result.is_err() {
        context.drop_answer();
    }
    let result = voice_turn_result(runtime_result, tts_result);
    let voice = voice_turn_result_event(&result, elapsed_ms);
    VoiceTurnEnd { result, voice }
}

/// A voice turn has output exactly where both halves succeeded, and its output is the answer.
pub proof fn output_needs_both_halves(
    runtime: std::result::Result<Seq<char>, RuntimeErrorView>,
    tts: std::result::Result<(), TtsAdapterErrorView>,
)
    ensures
        joined_result(runtime, tts) is Ok <==> runtime is Ok && tts is Ok,
        joined_result(runtime, tts) matches Ok(text) ==> runtime == Result::<
            Seq<char>,
            RuntimeErrorView,
        >::Ok(text),
        runtime == Result::<Seq<char>, RuntimeErrorView>::Err(RuntimeErrorView::Cancelled) && !(tts
            matches Err(TtsAdapterErrorView::Tts(_))) ==> joined_result(runtime, tts) == Result::<
            Seq<char>,
            VoiceTurnErrorView,
        >::Err(VoiceTurnErrorView::Cancelled),
{
}

/// A failure of the agent's turn is told whatever became of the speech, a failure of the speech
/// wherever the agent's turn did not fail, and a cancellation only where neither failed. The event
/// that ends the turn goes with the result, and tells the length of the output.
pub proof fn failures_are_told_before_cancellations(
    runtime: std::result::Result<Seq<char>, RuntimeErrorView>,
    tts: std::result::Result<(), TtsAdapterErrorView>,
    elapsed_ms: u128,
)
    ensures
        ({
            let result = joined_result(runtime, tts);
            let event = result_event(result, elapsed_ms);
            let runtime_failed = runtime is Err && !(runtime->Err_0 is Cancelled);
            let tts_failed = tts is Err && tts->Err_0 is Tts;
            &&& runtime_failed ==> result is Err && result->Err_0 == VoiceTurnErrorView::Runtime(
                runtime->Err_0,
            )
            &&& !runtime_failed && tts_failed ==> result is Err && result->Err_0
                == VoiceTurnErrorView::Tts(tts->Err_0->Tts_0)
            &&& result is Err && result->Err_0 is Cancelled <==> !runtime_failed && !tts_failed && (
            runtime is Err || tts is Err)
            &&& result is Ok ==> event == (VoiceEvent::VoiceTurnCompleted {
                elapsed_ms,
                output_chars: encode_utf8(result->Ok_0).len() as usize,
            })
            &&& result is Err && result->Err_0 is Cancelled ==> event
                == (VoiceEvent::VoiceTurnCancelled { elapsed_ms })
            &&& result is Err && !(result->Err_0 is Cancelled) ==> event
                == (VoiceEvent::VoiceTurnFailed { elapsed_ms })
        }),
{
}

/// Settling a voice turn takes back at most the last message, and only where the agent's turn has
/// an answer that was not spoken to its end; all else that the agent's turn put into the
/// conversation stays.
pub proof fn only_an_unspoken_answer_is_taken_back(
    messages: Seq<ChatMessageView>,
    runtime: std::result::Result<Seq<char>, RuntimeErrorView>,
    tts: std::result::Result<(), TtsAdapterErrorView>,
)
    ensures
        ({
            let after = settled(messages, runtime, tts);
            &&& after == messages || (messages.len() > 0 && after == messages.drop_last())
            &&& after.len() < messages.len() <==> runtime is Ok && tts is Err && messages.len() > 0
                && messages.last().role == "assistant"@ && messages.last().tool_calls.len() == 0
        }),
{
}

/// The answer of a voice turn is in the conversation only where the turn has output: then it is the
/// last message, unless it is empty. Where the agent's turn failed or was cancelled, or the answer
/// was not spoken to its end, the turn has put no answer into the conversation. Either way the
/// conversation that it found, and the user's message, stay.
pub proof fn answers_are_committed_with_the_output(
    runtime: RuntimeView,
    messages: Seq<ChatMessageView>,
    user_message: Seq<char>,
    started_ms: u128,
    inputs: Seq<(TurnInputView, u128, ToolsTold)>,
    tts: std::result::Result<(), TtsAdapterErrorView>,
)
    requires
        turn_run(runtime, messages, user_message, started_ms, inputs).result is Some,
    ensures
        ({
            let run = turn_run(runtime, messages, user_message, started_ms, inputs);
            let after = settled(run.messages, run.result.unwrap(), tts);
            &&& after.len() > messages.len()
            &&& after.take(messages.len() as int) == messages
            &&& after[messages.len() as int] == ChatMessageView::plain("user"@, user_message)
            &&& match joined_result(run.result.unwrap(), tts) {
                Ok(output) => output.len() > 0 ==> after.last() == ChatMessageView::plain(
                    "assistant"@,
                    output,
                ),
                Err(_) => forall|i: int|
                    messages.len() <= i < after.len() ==> !is_answer(#[trigger] after[i]),
            }
        }),
{
    conversation_is_kept(runtime, messages, user_message, started_ms, inputs);
    partial_answers_are_not_committed(runtime, messages, user_message, started_ms, inputs);
    answer_is_what_was_streamed(runtime, messages, user_message, started_ms, inputs);
    reveal_strlit("user");
    reveal_strlit("assistant");
    assert("user"@.len() == 4 && "assistant"@.len() == 9);
    let run = turn_run(runtime, messages, user_message, started_ms, inputs);
    let after = settled(run.messages, run.result.unwrap(), tts);
    let n = messages.len() as int;
    assert(!is_answer(run.messages[n]));
    assert(after.take(n) =~= run.messages.take(n));
}

/// What answers transcripts: an agent, and what speaks its answers.
pub struct VoiceTurnRunner<P, T, K = Arc<dyn Tool>> {
    runtime: AgentRuntime<P, K>,
    tts: RuntimeTtsAdapter<T>,
}

impl<P, T, K> VoiceTurnRunner<P, T, K> {
    /// The agent.
    pub closed spec fn agent(&self) -> AgentRuntime<P, K> {
        self.runtime
    }

    /// What speaks.
    pub closed spec fn speaker(&self) -> RuntimeTtsAdapter<T> {
        self.tts
    }

    pub fn new(provider: P, tools: ToolRegistry<K>, config: RuntimeConfig, tts: T) -> (runner:
        VoiceTurnRunner<P, T, K>)
        ensures
            runner.agent()@ == (RuntimeView {
                model: config.model@,
                max_tool_rounds: config.max_tool_rounds,
            }),
            runner.agent().toolbox() == tools@,
            runner.agent().source() == provider,
            runner.speaker().backend() == tts,
    {
        VoiceTurnRunner {
            runtime: AgentRuntime::new(provider, tools, config),
            tts: RuntimeTtsAdapter::new(tts),
        }
    }

    pub fn runtime(&self) -> (runtime: &AgentRuntime<P, K>)
        ensures
            *runtime == self.agent(),
    {
        &self.runtime
    }

    pub fn tts(&self) -> (tts: &RuntimeTtsAdapter<T>)
        ensures
            *tts == self.speaker(),
    {
        &self.tts
    }
}

/// What answers audio: a transcriber, and what answers its transcripts.
pub struct VoicePipelineRunner<P, S, T, K = Arc<dyn Tool>> {
    stt: S,
    turn: VoiceTurnRunner<P, T, K>,
}

impl<P, S, T, K> VoicePipelineRunner<P, S, T, K> {
    /// The speech-to-text backend.
    pub closed spec fn transcriber(&self) -> S {
        self.stt
    }

    /// What answers the transcripts.
    pub closed spec fn answerer(&self) -> VoiceTurnRunner<P, T, K> {
        self.turn
    }

    pub fn new(
        provider: P,
        tools: ToolRegistry<K>,
        config: RuntimeConfig,
        stt: S,
        tts: T,
    ) -> (runner: VoicePipelineRunner<P, S, T, K>)
        ensures
            runner.transcriber() == stt,
            runner.answerer().agent()@ == (RuntimeView {
                model: config.model@,
                max_tool_rounds: config.max_tool_rounds,
            }),
            runner.answerer().agent().toolbox() == tools@,
            runner.answerer().agent().source() == provider,
            runner.answerer().speaker().backend() == tts,
    {
        VoicePipelineRunner { stt, turn: VoiceTurnRunner::new(provider, tools, config, tts) }
    }

    pub fn stt(&self) -> (stt: &S)
        ensures
            *stt == self.transcriber(),
    {
        &self.stt
    }

    pub fn turn(&self) -> (turn: &VoiceTurnRunner<P, T, K>)
        ensures
            *turn == self.answerer(),
    {
        &self.turn
    }
}

} // verus!
