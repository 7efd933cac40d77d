//! What is printed while a turn runs, and after it.
use vstd::prelude::*;

use crate::runtime::events::{RequestState, RuntimeEvent, RuntimeEventView};
use crate::runtime::{answer_view, RuntimeError, RuntimeErrorView};
use crate::text::{
    decimal, decimal_text, holds, holds_part, lossy_text, reads_as_text, utf8_lossy, views,
};
use crate::voice::deepgram::listen::{bool_str, bool_text};
use crate::voice::latency::{
    VoiceLatencyMetric, VoiceLatencySnapshot, VoiceLatencyStats,
};
use crate::voice::turn::output_view;
use crate::voice::{
    TtsEvent, TtsEventView, VoiceEvent, VoiceTurnError, VoiceTurnErrorView, VoiceTurnOutput,
};

verus! {

/// The name of a state.
pub open spec fn state_text(state: RequestState) -> Seq<char> {
    match state {
        RequestState::Started => "started"@,
        RequestState::StreamingLlm => "streaming_llm"@,
        RequestState::DispatchingTool => "dispatching_tool"@,
        RequestState::Completed => "completed"@,
        RequestState::Cancelled => "cancelled"@,
        RequestState::Failed => "failed"@,
    }
}

/// The name of a state.
pub fn state_name(state: RequestState) -> (name: &'static str)
    ensures
        name@ == state_text(state),
{
    match state {
        RequestState::Started => "started",
        RequestState::StreamingLlm => "streaming_llm",
        RequestState::DispatchingTool => "dispatching_tool",
        RequestState::Completed => "completed",
        RequestState::Cancelled => "cancelled",
        RequestState::Failed => "failed",
    }
}

/// A number after a text.
pub open spec fn field(name: Seq<char>, value: u128) -> Seq<char> {
    name + decimal(value as nat)
}

fn append_field(line: &mut String, name: &str, value: u128)
    ensures
        final(line)@ == old(line)@ + field(name@, value),
{
    line.append(name);
    line.append(decimal_text(value).as_str());
    assert(line@ =~= old(line)@ + field(name@, value));
}

/// The line that tells an event of a turn; a token of the answer has none.
pub open spec fn runtime_event_text(event: RuntimeEventView) -> Seq<char> {
    match event {
        RuntimeEventView::Lifecycle { to, .. } => "event> state="@ + state_text(to),
        RuntimeEventView::LlmFirstToken { elapsed_ms } => field(
            "event> llm_first_token elapsed_ms="@,
            elapsed_ms,
        ),
        RuntimeEventView::AssistantToken { .. } => Seq::empty(),
        RuntimeEventView::ToolDispatchStart { call_id, tool_name, elapsed_ms } => {
            "event> tool_start id="@ + call_id + " name="@ + tool_name + field(
                " elapsed_ms="@,
                elapsed_ms,
            )
        },
        RuntimeEventView::ToolDispatchEnd { call_id, tool_name, duration_ms, success, .. } => {
            "event> tool_end id="@ + call_id + " name="@ + tool_name + field(
                " duration_ms="@,
                duration_ms,
            ) + " success="@ + bool_text(success)
        },
        RuntimeEventView::ToolTimeout { call_id, tool_name, timeout_ms, .. } => {
            "event> tool_timeout id="@ + call_id + " name="@ + tool_name + field(
                " timeout_ms="@,
                timeout_ms,
            )
        },
        RuntimeEventView::TurnCompleted { elapsed_ms, output_chars } => field(
            "event> turn_completed elapsed_ms="@,
            elapsed_ms,
        ) + field(" output_chars="@, output_chars as u128),
    }
}

fn runtime_event_line(event: &RuntimeEvent) -> (line: String)
    ensures
        line@ == runtime_event_text(event@),
{
    match event {
        RuntimeEvent::Lifecycle { to, .. } => "event> state=".to_owned().concat(state_name(*to)),
        RuntimeEvent::LlmFirstToken { elapsed_ms } => {
            "event> llm_first_token elapsed_ms=".to_owned().concat(
                decimal_text(*elapsed_ms).as_str(),
            )
        },
        RuntimeEvent::AssistantToken { .. } => {
            let line = String::new();
            assert(line@ =~= Seq::empty());
            line
        },
        RuntimeEvent::ToolDispatchStart { call_id, tool_name, elapsed_ms } => {
            let mut line = "event> tool_start id=".to_owned().concat(call_id.as_str()).concat(
                " name=",
            ).concat(tool_name.as_str());
            append_field(&mut line, " elapsed_ms=", *elapsed_ms);
            line
        },
        RuntimeEvent::ToolDispatchEnd { call_id, tool_name, duration_ms, success, .. } => {
            let mut line = "event> tool_end id=".to_owned().concat(call_id.as_str()).concat(
                " name=",
            ).concat(tool_name.as_str());
            append_field(&mut line, " duration_ms=", *duration_ms);
            line.append(" success=");
            line.append(bool_str(*success));
            line
        },
        RuntimeEvent::ToolTimeout { call_id, tool_name, timeout_ms, .. } => {
            let mut line = "event> tool_timeout id=".to_owned().concat(call_id.as_str()).concat(
                " name=",
            ).concat(tool_name.as_str());
            append_field(&mut line, " timeout_ms=", *timeout_ms);
            line
        },
        RuntimeEvent::TurnCompleted { elapsed_ms, output_chars } => {
            let mut line = "event> turn_completed elapsed_ms=".to_owned().concat(
                decimal_text(*elapsed_ms).as_str(),
            );
            append_field(&mut line, " output_chars=", *output_chars as u128);
            line
        },
    }
}

/// The printing of a turn's events: whether a line of the answer is open.
#[derive(Debug, Clone, Copy, PartialEq, Eq, Structural)]
pub struct EventPrinter {
    pub assistant_line_active: bool,
}

/// What is printed for an event: the tokens of the answer on one line, which any other event ends.
pub open spec fn printed(active: bool, event: RuntimeEventView) -> Seq<char> {
    match event {
        RuntimeEventView::AssistantToken { text, .. } => if active {
            text
        } else {
            "assistant> "@ + text
        },
        _ => if active {
            "\n"@ + runtime_event_text(event) + "\n"@
        } else {
            runtime_event_text(event) + "\n"@
        },
    }
}

impl EventPrinter {
    pub fn new() -> (printer: EventPrinter)
        ensures
            !printer.assistant_line_active,
    {
        EventPrinter { assistant_line_active: false }
    }

    /// What is printed for an event.
    pub fn print_event(&mut self, event: &RuntimeEvent) -> (text: String)
        ensures
            text@ == printed(old(self).assistant_line_active, event@),
            final(self).assistant_line_active == (event@ is AssistantToken),
    {
        match event {
            RuntimeEvent::AssistantToken { text, .. } => {
                let active = self.assistant_line_active;
                self.assistant_line_active = true;
                if active {
                    text.clone()
                } else {
                    "assistant> ".to_owned().concat(text.as_str())
                }
            },
            _ => {
                let line = runtime_event_line(event);
                let active = self.assistant_line_active;
                self.assistant_line_active = false;
                if active {
                    "\n".to_owned().concat(line.as_str()).concat("\n")
                } else {
                    line.concat("\n")
                }
            },
        }
    }
}

/// The line that tells an event of fake speech, whose bytes are text.
pub open spec fn tts_event_text(event: TtsEventView) -> Seq<char> {
    match event {
        TtsEventView::FirstAudio { elapsed_ms } => field("tts> first_audio elapsed_ms="@, elapsed_ms),
        TtsEventView::AudioChunk { bytes, elapsed_ms } => field(
            "tts> audio_chunk elapsed_ms="@,
            elapsed_ms,
        ) + " bytes="@ + lossy_text(bytes),
        TtsEventView::PlaybackReset => "tts> playback_reset"@,
        TtsEventView::Done => "tts> done"@,
    }
}

/// The line that tells an event of fake speech, whose bytes are text.
pub fn tts_event_line(event: &TtsEvent) -> (line: String)
    ensures
        line@ == tts_event_text(event@),
        event matches TtsEvent::AudioChunk { bytes, .. } ==> reads_as_text(bytes@),
{
    match event {
        TtsEvent::FirstAudio { elapsed_ms } => {
            "tts> first_audio elapsed_ms=".to_owned().concat(decimal_text(*elapsed_ms).as_str())
        },
        TtsEvent::AudioChunk { bytes, elapsed_ms } => {
            "tts> audio_chunk elapsed_ms=".to_owned().concat(
                decimal_text(*elapsed_ms).as_str(),
            ).concat(" bytes=").concat(utf8_lossy(bytes.as_slice()).as_str())
        },
        TtsEvent::PlaybackReset => "tts> playback_reset".to_owned(),
        TtsEvent::Done => "tts> done".to_owned(),
    }
}

/// The line that tells an event of a voice turn.
pub open spec fn voice_event_text(event: VoiceEvent) -> Seq<char> {
    match event {
        VoiceEvent::SttPartial { elapsed_ms, stt_elapsed_ms, transcript_chars } => field(
            "voice> stt_partial elapsed_ms="@,
            elapsed_ms,
        ) + field(" stt_elapsed_ms="@, stt_elapsed_ms) + field(
            " transcript_chars="@,
            transcript_chars as u128,
        ),
        VoiceEvent::SttFinal { elapsed_ms, stt_elapsed_ms, transcript_chars } => field(
            "voice> stt_final elapsed_ms="@,
            elapsed_ms,
        ) + field(" stt_elapsed_ms="@, stt_elapsed_ms) + field(
            " transcript_chars="@,
            transcript_chars as u128,
        ),
        VoiceEvent::LlmFirstToken { elapsed_ms, runtime_elapsed_ms } => field(
            "voice> llm_first_token elapsed_ms="@,
            elapsed_ms,
        ) + field(" runtime_elapsed_ms="@, runtime_elapsed_ms),
        VoiceEvent::TtsFirstAudio { elapsed_ms, tts_elapsed_ms } => field(
            "voice> tts_first_audio elapsed_ms="@,
            elapsed_ms,
        ) + field(" tts_elapsed_ms="@, tts_elapsed_ms),
        VoiceEvent::VoiceTurnCompleted { elapsed_ms, output_chars } => field(
            "voice> turn_completed elapsed_ms="@,
            elapsed_ms,
        ) + field(" output_chars="@, output_chars as u128),
        VoiceEvent::VoiceTurnCancelled { elapsed_ms } => field(
            "voice> turn_cancelled elapsed_ms="@,
            elapsed_ms,
        ),
        VoiceEvent::VoiceTurnInterrupted { elapsed_ms } => field(
            "voice> turn_interrupted elapsed_ms="@,
            elapsed_ms,
        ),
        VoiceEvent::VoiceTurnFailed { elapsed_ms } => field(
            "voice> turn_failed elapsed_ms="@,
            elapsed_ms,
        ),
    }
}

/// A line that starts with a number after a text.
fn field_line(name: &str, value: u128) -> (line: String)
    ensures
        line@ == field(name@, value),
{
    name.to_owned().concat(decimal_text(value).as_str())
}

/// The line that tells an event of a voice turn.
pub fn voice_event_line(event: &VoiceEvent) -> (line: String)
    ensures
        line@ == voice_event_text(*event),
{
    match event {
        VoiceEvent::SttPartial { elapsed_ms, stt_elapsed_ms, transcript_chars } => {
            let mut line = field_line("voice> stt_partial elapsed_ms=", *elapsed_ms);
            append_field(&mut line, " stt_elapsed_ms=", *stt_elapsed_ms);
            append_field(&mut line, " transcript_chars=", *transcript_chars as u128);
            line
        },
        VoiceEvent::SttFinal { elapsed_ms, stt_elapsed_ms, transcript_chars } => {
            let mut line = field_line("voice> stt_final elapsed_ms=", *elapsed_ms);
            append_field(&mut line, " stt_elapsed_ms=", *stt_elapsed_ms);
            append_field(&mut line, " transcript_chars=", *transcript_chars as u128);
            line
        },
        VoiceEvent::LlmFirstToken { elapsed_ms, runtime_elapsed_ms } => {
            let mut line = field_line("voice> llm_first_token elapsed_ms=", *elapsed_ms);
            append_field(&mut line, " runtime_elapsed_ms=", *runtime_elapsed_ms);
            line
        },
        VoiceEvent::TtsFirstAudio { elapsed_ms, tts_elapsed_ms } => {
            let mut line = field_line("voice> tts_first_audio elapsed_ms=", *elapsed_ms);
            append_field(&mut line, " tts_elapsed_ms=", *tts_elapsed_ms);
            line
        },
        VoiceEvent::VoiceTurnCompleted { elapsed_ms, output_chars } => {
            let mut line = field_line("voice> turn_completed elapsed_ms=", *elapsed_ms);
            append_field(&mut line, " output_chars=", *output_chars as u128);
            line
        },
        VoiceEvent::VoiceTurnCancelled { elapsed_ms } => {
            field_line("voice> turn_cancelled elapsed_ms=", *elapsed_ms)
        },
        VoiceEvent::VoiceTurnInterrupted { elapsed_ms } => {
            field_line("voice> turn_interrupted elapsed_ms=", *elapsed_ms)
        },
        VoiceEvent::VoiceTurnFailed { elapsed_ms } => {
            field_line("voice> turn_failed elapsed_ms=", *elapsed_ms)
        },
    }
}

/// The line that tells the summary of a metric.
pub open spec fn stats_text(name: Seq<char>, stats: VoiceLatencyStats) -> Seq<char> {
    "voice-metrics> "@ + name + field(" samples="@, stats.samples as u128) + field(
        " p50_ms="@,
        stats.p50_ms,
    ) + field(" p95_ms="@, stats.p95_ms)
}

/// The line of a metric, where it has samples.
pub open spec fn stats_lines(name: Seq<char>, stats: Option<VoiceLatencyStats>) -> Seq<Seq<char>> {
    match stats {
        Some(stats) => seq![stats_text(name, stats)],
        None => Seq::empty(),
    }
}

/// The lines that tell all summaries.
pub open spec fn snapshot_lines(snapshot: VoiceLatencySnapshot) -> Seq<Seq<char>> {
    stats_lines(VoiceLatencyMetric::SttFinalization.named(), snapshot.stt_finalization)
        + stats_lines(VoiceLatencyMetric::LlmFirstToken.named(), snapshot.llm_first_token)
        + stats_lines(VoiceLatencyMetric::TtsFirstAudio.named(), snapshot.tts_first_audio)
        + stats_lines(
        VoiceLatencyMetric::VoiceTurnRoundTrip.named(),
        snapshot.voice_turn_round_trip,
    )
}

fn append_stats(lines: &mut Vec<String>, name: &str, stats: Option<VoiceLatencyStats>)
    ensures
        views(final(lines)@) == views(old(lines)@) + stats_lines(name@, stats),
{
    if let Some(stats) = stats {
        let mut line = "voice-metrics> ".to_owned().concat(name);
        append_field(&mut line, " samples=", stats.samples as u128);
        append_field(&mut line, " p50_ms=", stats.p50_ms);
        append_field(&mut line, " p95_ms=", stats.p95_ms);
        lines.push(line);
    }
    assert(views(lines@) =~= views(old(lines)@) + stats_lines(name@, stats));
}

/// The lines that tell all summaries.
pub fn voice_latency_lines(snapshot: &VoiceLatencySnapshot) -> (lines: Vec<String>)
    ensures
        views(lines@) == snapshot_lines(*snapshot),
{
    let mut lines: Vec<String> = Vec::new();
    append_stats(
        &mut lines,
        VoiceLatencyMetric::SttFinalization.name(),
        snapshot.stt_finalization,
    );
    append_stats(&mut lines, VoiceLatencyMetric::LlmFirstToken.name(), snapshot.llm_first_token);
    append_stats(&mut lines, VoiceLatencyMetric::TtsFirstAudio.name(), snapshot.tts_first_audio);
    append_stats(
        &mut lines,
        VoiceLatencyMetric::VoiceTurnRoundTrip.name(),
        snapshot.voice_turn_round_trip,
    );
    assert(views(lines@) =~= snapshot_lines(*snapshot));
    lines
}

/// What is printed after a turn of a chat: nothing where it gave an answer.
pub open spec fn chat_end(result: std::result::Result<Seq<char>, RuntimeErrorView>) -> Option<
    Seq<char>,
> {
    match result {
        Ok(_) => None,
        Err(RuntimeErrorView::Cancelled) => Some("assistant> turn cancelled"@),
        Err(error) => Some("assistant> error: "@ + error.text()),
    }
}

/// What is printed after a turn of a chat: nothing where it gave an answer.
pub fn chat_end_line(result: &crate::runtime::Result<String>) -> (line: Option<String>)
    ensures
        crate::text::opt_view(line) == chat_end(answer_view(*result)),
{
    match result {
        Ok(_) => None,
        Err(RuntimeError::Cancelled) => Some("assistant> turn cancelled".to_owned()),
        Err(error) => Some("assistant> error: ".to_owned().concat(error.message().as_str())),
    }
}

/// What is printed after a voice turn.
pub open spec fn voice_end(result: std::result::Result<Seq<char>, VoiceTurnErrorView>) -> Seq<
    char,
> {
    match result {
        Ok(text) => "assistant-final> "@ + text,
        Err(VoiceTurnErrorView::Cancelled) => "assistant-final> turn cancelled"@,
        Err(error) => "assistant-final> error: "@ + error.text(),
    }
}

/// What is printed after a voice turn.
pub fn voice_end_line(
    result: &std::result::Result<VoiceTurnOutput, VoiceTurnError>,
) -> (line: String)
    ensures
        line@ == voice_end(output_view(*result)),
{
    match result {
        Ok(output) => "assistant-final> ".to_owned().concat(output.text.as_str()),
        Err(VoiceTurnError::Cancelled) => "assistant-final> turn cancelled".to_owned(),
        Err(error) => {
            "assistant-final> error: ".to_owned().concat(error.message().as_str())
        },
    }
}

/// What is printed of the tools of a chat.
pub fn tools_line(tools_enabled: bool) -> (line: String)
    ensures
        line@ == if tools_enabled {
            "tools: calculator, mock_crm_lookup"@
        } else {
            "tools: disabled"@
        },
{
    if tools_enabled {
        "tools: calculator, mock_crm_lookup".to_owned()
    } else {
        "tools: disabled".to_owned()
    }
}

/// What is printed for events, in order, from the beginning of a line.
pub open spec fn printed_all(events: Seq<RuntimeEventView>) -> Seq<char>
    decreases events.len(),
{
    if events.len() == 0 {
        Seq::empty()
    } else {
        let before = events.drop_last();
        printed_all(before) + printed(before.len() > 0 && before.last() is AssistantToken, events.last())
    }
}

/// The texts of tokens, one after the other.
pub open spec fn streamed_text(events: Seq<RuntimeEventView>) -> Seq<char>
    decreases events.len(),
{
    if events.len() == 0 {
        Seq::empty()
    } else {
        match events.last() {
            RuntimeEventView::AssistantToken { text, .. } => streamed_text(events.drop_last())
                + text,
            _ => streamed_text(events.drop_last()),
        }
    }
}

/// Tokens that follow one another are printed as one text, on a line of their own which begins
/// with who speaks; the next other event ends that line and is printed on its own.
pub proof fn an_answer_is_printed_on_one_line(
    before: Seq<RuntimeEventView>,
    tokens: Seq<RuntimeEventView>,
    event: RuntimeEventView,
)
    requires
        tokens.len() > 0,
        before.len() > 0 ==> !(before.last() is AssistantToken),
        forall|i: int| 0 <= i < tokens.len() ==> #[trigger] tokens[i] is AssistantToken,
        !(event is AssistantToken),
    ensures
        printed_all(before + tokens) == printed_all(before) + "assistant> "@ + streamed_text(tokens),
        printed_all((before + tokens).push(event)) == printed_all(before + tokens) + "\n"@
            + runtime_event_text(event) + "\n"@,
        printed_all(before.push(event)) == printed_all(before) + runtime_event_text(event) + "\n"@,
    decreases tokens.len(),
{
    let all = before + tokens;
    let rest = tokens.drop_last();
    assert(tokens[tokens.len() - 1] is AssistantToken);
    assert(all.drop_last() =~= before + rest);
    assert(all.last() == tokens.last());
    if rest.len() == 0 {
        assert(before + rest =~= before);
        assert(streamed_text(rest) =~= Seq::empty());
        assert(printed_all(all) =~= printed_all(before) + "assistant> "@ + streamed_text(tokens));
    } else {
        assert forall|i: int| 0 <= i < rest.len() implies #[trigger] rest[i] is AssistantToken by {
            assert(tokens[i] is AssistantToken);
        }
        an_answer_is_printed_on_one_line(before, rest, event);
        assert(rest[rest.len() - 1] is AssistantToken);
        assert((before + rest).last() == rest.last());
        assert(printed_all(all) =~= printed_all(before) + "assistant> "@ + streamed_text(tokens));
    }
    assert(all.push(event).drop_last() =~= all);
    assert(before.push(event).drop_last() =~= before);
    assert(printed_all(all.push(event)) =~= printed_all(all) + "\n"@ + runtime_event_text(event)
        + "\n"@);
    assert(printed_all(before.push(event)) =~= printed_all(before) + runtime_event_text(event)
        + "\n"@);
}

/// How many metrics have samples.
pub open spec fn metrics_with_samples(snapshot: VoiceLatencySnapshot) -> nat {
    (if snapshot.stt_finalization is Some {
        1nat
    } else {
        0nat
    }) + (if snapshot.llm_first_token is Some {
        1nat
    } else {
        0nat
    }) + (if snapshot.tts_first_audio is Some {
        1nat
    } else {
        0nat
    }) + (if snapshot.voice_turn_round_trip is Some {
        1nat
    } else {
        0nat
    })
}

/// Whether a line tells the summary of a metric: its name, how many samples there are, their median
/// and their tail.
pub open spec fn tells_summary(
    line: Seq<char>,
    metric: VoiceLatencyMetric,
    stats: VoiceLatencyStats,
) -> bool {
    line == "voice-metrics> "@ + metric.named() + (" samples="@ + decimal(stats.samples as nat)) + (
    " p50_ms="@ + decimal(stats.p50_ms as nat)) + (" p95_ms="@ + decimal(stats.p95_ms as nat))
}

/// Each metric that has samples has one line, which tells its own summary, and no other has any: the
/// transcription comes first, then the agent, then the speech, and the whole turn last.
pub proof fn each_metric_with_samples_has_a_line(snapshot: VoiceLatencySnapshot)
    ensures
        ({
            let lines = snapshot_lines(snapshot);
            &&& lines.len() == metrics_with_samples(snapshot)
            &&& snapshot.stt_finalization matches Some(stats) ==> tells_summary(
                lines.first(),
                VoiceLatencyMetric::SttFinalization,
                stats,
            )
            &&& snapshot.voice_turn_round_trip matches Some(stats) ==> tells_summary(
                lines.last(),
                VoiceLatencyMetric::VoiceTurnRoundTrip,
                stats,
            )
            &&& snapshot.llm_first_token matches Some(stats) ==> tells_summary(
                lines[if snapshot.stt_finalization is Some {
                    1
                } else {
                    0
                }],
                VoiceLatencyMetric::LlmFirstToken,
                stats,
            )
            &&& snapshot.tts_first_audio matches Some(stats) ==> tells_summary(
                lines[lines.len() - if snapshot.voice_turn_round_trip is Some {
                    2int
                } else {
                    1int
                }],
                VoiceLatencyMetric::TtsFirstAudio,
                stats,
            )
        }),
{
}

/// A chat prints nothing more of a turn that gave an answer, and otherwise that it was cancelled or
/// what went wrong; a voice turn prints its output, or the like.
pub proof fn the_end_of_a_turn_is_printed(
    chat: std::result::Result<Seq<char>, RuntimeErrorView>,
    voice: std::result::Result<Seq<char>, VoiceTurnErrorView>,
)
    ensures
        chat_end(chat) is None <==> chat is Ok,
        chat is Err && chat->Err_0 is Cancelled ==> chat_end(chat) == Some(
            "assistant> turn cancelled"@,
        ),
        chat is Err && !(chat->Err_0 is Cancelled) ==> chat_end(chat) == Some(
            "assistant> error: "@ + chat->Err_0.text(),
        ),
        voice is Ok ==> voice_end(voice) == "assistant-final> "@ + voice->Ok_0,
        voice is Err && voice->Err_0 is Cancelled ==> voice_end(voice)
            == "assistant-final> turn cancelled"@,
        voice is Err && !(voice->Err_0 is Cancelled) ==> voice_end(voice)
            == "assistant-final> error: "@ + voice->Err_0.text(),
{
}

/// No two states, and no two metrics, have the same name.
pub proof fn names_tell_states_and_metrics_apart(
    a: RequestState,
    b: RequestState,
    x: VoiceLatencyMetric,
    y: VoiceLatencyMetric,
)
    ensures
        state_text(a) == state_text(b) ==> a == b,
        x.named() == y.named() ==> x == y,
{
    reveal_strlit("started");
    reveal_strlit("streaming_llm");
    reveal_strlit("dispatching_tool");
    reveal_strlit("completed");
    reveal_strlit("cancelled");
    reveal_strlit("failed");
    assert("started"@.len() == 7 && "streaming_llm"@.len() == 13 && "dispatching_tool"@.len() == 16
        && "completed"@.len() == 9 && "cancelled"@.len() == 9 && "failed"@.len() == 6);
    assert("completed"@[1] == 'o' && "cancelled"@[1] == 'a');
    reveal_strlit("stt_finalization");
    reveal_strlit("llm_first_token");
    reveal_strlit("tts_first_audio");
    reveal_strlit("voice_turn_round_trip");
    assert("stt_finalization"@.len() == 16 && "llm_first_token"@.len() == 15
        && "tts_first_audio"@.len() == 15 && "voice_turn_round_trip"@.len() == 21);
    assert("llm_first_token"@[0] == 'l' && "tts_first_audio"@[0] == 't');
}

/// The line that tells an event of a turn holds what the event holds: the state, the call and its
/// tool, and each time and number under its name.
pub proof fn a_line_tells_its_event(event: RuntimeEventView)
    ensures
        ({
            let line = runtime_event_text(event);
            match event {
                RuntimeEventView::Lifecycle { to, .. } => holds(line, "state="@ + state_text(to)),
                RuntimeEventView::LlmFirstToken { elapsed_ms } => holds(line, decimal(elapsed_ms as nat)),
                RuntimeEventView::AssistantToken { .. } => line.len() == 0,
                RuntimeEventView::ToolDispatchStart { call_id, tool_name, elapsed_ms } => {
                    &&& holds(line, call_id + " name="@ + tool_name)
                    &&& holds(line, " elapsed_ms="@ + decimal(elapsed_ms as nat))
                },
                RuntimeEventView::ToolDispatchEnd { call_id, tool_name, duration_ms, success, .. } => {
                    &&& holds(line, call_id + " name="@ + tool_name)
                    &&& holds(line, " duration_ms="@ + decimal(duration_ms as nat))
                    &&& holds(
                        line,
                        if success {
                            " success="@ + "true"@
                        } else {
                            " success="@ + "false"@
                        },
                    )
                },
                RuntimeEventView::ToolTimeout { call_id, tool_name, timeout_ms, .. } => {
                    &&& holds(line, call_id + " name="@ + tool_name)
                    &&& holds(line, " timeout_ms="@ + decimal(timeout_ms as nat))
                },
                RuntimeEventView::TurnCompleted { elapsed_ms, output_chars } => {
                    &&& holds(line, "turn_completed elapsed_ms="@ + decimal(elapsed_ms as nat))
                    &&& holds(line, " output_chars="@ + decimal(output_chars as nat))
                },
            }
        }),
{
    let line = runtime_event_text(event);
    let none = Seq::<char>::empty();
    match event {
        RuntimeEventView::Lifecycle { to, .. } => {
            reveal_strlit("event> state=");
            reveal_strlit("event> ");
            reveal_strlit("state=");
            assert("event> state="@ =~= "event> "@ + "state="@);
            let part = "state="@ + state_text(to);
            holds_part("event> "@, part, none);
            assert(line =~= "event> "@ + part);
        },
        RuntimeEventView::LlmFirstToken { elapsed_ms } => {
            holds_part("event> llm_first_token elapsed_ms="@, decimal(elapsed_ms as nat), none);
        },
        RuntimeEventView::AssistantToken { .. } => {},
        RuntimeEventView::ToolDispatchStart { call_id, tool_name, elapsed_ms } => {
            let call = call_id + " name="@ + tool_name;
            let number = " elapsed_ms="@ + decimal(elapsed_ms as nat);
            holds_part("event> tool_start id="@, call, number);
            holds_part("event> tool_start id="@ + call, number, none);
            assert(line =~= "event> tool_start id="@ + call + number);
        },
        RuntimeEventView::ToolDispatchEnd { call_id, tool_name, duration_ms, success, .. } => {
            let call = call_id + " name="@ + tool_name;
            let number = " duration_ms="@ + decimal(duration_ms as nat);
            let end = " success="@ + bool_text(success);
            holds_part("event> tool_end id="@, call, number + end);
            holds_part("event> tool_end id="@ + call, number, end);
            holds_part("event> tool_end id="@ + call + number, end, none);
            assert(line =~= "event> tool_end id="@ + call + (number + end));
            assert(line =~= "event> tool_end id="@ + call + number + end);
        },
        RuntimeEventView::ToolTimeout { call_id, tool_name, timeout_ms, .. } => {
            let call = call_id + " name="@ + tool_name;
            let number = " timeout_ms="@ + decimal(timeout_ms as nat);
            holds_part("event> tool_timeout id="@, call, number);
            holds_part("event> tool_timeout id="@ + call, number, none);
            assert(line =~= "event> tool_timeout id="@ + call + number);
        },
        RuntimeEventView::TurnCompleted { elapsed_ms, output_chars } => {
            reveal_strlit("event> turn_completed elapsed_ms=");
            reveal_strlit("event> ");
            reveal_strlit("turn_completed elapsed_ms=");
            assert("event> turn_completed elapsed_ms="@ =~= "event> "@
                + "turn_completed elapsed_ms="@);
            let time = "turn_completed elapsed_ms="@ + decimal(elapsed_ms as nat);
            let number = " output_chars="@ + decimal(output_chars as nat);
            holds_part("event> "@, time, number);
            holds_part("event> "@ + time, number, none);
            assert(line =~= "event> "@ + time + number);
        },
    }
}

/// The line that tells an event of a voice turn begins with what it is and when it was, and holds
/// each of its numbers under its name.
pub proof fn a_line_tells_its_voice_event(event: VoiceEvent)
    ensures
        ({
            let line = voice_event_text(event);
            match event {
                VoiceEvent::SttPartial { elapsed_ms, stt_elapsed_ms, transcript_chars } => {
                    &&& holds(line, "stt_partial elapsed_ms="@ + decimal(elapsed_ms as nat))
                    &&& holds(line, " stt_elapsed_ms="@ + decimal(stt_elapsed_ms as nat))
                    &&& holds(line, " transcript_chars="@ + decimal(transcript_chars as nat))
                },
                VoiceEvent::SttFinal { elapsed_ms, stt_elapsed_ms, transcript_chars } => {
                    &&& holds(line, "stt_final elapsed_ms="@ + decimal(elapsed_ms as nat))
                    &&& holds(line, " stt_elapsed_ms="@ + decimal(stt_elapsed_ms as nat))
                    &&& holds(line, " transcript_chars="@ + decimal(transcript_chars as nat))
                },
                VoiceEvent::LlmFirstToken { elapsed_ms, runtime_elapsed_ms } => {
                    &&& holds(line, "llm_first_token elapsed_ms="@ + decimal(elapsed_ms as nat))
                    &&& holds(line, " runtime_elapsed_ms="@ + decimal(runtime_elapsed_ms as nat))
                },
                VoiceEvent::TtsFirstAudio { elapsed_ms, tts_elapsed_ms } => {
                    &&& holds(line, "tts_first_audio elapsed_ms="@ + decimal(elapsed_ms as nat))
                    &&& holds(line, " tts_elapsed_ms="@ + decimal(tts_elapsed_ms as nat))
                },
                VoiceEvent::VoiceTurnCompleted { elapsed_ms, output_chars } => {
                    &&& holds(line, "turn_completed elapsed_ms="@ + decimal(elapsed_ms as nat))
                    &&& holds(line, " output_chars="@ + decimal(output_chars as nat))
                },
                VoiceEvent::VoiceTurnCancelled { elapsed_ms } => holds(
                    line,
                    "turn_cancelled elapsed_ms="@ + decimal(elapsed_ms as nat),
                ),
                VoiceEvent::VoiceTurnInterrupted { elapsed_ms } => holds(
                    line,
                    "turn_interrupted elapsed_ms="@ + decimal(elapsed_ms as nat),
                ),
                VoiceEvent::VoiceTurnFailed { elapsed_ms } => holds(
                    line,
                    "turn_failed elapsed_ms="@ + decimal(elapsed_ms as nat),
                ),
            }
        }),
{
    let line = voice_event_text(event);
    let none = Seq::<char>::empty();
    reveal_strlit("voice> ");
    match event {
        VoiceEvent::SttPartial { elapsed_ms, stt_elapsed_ms, transcript_chars } => {
            reveal_strlit("voice> stt_partial elapsed_ms=");
            reveal_strlit("stt_partial elapsed_ms=");
            assert("voice> stt_partial elapsed_ms="@ =~= "voice> "@ + "stt_partial elapsed_ms="@);
            let time = "stt_partial elapsed_ms="@ + decimal(elapsed_ms as nat);
            let stt = " stt_elapsed_ms="@ + decimal(stt_elapsed_ms as nat);
            let number = " transcript_chars="@ + decimal(transcript_chars as nat);
            holds_part("voice> "@, time, stt + number);
            holds_part("voice> "@ + time, stt, number);
            holds_part("voice> "@ + time + stt, number, none);
            assert(line =~= "voice> "@ + time + (stt + number));
            assert(line =~= "voice> "@ + time + stt + number);
        },
        VoiceEvent::SttFinal { elapsed_ms, stt_elapsed_ms, transcript_chars } => {
            reveal_strlit("voice> stt_final elapsed_ms=");
            reveal_strlit("stt_final elapsed_ms=");
            assert("voice> stt_final elapsed_ms="@ =~= "voice> "@ + "stt_final elapsed_ms="@);
            let time = "stt_final elapsed_ms="@ + decimal(elapsed_ms as nat);
            let stt = " stt_elapsed_ms="@ + decimal(stt_elapsed_ms as nat);
            let number = " transcript_chars="@ + decimal(transcript_chars as nat);
            holds_part("voice> "@, time, stt + number);
            holds_part("voice> "@ + time, stt, number);
            holds_part("voice> "@ + time + stt, number, none);
            assert(line =~= "voice> "@ + time + (stt + number));
            assert(line =~= "voice> "@ + time + stt + number);
        },
        VoiceEvent::LlmFirstToken { elapsed_ms, runtime_elapsed_ms } => {
            reveal_strlit("voice> llm_first_token elapsed_ms=");
            reveal_strlit("llm_first_token elapsed_ms=");
            assert("voice> llm_first_token elapsed_ms="@ =~= "voice> "@
                + "llm_first_token elapsed_ms="@);
            let time = "llm_first_token elapsed_ms="@ + decimal(elapsed_ms as nat);
            let number = " runtime_elapsed_ms="@ + decimal(runtime_elapsed_ms as nat);
            holds_part("voice> "@, time, number);
            holds_part("voice> "@ + time, number, none);
            assert(line =~= "voice> "@ + time + number);
        },
        VoiceEvent::TtsFirstAudio { elapsed_ms, tts_elapsed_ms } => {
            reveal_strlit("voice> tts_first_audio elapsed_ms=");
            reveal_strlit("tts_first_audio elapsed_ms=");
            assert("voice> tts_first_audio elapsed_ms="@ =~= "voice> "@
                + "tts_first_audio elapsed_ms="@);
            let time = "tts_first_audio elapsed_ms="@ + decimal(elapsed_ms as nat);
            let number = " tts_elapsed_ms="@ + decimal(tts_elapsed_ms as nat);
            holds_part("voice> "@, time, number);
            holds_part("voice> "@ + time, number, none);
            assert(line =~= "voice> "@ + time + number);
        },
        VoiceEvent::VoiceTurnCompleted { elapsed_ms, output_chars } => {
            reveal_strlit("voice> turn_completed elapsed_ms=");
            reveal_strlit("turn_completed elapsed_ms=");
            assert("voice> turn_completed elapsed_ms="@ =~= "voice> "@
                + "turn_completed elapsed_ms="@);
            let time = "turn_completed elapsed_ms="@ + decimal(elapsed_ms as nat);
            let number = " output_chars="@ + decimal(output_chars as nat);
            holds_part("voice> "@, time, number);
            holds_part("voice> "@ + time, number, none);
            assert(line =~= "voice> "@ + time + number);
        },
        VoiceEvent::VoiceTurnCancelled { elapsed_ms } => {
            reveal_strlit("voice> turn_cancelled elapsed_ms=");
            reveal_strlit("turn_cancelled elapsed_ms=");
            assert("voice> turn_cancelled elapsed_ms="@ =~= "voice> "@
                + "turn_cancelled elapsed_ms="@);
            let time = "turn_cancelled elapsed_ms="@ + decimal(elapsed_ms as nat);
            holds_part("voice> "@, time, none);
            assert(line =~= "voice> "@ + time);
        },
        VoiceEvent::VoiceTurnInterrupted { elapsed_ms } => {
            reveal_strlit("voice> turn_interrupted elapsed_ms=");
            reveal_strlit("turn_interrupted elapsed_ms=");
            assert("voice> turn_interrupted elapsed_ms="@ =~= "voice> "@
                + "turn_interrupted elapsed_ms="@);
            let time = "turn_interrupted elapsed_ms="@ + decimal(elapsed_ms as nat);
            holds_part("voice> "@, time, none);
            assert(line =~= "voice> "@ + time);
        },
        VoiceEvent::VoiceTurnFailed { elapsed_ms } => {
            reveal_strlit("voice> turn_failed elapsed_ms=");
            reveal_strlit("turn_failed elapsed_ms=");
            assert("voice> turn_failed elapsed_ms="@ =~= "voice> "@ + "turn_failed elapsed_ms="@);
            let time = "turn_failed elapsed_ms="@ + decimal(elapsed_ms as nat);
            holds_part("voice> "@, time, none);
            assert(line =~= "voice> "@ + time);
        },
    }
}

/// The line that tells an event of fake speech holds its time and, for audio, the text of its bytes.
pub proof fn a_line_tells_its_speech_event(event: TtsEventView)
    ensures
        ({
            let line = tts_event_text(event);
            match event {
                TtsEventView::FirstAudio { elapsed_ms } => holds(line, decimal(elapsed_ms as nat)),
                TtsEventView::AudioChunk { bytes, elapsed_ms } => {
                    &&& holds(line, decimal(elapsed_ms as nat))
                    &&& holds(line, " bytes="@ + lossy_text(bytes))
                },
                _ => true,
            }
        }),
{
    let line = tts_event_text(event);
    let none = Seq::<char>::empty();
    match event {
        TtsEventView::FirstAudio { elapsed_ms } => {
            holds_part("tts> first_audio elapsed_ms="@, decimal(elapsed_ms as nat), none);
        },
        TtsEventView::AudioChunk { bytes, elapsed_ms } => {
            let time = decimal(elapsed_ms as nat);
            let text = " bytes="@ + lossy_text(bytes);
            holds_part("tts> audio_chunk elapsed_ms="@, time, text);
            holds_part("tts> audio_chunk elapsed_ms="@ + time, text, none);
            assert(line =~= "tts> audio_chunk elapsed_ms="@ + time + text);
        },
        _ => {},
    }
}

} // verus!
