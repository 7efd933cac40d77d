//! Smoke tests of the speech backends: what they print, and what they collect.
use vstd::prelude::*;

use crate::cli::render::field;
use crate::runtime::{byte_len, text_bytes};
use crate::text::{
    debug_form, debug_text, decimal, decimal_text, holds, holds_part, opt_view,
};
use crate::voice::livekit::LiveKitConfig;
use crate::voice::{TranscriptEvent, TranscriptEventView, TtsEvent, TtsEventView};

verus! {

/// The line to print, and whether the smoke test is over.
#[derive(Debug, PartialEq, Eq)]
pub struct SmokeStep {
    pub line: Option<String>,
    pub done: bool,
}

#[verifier::ext_equal]
pub struct SmokeStepView {
    pub line: Option<Seq<char>>,
    pub done: bool,
}

impl View for SmokeStep {
    type V = SmokeStepView;

    open spec fn view(&self) -> SmokeStepView {
        SmokeStepView { line: opt_view(self.line), done: self.done }
    }
}

/// How much audio a speech gave.
#[derive(Debug, Clone, Copy, PartialEq, Eq, Structural)]
pub struct TtsSmoke {
    pub chunks: usize,
    pub bytes: usize,
}

impl TtsSmoke {
    /// Whether the counts still fit after an event.
    pub open spec fn fits(self, event: TtsEventView) -> bool {
        event matches TtsEventView::AudioChunk { bytes, .. } ==> self.chunks < usize::MAX
            && self.bytes + bytes.len() <= usize::MAX
    }

    /// The counts after an event.
    pub open spec fn counted(self, event: TtsEventView) -> TtsSmoke {
        match event {
            TtsEventView::AudioChunk { bytes, .. } => TtsSmoke {
                chunks: (self.chunks + 1) as usize,
                bytes: (self.bytes + bytes.len()) as usize,
            },
            _ => self,
        }
    }

    /// What is printed for an event.
    pub open spec fn told(self, event: TtsEventView) -> SmokeStepView {
        match event {
            TtsEventView::FirstAudio { elapsed_ms } => SmokeStepView {
                line: Some(field("deepgram-tts> first_audio elapsed_ms="@, elapsed_ms)),
                done: false,
            },
            TtsEventView::AudioChunk { bytes, elapsed_ms } => SmokeStepView {
                line: Some(
                    field("deepgram-tts> audio_chunk elapsed_ms="@, elapsed_ms) + field(
                        " bytes="@,
                        bytes.len() as u128,
                    ),
                ),
                done: false,
            },
            TtsEventView::PlaybackReset => SmokeStepView { line: None, done: false },
            TtsEventView::Done => SmokeStepView {
                line: Some(
                    field("deepgram-tts> done chunks="@, self.chunks as u128) + field(
                        " bytes="@,
                        self.bytes as u128,
                    ),
                ),
                done: true,
            },
        }
    }

    pub fn new() -> (smoke: TtsSmoke)
        ensures
            smoke == (TtsSmoke { chunks: 0, bytes: 0 }),
    {
        TtsSmoke { chunks: 0, bytes: 0 }
    }

    /// Counts the audio of an event; gives what is printed for it.
    pub fn on_event(&mut self, event: &TtsEvent) -> (step: SmokeStep)
        requires
            old(self).fits(event@),
        ensures
            *final(self) == old(self).counted(event@),
            step@ == old(self).told(event@),
    {
        match event {
            TtsEvent::FirstAudio { elapsed_ms } => SmokeStep {
                line: Some(first_audio_line(*elapsed_ms)),
                done: false,
            },
            TtsEvent::AudioChunk { bytes, elapsed_ms } => {
                self.chunks = self.chunks + 1;
                self.bytes = self.bytes + bytes.len();
                let line = "deepgram-tts> audio_chunk elapsed_ms=".to_owned().concat(
                    decimal_text(*elapsed_ms).as_str(),
                ).concat(" bytes=").concat(decimal_text(bytes.len() as u128).as_str());
                assert(line@ =~= old(self).told(event@).line->0);
                SmokeStep { line: Some(line), done: false }
            },
            TtsEvent::PlaybackReset => SmokeStep { line: None, done: false },
            TtsEvent::Done => {
                let line = "deepgram-tts> done chunks=".to_owned().concat(
                    decimal_text(self.chunks as u128).as_str(),
                ).concat(" bytes=").concat(decimal_text(self.bytes as u128).as_str());
                assert(line@ =~= old(self).told(event@).line->0);
                SmokeStep { line: Some(line), done: true }
            },
        }
    }
}

fn first_audio_line(elapsed_ms: u128) -> (line: String)
    ensures
        line@ == field("deepgram-tts> first_audio elapsed_ms="@, elapsed_ms),
{
    "deepgram-tts> first_audio elapsed_ms=".to_owned().concat(decimal_text(elapsed_ms).as_str())
}

/// Collects the audio of an event; gives what is printed for it.
pub fn collect_tts_audio(audio: &mut Vec<u8>, event: TtsEvent) -> (step: SmokeStep)
    ensures
        final(audio)@ == (match event@ {
            TtsEventView::AudioChunk { bytes, .. } => old(audio)@ + bytes,
            _ => old(audio)@,
        }),
        step@ == (SmokeStepView {
            line: match event@ {
                TtsEventView::FirstAudio { elapsed_ms } => Some(
                    field("deepgram-tts> first_audio elapsed_ms="@, elapsed_ms),
                ),
                _ => None,
            },
            done: event@ is Done,
        }),
{
    match event {
        TtsEvent::FirstAudio { elapsed_ms } => SmokeStep {
            line: Some(first_audio_line(elapsed_ms)),
            done: false,
        },
        TtsEvent::AudioChunk { bytes, .. } => {
            let ghost before = audio@;
            audio.extend_from_slice(bytes.as_slice());
            assert(audio@ =~= before + bytes@);
            SmokeStep { line: None, done: false }
        },
        TtsEvent::PlaybackReset => SmokeStep { line: None, done: false },
        TtsEvent::Done => SmokeStep { line: None, done: true },
    }
}

/// What is printed for an event of a transcription.
pub open spec fn transcript_step(event: TranscriptEventView) -> SmokeStepView {
    match event {
        TranscriptEventView::Partial { text, elapsed_ms } => SmokeStepView {
            line: Some(
                field("deepgram-stt> partial elapsed_ms="@, elapsed_ms) + " text="@ + debug_form(
                    text,
                ),
            ),
            done: false,
        },
        TranscriptEventView::Final { text, elapsed_ms } => SmokeStepView {
            line: Some(
                field("deepgram-stt> final elapsed_ms="@, elapsed_ms) + " text="@ + debug_form(
                    text,
                ),
            ),
            done: false,
        },
        TranscriptEventView::Breakdown(_) => SmokeStepView { line: None, done: false },
        TranscriptEventView::Done => SmokeStepView {
            line: Some("deepgram-stt> done"@),
            done: true,
        },
    }
}

/// What is printed for an event of a transcription.
pub fn on_transcript_event(event: &TranscriptEvent) -> (step: SmokeStep)
    ensures
        step@ == transcript_step(event@),
{
    match event {
        TranscriptEvent::Partial { text, elapsed_ms } => SmokeStep {
            line: Some(
                "deepgram-stt> partial elapsed_ms=".to_owned().concat(
                    decimal_text(*elapsed_ms).as_str(),
                ).concat(" text=").concat(debug_text(text.as_str()).as_str()),
            ),
            done: false,
        },
        TranscriptEvent::Final { text, elapsed_ms } => SmokeStep {
            line: Some(
                "deepgram-stt> final elapsed_ms=".to_owned().concat(
                    decimal_text(*elapsed_ms).as_str(),
                ).concat(" text=").concat(debug_text(text.as_str()).as_str()),
            ),
            done: false,
        },
        TranscriptEvent::Breakdown(_) => SmokeStep { line: None, done: false },
        TranscriptEvent::Done => SmokeStep {
            line: Some("deepgram-stt> done".to_owned()),
            done: true,
        },
    }
}

/// The line that tells how much audio was made for a loopback.
pub fn synthesized_line(audio: &Vec<u8>) -> (line: String)
    ensures
        line@ == field("deepgram-loopback> synthesized_raw_pcm_bytes="@, audio@.len() as u128),
{
    "deepgram-loopback> synthesized_raw_pcm_bytes=".to_owned().concat(
        decimal_text(audio.len() as u128).as_str(),
    )
}

/// The line that tells of a token without showing it.
pub fn token_line(config: &LiveKitConfig, token: &str) -> (line: String)
    ensures
        line@ == "livekit-token> url="@ + config.url@ + " room="@ + config.room@ + " identity="@
            + config.identity@ + field(" token_bytes="@, text_bytes(token@) as u128),
{
    let line = "livekit-token> url=".to_owned().concat(config.url.as_str()).concat(
        " room=",
    ).concat(config.room.as_str()).concat(" identity=").concat(config.identity.as_str()).concat(
        " token_bytes=",
    ).concat(decimal_text(byte_len(token) as u128).as_str());
    assert(line@ =~= "livekit-token> url="@ + config.url@ + " room="@ + config.room@ + " identity="@
        + config.identity@ + field(" token_bytes="@, text_bytes(token@) as u128));
    line
}

/// The counts after some events.
pub open spec fn counted_all(events: Seq<TtsEventView>) -> TtsSmoke
    decreases events.len(),
{
    if events.len() == 0 {
        TtsSmoke { chunks: 0, bytes: 0 }
    } else {
        counted_all(events.drop_last()).counted(events.last())
    }
}

/// How many of the events are pieces of audio.
pub open spec fn pieces_in(events: Seq<TtsEventView>) -> nat
    decreases events.len(),
{
    if events.len() == 0 {
        0
    } else {
        pieces_in(events.drop_last()) + if events.last() is AudioChunk {
            1nat
        } else {
            0nat
        }
    }
}

/// How many bytes of audio the events hold.
pub open spec fn bytes_in(events: Seq<TtsEventView>) -> nat
    decreases events.len(),
{
    if events.len() == 0 {
        0
    } else {
        bytes_in(events.drop_last()) + match events.last() {
            TtsEventView::AudioChunk { bytes, .. } => bytes.len(),
            _ => 0nat,
        }
    }
}

/// All audio of a speech is counted, whatever comes between its pieces, and the end tells the
/// counts. The end alone ends the test.
pub proof fn all_audio_is_counted(events: Seq<TtsEventView>, event: TtsEventView)
    requires
        pieces_in(events) <= usize::MAX,
        bytes_in(events) <= usize::MAX,
    ensures
        counted_all(events).chunks == pieces_in(events),
        counted_all(events).bytes == bytes_in(events),
        counted_all(events).told(event).done <==> event is Done,
        event is Done ==> counted_all(events).told(event).line == Some(
            "deepgram-tts> done chunks="@ + decimal(pieces_in(events)) + (" bytes="@ + decimal(
                bytes_in(events),
            )),
        ),
    decreases events.len(),
{
    if events.len() > 0 {
        all_audio_is_counted(events.drop_last(), event);
    }
}

/// Of a transcription the transcripts and the end are printed, each transcript with its time and its
/// text; and the end alone ends the test.
pub proof fn transcripts_are_printed(event: TranscriptEventView)
    ensures
        ({
            let step = transcript_step(event);
            &&& step.done <==> event is Done
            &&& step.line is None <==> event is Breakdown
            &&& event matches TranscriptEventView::Partial { text, elapsed_ms } ==> holds(
                step.line->0,
                "partial elapsed_ms="@ + decimal(elapsed_ms as nat),
            ) && holds(step.line->0, " text="@ + debug_form(text))
            &&& event matches TranscriptEventView::Final { text, elapsed_ms } ==> holds(
                step.line->0,
                "final elapsed_ms="@ + decimal(elapsed_ms as nat),
            ) && holds(step.line->0, " text="@ + debug_form(text))
        }),
{
    let none = Seq::<char>::empty();
    reveal_strlit("deepgram-stt> ");
    match event {
        TranscriptEventView::Partial { text, elapsed_ms } => {
            let line = transcript_step(event).line->0;
            reveal_strlit("deepgram-stt> partial elapsed_ms=");
            reveal_strlit("partial elapsed_ms=");
            assert("deepgram-stt> partial elapsed_ms="@ =~= "deepgram-stt> "@
                + "partial elapsed_ms="@);
            let time = "partial elapsed_ms="@ + decimal(elapsed_ms as nat);
            let said = " text="@ + debug_form(text);
            holds_part("deepgram-stt> "@, time, said);
            holds_part("deepgram-stt> "@ + time, said, none);
            assert(line =~= "deepgram-stt> "@ + time + said);
        },
        TranscriptEventView::Final { text, elapsed_ms } => {
            let line = transcript_step(event).line->0;
            reveal_strlit("deepgram-stt> final elapsed_ms=");
            reveal_strlit("final elapsed_ms=");
            assert("deepgram-stt> final elapsed_ms="@ =~= "deepgram-stt> "@ + "final elapsed_ms="@);
            let time = "final elapsed_ms="@ + decimal(elapsed_ms as nat);
            let said = " text="@ + debug_form(text);
            holds_part("deepgram-stt> "@, time, said);
            holds_part("deepgram-stt> "@ + time, said, none);
            assert(line =~= "deepgram-stt> "@ + time + said);
        },
        _ => {},
    }
}

} // verus!
