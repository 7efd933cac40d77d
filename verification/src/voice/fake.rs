//! Deterministic speech backends for tests and demos: audio is text, and speech is text.
use std::collections::VecDeque;

use vstd::prelude::*;
use vstd::utf8::encode_utf8;

use crate::streams::{one_less, one_more, StreamCounter};
use crate::text::{
    decimal, decimal_text, encode_of_sum, lossy_text, reads_as_text, utf8_lossy, utf8_of, views,
    views_of_push,
};
use crate::voice::{
    AudioChunk, AudioChunkView, TranscriptEvent, TranscriptEventView, TtsEvent, TtsEventView,
};

verus! {

/// Transcribes audio whose bytes are text.
#[derive(Debug)]
pub struct FakeSpeechToText {
    active_streams: StreamCounter,
}

impl View for FakeSpeechToText {
    type V = usize;

    /// The number of streams that are running.
    closed spec fn view(&self) -> usize {
        self.active_streams@
    }
}

impl FakeSpeechToText {
    pub fn new() -> (stt: FakeSpeechToText)
        ensures
            stt@ == 0,
    {
        FakeSpeechToText { active_streams: StreamCounter::new() }
    }

    pub fn active_stream_count(&self) -> (count: usize)
        ensures
            count == self@,
    {
        self.active_streams.count()
    }

    /// Starts a stream.
    pub fn start_stream(&mut self) -> (stream: FakeSttStream)
        ensures
            stream@ == FakeSttView::fresh(),
            final(self)@ == one_more(old(self)@),
    {
        self.active_streams.start();
        let stream = FakeSttStream {
            transcript: String::new(),
            last_elapsed_ms: 0,
            pending: VecDeque::new(),
            done_sent: false,
        };
        assert(stream@ =~= FakeSttView::fresh());
        stream
    }

    /// Counts a stream that was dropped.
    pub fn drop_stream(&mut self, stream: FakeSttStream)
        ensures
            final(self)@ == one_less(old(self)@),
    {
        self.active_streams.finish();
    }
}

impl Default for FakeSpeechToText {
    fn default() -> (stt: Self)
        ensures
            stt@ == 0,
    {
        FakeSpeechToText::new()
    }
}

/// One transcription: what was understood so far, and the events that were not taken yet.
#[derive(Debug)]
pub struct FakeSttStream {
    transcript: String,
    last_elapsed_ms: u128,
    pending: VecDeque<TranscriptEvent>,
    done_sent: bool,
}

#[verifier::ext_equal]
pub struct FakeSttView {
    pub transcript: Seq<char>,
    pub last_elapsed_ms: u128,
    pub pending: Seq<TranscriptEventView>,
    pub done_sent: bool,
}

impl View for FakeSttStream {
    type V = FakeSttView;

    closed spec fn view(&self) -> FakeSttView {
        FakeSttView {
            transcript: self.transcript@,
            last_elapsed_ms: self.last_elapsed_ms,
            pending: views(self.pending@),
            done_sent: self.done_sent,
        }
    }
}

impl FakeSttView {
    /// A stream before any audio.
    pub open spec fn fresh() -> FakeSttView {
        FakeSttView {
            transcript: Seq::empty(),
            last_elapsed_ms: 0,
            pending: Seq::empty(),
            done_sent: false,
        }
    }

    /// The stream after a chunk: its text is understood, and told.
    pub open spec fn heard(self, chunk: AudioChunkView) -> FakeSttView {
        let transcript = self.transcript + lossy_text(chunk.bytes);
        FakeSttView {
            transcript,
            last_elapsed_ms: chunk.elapsed_ms,
            pending: self.pending.push(
                TranscriptEventView::Partial { text: transcript, elapsed_ms: chunk.elapsed_ms },
            ),
            done_sent: self.done_sent,
        }
    }

    /// The stream after the end of the audio: where something was understood it is final.
    pub open spec fn ended(self) -> FakeSttView {
        let told = if self.transcript.len() > 0 {
            self.pending.push(
                TranscriptEventView::Final {
                    text: self.transcript,
                    elapsed_ms: self.last_elapsed_ms,
                },
            )
        } else {
            self.pending
        };
        FakeSttView {
            pending: told.push(TranscriptEventView::Done),
            done_sent: true,
            ..self
        }
    }

    /// The stream without its first pending event.
    pub open spec fn taken(self) -> FakeSttView {
        FakeSttView { pending: self.pending.drop_first(), ..self }
    }
}

/// What a stream gives when it is polled.
#[derive(Debug)]
pub enum FakePoll<T> {
    /// An event.
    Event(T),
    /// Nothing before more input comes.
    NeedsInput,
    /// Nothing any more.
    Finished,
}

impl FakeSttStream {
    /// The first pending event; without one, audio is needed until the end was told.
    pub fn poll(&mut self) -> (poll: FakePoll<TranscriptEvent>)
        ensures
            match poll {
                FakePoll::Event(event) => old(self)@.pending.len() > 0 && event@
                    == old(self)@.pending[0] && final(self)@ == old(self)@.taken(),
                FakePoll::NeedsInput => old(self)@.pending.len() == 0 && !old(self)@.done_sent
                    && final(self)@ == old(self)@,
                FakePoll::Finished => old(self)@.pending.len() == 0 && old(self)@.done_sent
                    && final(self)@ == old(self)@,
            },
    {
        let ghost pending = self.pending@;
        match self.pending.pop_front() {
            Some(event) => {
                assert(views(pending)[0] == event@);
                assert(views(self.pending@) =~= views(pending).drop_first());
                FakePoll::Event(event)
            },
            None => {
                assert(self.pending@ =~= pending);
                if self.done_sent {
                    FakePoll::Finished
                } else {
                    FakePoll::NeedsInput
                }
            },
        }
    }

    fn tell(&mut self, event: TranscriptEvent)
        ensures
            final(self)@ == (FakeSttView {
                pending: old(self)@.pending.push(event@),
                ..old(self)@
            }),
    {
        proof {
            views_of_push(self.pending@, event);
        }
        self.pending.push_back(event);
    }

    /// Takes a chunk of audio in, or its end.
    pub fn on_audio(&mut self, chunk: Option<AudioChunk>)
        ensures
            final(self)@ == (match chunk {
                Some(chunk) => old(self)@.heard(chunk@),
                None => old(self)@.ended(),
            }),
            chunk matches Some(chunk) ==> reads_as_text(chunk.bytes@),
    {
        match chunk {
            Some(chunk) => {
                let fragment = utf8_lossy(chunk.bytes.as_slice());
                self.transcript.append(fragment.as_str());
                self.last_elapsed_ms = chunk.elapsed_ms;
                let text = self.transcript.clone();
                self.tell(TranscriptEvent::Partial { text, elapsed_ms: chunk.elapsed_ms });
            },
            None => {
                self.done_sent = true;
                if !self.transcript.as_str().is_empty() {
                    let text = self.transcript.clone();
                    let elapsed_ms: u128 = self.last_elapsed_ms;
                    self.tell(TranscriptEvent::Final { text, elapsed_ms });
                }
                self.tell(TranscriptEvent::Done);
            },
        }
    }
}

/// The stream after some chunks.
pub open spec fn heard_all(chunks: Seq<AudioChunkView>) -> FakeSttView
    decreases chunks.len(),
{
    if chunks.len() == 0 {
        FakeSttView::fresh()
    } else {
        heard_all(chunks.drop_last()).heard(chunks.last())
    }
}

/// A transcription tells one partial transcript for each chunk, each the text of all chunks so far;
/// then, where anything was understood, the whole text as the final one, at the time of the last
/// chunk; and then its end.
pub proof fn transcription_grows_to_its_final(chunks: Seq<AudioChunkView>)
    ensures
        ({
            let heard = heard_all(chunks);
            let told = heard.ended().pending;
            let n = chunks.len() as int;
            &&& heard.pending.len() == n
            &&& forall|i: int|
                0 <= i < n ==> #[trigger] told[i] == (TranscriptEventView::Partial {
                    text: heard_all(chunks.take(i + 1)).transcript,
                    elapsed_ms: chunks[i].elapsed_ms,
                })
            &&& heard.transcript.len() > 0 ==> {
                &&& told.len() == n + 2
                &&& told[n] == (TranscriptEventView::Final {
                    text: heard.transcript,
                    elapsed_ms: chunks[n - 1].elapsed_ms,
                })
            }
            &&& heard.transcript.len() == 0 ==> told.len() == n + 1
            &&& told.last() == TranscriptEventView::Done
        }),
    decreases chunks.len(),
{
    let heard = heard_all(chunks);
    let n = chunks.len() as int;
    if n > 0 {
        let rest = chunks.drop_last();
        transcription_grows_to_its_final(rest);
        let before = heard_all(rest);
        assert forall|i: int| 0 <= i < n implies #[trigger] heard.ended().pending[i] == (
        TranscriptEventView::Partial {
            text: heard_all(chunks.take(i + 1)).transcript,
            elapsed_ms: chunks[i].elapsed_ms,
        }) by {
            if i < n - 1 {
                assert(before.ended().pending[i] == heard.ended().pending[i]);
                assert(rest.take(i + 1) =~= chunks.take(i + 1));
            } else {
                assert(chunks.take(i + 1) =~= chunks);
            }
        }
    }
}

/// The texts of all chunks, one after the other.
pub open spec fn texts_of(chunks: Seq<AudioChunkView>) -> Seq<char>
    decreases chunks.len(),
{
    if chunks.len() == 0 {
        Seq::empty()
    } else {
        texts_of(chunks.drop_last()) + lossy_text(chunks.last().bytes)
    }
}

/// What is understood is the text of all chunks: the last partial transcript and the final one hold
/// all of it.
pub proof fn all_audio_is_understood(chunks: Seq<AudioChunkView>)
    ensures
        ({
            let heard = heard_all(chunks);
            let told = heard.ended().pending;
            let n = chunks.len() as int;
            &&& heard.transcript == texts_of(chunks)
            &&& n > 0 ==> told[n - 1] == (TranscriptEventView::Partial {
                text: texts_of(chunks),
                elapsed_ms: chunks[n - 1].elapsed_ms,
            })
            &&& texts_of(chunks).len() > 0 ==> told[n] == (TranscriptEventView::Final {
                text: texts_of(chunks),
                elapsed_ms: chunks[n - 1].elapsed_ms,
            })
            &&& !heard.done_sent && heard.ended().done_sent
        }),
    decreases chunks.len(),
{
    transcription_grows_to_its_final(chunks);
    if chunks.len() > 0 {
        all_audio_is_understood(chunks.drop_last());
        assert(chunks.take(chunks.len() as int) =~= chunks);
    }
}

/// Speaks text as bytes that hold it.
#[derive(Debug)]
pub struct FakeTextToSpeech {
    active_streams: StreamCounter,
}

impl View for FakeTextToSpeech {
    type V = usize;

    /// The number of streams that are running.
    closed spec fn view(&self) -> usize {
        self.active_streams@
    }
}

impl FakeTextToSpeech {
    pub fn new() -> (tts: FakeTextToSpeech)
        ensures
            tts@ == 0,
    {
        FakeTextToSpeech { active_streams: StreamCounter::new() }
    }

    pub fn active_stream_count(&self) -> (count: usize)
        ensures
            count == self@,
    {
        self.active_streams.count()
    }

    /// Starts a stream.
    pub fn start_stream(&mut self) -> (stream: FakeTtsStream)
        ensures
            stream@ == FakeTtsView::fresh(),
            final(self)@ == one_more(old(self)@),
    {
        self.active_streams.start();
        let stream = FakeTtsStream {
            first_audio_sent: false,
            next_chunk_index: 0,
            pending: VecDeque::new(),
            done_sent: false,
        };
        assert(stream@ =~= FakeTtsView::fresh());
        stream
    }

    /// Counts a stream that was dropped.
    pub fn drop_stream(&mut self, stream: FakeTtsStream)
        ensures
            final(self)@ == one_less(old(self)@),
    {
        self.active_streams.finish();
    }
}

impl Default for FakeTextToSpeech {
    fn default() -> (tts: Self)
        ensures
            tts@ == 0,
    {
        FakeTextToSpeech::new()
    }
}

/// One speech: how many chunks were spoken, and the events that were not taken yet.
#[derive(Debug)]
pub struct FakeTtsStream {
    first_audio_sent: bool,
    next_chunk_index: u64,
    pending: VecDeque<TtsEvent>,
    done_sent: bool,
}

#[verifier::ext_equal]
pub struct FakeTtsView {
    pub first_audio_sent: bool,
    pub next_chunk_index: u64,
    pub pending: Seq<TtsEventView>,
    pub done_sent: bool,
}

impl View for FakeTtsStream {
    type V = FakeTtsView;

    closed spec fn view(&self) -> FakeTtsView {
        FakeTtsView {
            first_audio_sent: self.first_audio_sent,
            next_chunk_index: self.next_chunk_index,
            pending: views(self.pending@),
            done_sent: self.done_sent,
        }
    }
}

/// The bytes of the fragment of an index.
pub open spec fn chunk_bytes(index: int, fragment: Seq<char>) -> Seq<u8> {
    encode_utf8("fake-tts:"@ + decimal(index as nat) + ":"@ + fragment)
}

/// The bytes of the fragment of an index.
pub fn deterministic_chunk(index: u64, fragment: &str) -> (bytes: Vec<u8>)
    ensures
        bytes@ == chunk_bytes(index as int, fragment@),
{
    let text = "fake-tts:".to_owned().concat(decimal_text(index as u128).as_str()).concat(
        ":",
    ).concat(fragment);
    utf8_of(text.as_str())
}

/// The bytes of a fragment tell its index and hold it: they end with its own bytes, after a mark and
/// the index.
pub proof fn chunks_hold_their_fragment(index: nat, fragment: Seq<char>)
    ensures
        chunk_bytes(index as int, fragment) == encode_utf8("fake-tts:"@) + encode_utf8(decimal(index))
            + encode_utf8(":"@) + encode_utf8(fragment),
{
    encode_of_sum("fake-tts:"@, decimal(index));
    encode_of_sum("fake-tts:"@ + decimal(index), ":"@);
    encode_of_sum("fake-tts:"@ + decimal(index) + ":"@, fragment);
}

impl FakeTtsView {
    /// A stream before any text.
    pub open spec fn fresh() -> FakeTtsView {
        FakeTtsView {
            first_audio_sent: false,
            next_chunk_index: 0,
            pending: Seq::empty(),
            done_sent: false,
        }
    }

    /// The stream after a fragment: the first one is told, and each is a chunk.
    pub open spec fn spoken(self, fragment: Seq<char>, elapsed_ms: u128) -> FakeTtsView {
        let told = if self.first_audio_sent {
            self.pending
        } else {
            self.pending.push(TtsEventView::FirstAudio { elapsed_ms })
        };
        FakeTtsView {
            first_audio_sent: true,
            next_chunk_index: (self.next_chunk_index + 1) as u64,
            pending: told.push(
                TtsEventView::AudioChunk {
                    bytes: chunk_bytes(self.next_chunk_index as int, fragment),
                    elapsed_ms,
                },
            ),
            done_sent: self.done_sent,
        }
    }

    /// The stream after the end of the text.
    pub open spec fn ended(self) -> FakeTtsView {
        FakeTtsView {
            pending: self.pending.push(TtsEventView::Done),
            done_sent: true,
            ..self
        }
    }

    /// The stream without its first pending event.
    pub open spec fn taken(self) -> FakeTtsView {
        FakeTtsView { pending: self.pending.drop_first(), ..self }
    }
}

impl FakeTtsStream {
    /// The first pending event; without one, text is needed until the end was told.
    pub fn poll(&mut self) -> (poll: FakePoll<TtsEvent>)
        ensures
            match poll {
                FakePoll::Event(event) => old(self)@.pending.len() > 0 && event@
                    == old(self)@.pending[0] && final(self)@ == old(self)@.taken(),
                FakePoll::NeedsInput => old(self)@.pending.len() == 0 && !old(self)@.done_sent
                    && final(self)@ == old(self)@,
                FakePoll::Finished => old(self)@.pending.len() == 0 && old(self)@.done_sent
                    && final(self)@ == old(self)@,
            },
    {
        let ghost pending = self.pending@;
        match self.pending.pop_front() {
            Some(event) => {
                assert(views(pending)[0] == event@);
                assert(views(self.pending@) =~= views(pending).drop_first());
                FakePoll::Event(event)
            },
            None => {
                assert(self.pending@ =~= pending);
                if self.done_sent {
                    FakePoll::Finished
                } else {
                    FakePoll::NeedsInput
                }
            },
        }
    }

    fn tell(&mut self, event: TtsEvent)
        ensures
            final(self)@ == (FakeTtsView {
                pending: old(self)@.pending.push(event@),
                ..old(self)@
            }),
    {
        proof {
            views_of_push(self.pending@, event);
        }
        self.pending.push_back(event);
    }

    /// Whether the stream can number one more chunk.
    pub fn can_speak(&self) -> (can: bool)
        ensures
            can == (self@.next_chunk_index < u64::MAX),
    {
        self.next_chunk_index < u64::MAX
    }

    /// Takes a fragment of text in, or its end, `elapsed_ms` after the stream began.
    pub fn on_text(&mut self, fragment: Option<String>, elapsed_ms: u128)
        requires
            fragment is Some ==> old(self)@.next_chunk_index < u64::MAX,
        ensures
            final(self)@ == (match fragment {
                Some(fragment) => old(self)@.spoken(fragment@, elapsed_ms),
                None => old(self)@.ended(),
            }),
    {
        match fragment {
            Some(fragment) => {
                if !self.first_audio_sent {
                    self.first_audio_sent = true;
                    self.tell(TtsEvent::FirstAudio { elapsed_ms });
                }
                let bytes = deterministic_chunk(self.next_chunk_index, fragment.as_str());
                self.next_chunk_index = self.next_chunk_index + 1;
                self.tell(TtsEvent::AudioChunk { bytes, elapsed_ms });
            },
            None => {
                self.done_sent = true;
                self.tell(TtsEvent::Done);
            },
        }
    }
}

/// The stream after some fragments, each with the time at which it came.
pub open spec fn spoken_all(fragments: Seq<(Seq<char>, u128)>) -> FakeTtsView
    decreases fragments.len(),
{
    if fragments.len() == 0 {
        FakeTtsView::fresh()
    } else {
        spoken_all(fragments.drop_last()).spoken(fragments.last().0, fragments.last().1)
    }
}

/// A speech tells its first audio once, before all chunks and only where there is one; then one
/// chunk for each fragment, in order; and then its end.
pub proof fn speech_is_told_in_order(fragments: Seq<(Seq<char>, u128)>)
    requires
        fragments.len() <= u64::MAX,
    ensures
        ({
            let told = spoken_all(fragments).ended().pending;
            let n = fragments.len() as int;
            &&& spoken_all(fragments).next_chunk_index == n
            &&& spoken_all(fragments).first_audio_sent <==> n > 0
            &&& told.len() == if n > 0 {
                n + 2
            } else {
                1
            }
            &&& n > 0 ==> told[0] == (TtsEventView::FirstAudio { elapsed_ms: fragments[0].1 })
            &&& forall|i: int|
                0 <= i < n ==> #[trigger] told[i + 1] == (TtsEventView::AudioChunk {
                    bytes: chunk_bytes(i, fragments[i].0),
                    elapsed_ms: fragments[i].1,
                })
            &&& told.last() == TtsEventView::Done
        }),
    decreases fragments.len(),
{
    let n = fragments.len() as int;
    if n > 0 {
        let rest = fragments.drop_last();
        speech_is_told_in_order(rest);
        let before = spoken_all(rest).ended().pending;
        let told = spoken_all(fragments).ended().pending;
        assert(spoken_all(rest).pending =~= before.drop_last());
        assert forall|i: int| 0 <= i < n implies #[trigger] told[i + 1] == (
        TtsEventView::AudioChunk {
            bytes: chunk_bytes(i, fragments[i].0),
            elapsed_ms: fragments[i].1,
        }) by {
            if i < n - 1 {
                assert(before[i + 1] == told[i + 1]);
            }
        }
        if n > 1 {
            assert(before[0] == told[0]);
        }
    }
}

} // verus!
