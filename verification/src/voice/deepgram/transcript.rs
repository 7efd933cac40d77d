//! What Deepgram understood: its messages, and the transcript that they build.
use vstd::prelude::*;

use crate::text::{
    debug_form, debug_text, join, joined, opt_view, text_eq, trim, trimmed, views, views_of_push,
};
use crate::voice::{SttError, SttErrorView, SttResult, TranscriptEvent, TranscriptEventView};

verus! {

/// One message of a transcription.
#[derive(Debug)]
pub struct DeepgramListenMessage {
    pub kind: Option<String>,
    pub is_final: Option<bool>,
    pub speech_final: Option<bool>,
    pub from_finalize: Option<bool>,
    pub channel: Option<DeepgramChannel>,
}

/// What was understood on a channel, the best first.
#[derive(Debug)]
pub struct DeepgramChannel {
    pub alternatives: Vec<DeepgramAlternative>,
}

/// One way to understand what was said.
#[derive(Debug)]
pub struct DeepgramAlternative {
    pub transcript: String,
}

/// What a message says: whether it holds results, what was understood, and how final that is.
#[verifier::ext_equal]
pub struct ListenMessageView {
    pub results: bool,
    pub transcript: Option<Seq<char>>,
    pub is_final: bool,
    pub speech_final: bool,
    pub from_finalize: bool,
}

impl View for DeepgramListenMessage {
    type V = ListenMessageView;

    open spec fn view(&self) -> ListenMessageView {
        ListenMessageView {
            results: match self.kind {
                Some(kind) => kind@ == "Results"@,
                None => true,
            },
            transcript: match self.channel {
                Some(channel) => if channel.alternatives@.len() > 0 {
                    Some(channel.alternatives@[0].transcript@)
                } else {
                    None
                },
                None => None,
            },
            is_final: self.is_final == Some(true),
            speech_final: self.speech_final == Some(true),
            from_finalize: self.from_finalize == Some(true),
        }
    }
}

pub(crate) fn is_set(flag: Option<bool>) -> (set: bool)
    ensures
        set == (flag == Some(true)),
{
    match flag {
        Some(flag) => flag,
        None => false,
    }
}

impl DeepgramListenMessage {
    /// Whether the message holds results; one without a kind does.
    pub fn is_results(&self) -> (results: bool)
        ensures
            results == self@.results,
    {
        match &self.kind {
            Some(kind) => text_eq(kind.as_str(), "Results"),
            None => true,
        }
    }

    /// What was understood: the first alternative.
    pub fn transcript(&self) -> (transcript: Option<String>)
        ensures
            opt_view(transcript) == self@.transcript,
    {
        match &self.channel {
            Some(channel) => if channel.alternatives.len() > 0 {
                Some(channel.alternatives[0].transcript.clone())
            } else {
                None
            },
            None => None,
        }
    }
}

/// The segments of a transcript that hold more than white space, each without white space around
/// it.
pub open spec fn kept_segments(segments: Seq<Seq<char>>) -> Seq<Seq<char>>
    decreases segments.len(),
{
    if segments.len() == 0 {
        Seq::empty()
    } else {
        let kept = kept_segments(segments.drop_last());
        let last = trimmed(segments.last());
        if last.len() > 0 {
            kept.push(last)
        } else {
            kept
        }
    }
}

/// The text of a transcript: its segments with a space between them.
pub open spec fn transcript_text(segments: Seq<Seq<char>>) -> Seq<char> {
    joined(kept_segments(segments), " "@)
}

/// The text of a transcript: its final segments and the interim one, with a space between them.
pub fn join_transcript_segments(final_segments: &Vec<String>, interim: &str) -> (text: String)
    ensures
        text@ == transcript_text(views(final_segments@).push(interim@)),
{
    let ghost all = views(final_segments@);
    let mut kept: Vec<String> = Vec::new();
    let mut i: usize = 0;
    assert(views(kept@) =~= kept_segments(all.take(0)));
    while i < final_segments.len()
        invariant
            i <= final_segments@.len(),
            all == views(final_segments@),
            views(kept@) == kept_segments(all.take(i as int)),
        decreases final_segments@.len() - i,
    {
        let ghost before = kept@;
        proof {
            assert(all.take(i + 1).drop_last() =~= all.take(i as int));
            assert(all.take(i + 1).last() == final_segments@[i as int]@);
        }
        let segment = trim(final_segments[i].as_str());
        if !segment.as_str().is_empty() {
            kept.push(segment);
            proof {
                views_of_push(before, segment);
            }
        }
        i = i + 1;
    }
    assert(all.take(i as int) =~= all);
    assert(all.push(interim@).drop_last() =~= all);
    let ghost before = kept@;
    let last = trim(interim);
    if !last.as_str().is_empty() {
        kept.push(last);
        proof {
            views_of_push(before, last);
        }
    }
    join(&kept, " ")
}

/// What was understood of a turn so far.
#[derive(Debug)]
pub struct DeepgramTranscriptState {
    final_segments: Vec<String>,
    latest_partial: Option<String>,
    turn_final_emitted: bool,
}

#[verifier::ext_equal]
pub struct TranscriptStateView {
    pub final_segments: Seq<Seq<char>>,
    pub latest_partial: Option<Seq<char>>,
    pub turn_final_emitted: bool,
}

impl View for DeepgramTranscriptState {
    type V = TranscriptStateView;

    closed spec fn view(&self) -> TranscriptStateView {
        TranscriptStateView {
            final_segments: views(self.final_segments@),
            latest_partial: opt_view(self.latest_partial),
            turn_final_emitted: self.turn_final_emitted,
        }
    }
}

/// The text of final segments and no interim one.
pub open spec fn final_text(segments: Seq<Seq<char>>) -> Seq<char> {
    transcript_text(segments.push(Seq::empty()))
}

impl TranscriptStateView {
    /// Nothing understood yet.
    pub open spec fn empty() -> TranscriptStateView {
        TranscriptStateView {
            final_segments: Seq::empty(),
            latest_partial: None,
            turn_final_emitted: false,
        }
    }

    /// What is final when the transcription ends: the final segments, or without any the last
    /// partial transcript; nothing where a final transcript was told before.
    pub open spec fn leftover(self) -> Option<Seq<char>> {
        if self.turn_final_emitted {
            None
        } else if self.final_segments.len() > 0 {
            Some(final_text(self.final_segments))
        } else {
            self.latest_partial
        }
    }

    /// The state after the end, and the event that tells what was left.
    pub open spec fn finished(self, elapsed_ms: u128) -> (
        TranscriptStateView,
        Seq<TranscriptEventView>,
    ) {
        match self.leftover() {
            Some(text) => (
                TranscriptStateView { turn_final_emitted: true, ..self },
                seq![TranscriptEventView::Final { text, elapsed_ms }],
            ),
            None => (self, Seq::empty()),
        }
    }

    /// The state after a message, and the events that it gives: the end of what was to be
    /// finalized; a final segment, which ends the turn where the speech does; or an interim one.
    pub open spec fn ingested(self, message: ListenMessageView, elapsed_ms: u128) -> (
        TranscriptStateView,
        Seq<TranscriptEventView>,
    ) {
        let said = match message.transcript {
            Some(text) => text,
            None => Seq::empty(),
        };
        if message.from_finalize {
            self.finished(elapsed_ms)
        } else if !message.results || said.len() == 0 {
            (self, Seq::empty())
        } else if message.is_final {
            let segments = self.final_segments.push(said);
            let text = final_text(segments);
            if message.speech_final {
                (
                    TranscriptStateView {
                        final_segments: segments,
                        turn_final_emitted: true,
                        ..self
                    },
                    seq![TranscriptEventView::Final { text, elapsed_ms }],
                )
            } else {
                (
                    TranscriptStateView {
                        final_segments: segments,
                        latest_partial: Some(text),
                        ..self
                    },
                    seq![TranscriptEventView::Partial { text, elapsed_ms }],
                )
            }
        } else {
            let text = transcript_text(self.final_segments.push(said));
            (
                TranscriptStateView { latest_partial: Some(text), ..self },
                seq![TranscriptEventView::Partial { text, elapsed_ms }],
            )
        }
    }
}

/// The error of a message that is none.
pub open spec fn unreadable_message(data: Seq<char>, fault: Seq<char>) -> SttErrorView {
    SttErrorView::Backend(
        "invalid Deepgram transcript JSON: "@ + fault + "; data="@ + debug_form(data),
    )
}

impl DeepgramTranscriptState {
    pub fn new() -> (state: DeepgramTranscriptState)
        ensures
            state@ == TranscriptStateView::empty(),
    {
        let state = DeepgramTranscriptState {
            final_segments: Vec::new(),
            latest_partial: None,
            turn_final_emitted: false,
        };
        assert(state@ =~= TranscriptStateView::empty());
        state
    }

    /// Takes a message in, `message` being what `data` reads as in JSON, or what is wrong with it.
    pub fn ingest(
        &mut self,
        data: &str,
        message: std::result::Result<&DeepgramListenMessage, String>,
        elapsed_ms: u128,
    ) -> (events: SttResult<Vec<TranscriptEvent>>)
        ensures
            match message {
                Ok(message) => {
                    let (state, told) = old(self)@.ingested(message@, elapsed_ms);
                    &&& events is Ok
                    &&& views(events->Ok_0@) == told
                    &&& final(self)@ == state
                },
                Err(fault) => {
                    &&& events is Err
                    &&& events->Err_0@ == unreadable_message(data@, fault@)
                    &&& final(self)@ == old(self)@
                },
            },
    {
        let message = match message {
            Ok(message) => message,
            Err(fault) => {
                return Err(
                    SttError::Backend(
                        "invalid Deepgram transcript JSON: ".to_owned().concat(
                            fault.as_str(),
                        ).concat("; data=").concat(debug_text(data).as_str()),
                    ),
                );
            },
        };
        let ghost told = self@.ingested(message@, elapsed_ms).1;
        let mut events: Vec<TranscriptEvent> = Vec::new();
        assert(views(events@) =~= Seq::empty());
        if is_set(message.from_finalize) {
            if let Some(event) = self.finish(elapsed_ms) {
                events.push(event);
            }
            assert(views(events@) =~= told);
            return Ok(events);
        }
        if !message.is_results() {
            return Ok(events);
        }
        let transcript = match message.transcript() {
            Some(transcript) => transcript,
            None => {
                return Ok(events);
            },
        };
        if transcript.as_str().is_empty() {
            return Ok(events);
        }
        assert(""@ =~= Seq::<char>::empty()) by {
            reveal_strlit("");
        }
        if is_set(message.is_final) {
            proof {
                views_of_push(self.final_segments@, transcript);
            }
            self.final_segments.push(transcript);
            let text = join_transcript_segments(&self.final_segments, "");
            if is_set(message.speech_final) {
                self.turn_final_emitted = true;
                events.push(TranscriptEvent::Final { text, elapsed_ms });
            } else {
                self.latest_partial = Some(text.clone());
                events.push(TranscriptEvent::Partial { text, elapsed_ms });
            }
        } else {
            let text = join_transcript_segments(&self.final_segments, transcript.as_str());
            self.latest_partial = Some(text.clone());
            events.push(TranscriptEvent::Partial { text, elapsed_ms });
        }
        assert(views(events@) =~= told);
        Ok(events)
    }

    /// Ends the transcription: what was left is final.
    pub fn finish(&mut self, elapsed_ms: u128) -> (event: Option<TranscriptEvent>)
        ensures
            final(self)@ == old(self)@.finished(elapsed_ms).0,
            match old(self)@.leftover() {
                Some(text) => event is Some && event->0@ == (TranscriptEventView::Final {
                    text,
                    elapsed_ms,
                }),
                None => event is None,
            },
    {
        if self.turn_final_emitted {
            return None;
        }
        assert(""@ =~= Seq::<char>::empty()) by {
            reveal_strlit("");
        }
        let text = if self.final_segments.len() > 0 {
            Some(join_transcript_segments(&self.final_segments, ""))
        } else {
            crate::llm::clone_opt_text(&self.latest_partial)
        };
        match text {
            Some(text) => {
                self.turn_final_emitted = true;
                Some(TranscriptEvent::Final { text, elapsed_ms })
            },
            None => None,
        }
    }
}

/// The end of a transcription tells a final transcript at most once: after it, and after a message
/// that told one, there is nothing left to tell.
pub proof fn the_end_is_told_once(
    state: TranscriptStateView,
    message: ListenMessageView,
    elapsed_ms: u128,
    later_ms: u128,
)
    ensures
        ({
            let (after_end, told) = state.finished(elapsed_ms);
            let (after_message, events) = state.ingested(message, elapsed_ms);
            &&& told.len() <= 1
            &&& told.len() == 1 ==> after_end.finished(later_ms) == (
                after_end,
                Seq::<TranscriptEventView>::empty(),
            )
            &&& events.len() == 1 && events[0] is Final ==> after_message.finished(later_ms) == (
                after_message,
                Seq::<TranscriptEventView>::empty(),
            )
        }),
{
}

/// Whatever was understood is told in the end: a state that holds a final segment or a partial
/// transcript, and has told no final one, tells one when it ends.
pub proof fn what_was_understood_is_told(state: TranscriptStateView, elapsed_ms: u128)
    requires
        !state.turn_final_emitted,
        state.final_segments.len() > 0 || state.latest_partial is Some,
    ensures
        state.finished(elapsed_ms).1.len() == 1,
        state.finished(elapsed_ms).1[0] is Final,
{
}

/// The text of a transcript grows by each segment, without white space around it, after a single
/// space where there is text before it; a segment of white space alone adds nothing.
pub proof fn segments_are_joined_by_spaces(segments: Seq<Seq<char>>, segment: Seq<char>)
    ensures
        transcript_text(Seq::empty()) == Seq::<char>::empty(),
        transcript_text(segments.push(segment)) == if trimmed(segment).len() == 0 {
            transcript_text(segments)
        } else if transcript_text(segments).len() == 0 {
            trimmed(segment)
        } else {
            transcript_text(segments).push(' ') + trimmed(segment)
        },
{
    assert(segments.push(segment).drop_last() =~= segments);
    let kept = kept_segments(segments);
    reveal_strlit(" ");
    segments_hold_text(segments);
    if trimmed(segment).len() > 0 {
        assert(kept.push(trimmed(segment)).drop_last() =~= kept);
        assert(joined(kept, " "@) + " "@ =~= joined(kept, " "@).push(' '));
    }
}

proof fn segments_hold_text(segments: Seq<Seq<char>>)
    ensures
        transcript_text(segments).len() == 0 <==> kept_segments(segments).len() == 0,
    decreases segments.len(),
{
    if segments.len() > 0 {
        let rest = segments.drop_last();
        segments_hold_text(rest);
        let kept = kept_segments(rest);
        let last = trimmed(segments.last());
        if last.len() > 0 {
            assert(kept.push(last).drop_last() =~= kept);
        }
    }
}

impl ListenMessageView {
    /// What the message says was understood: the transcript of results. A message that tells the
    /// end of what was to be finalized, or holds no results, says nothing.
    pub open spec fn understood(self) -> Seq<char> {
        if self.results && !self.from_finalize && self.transcript is Some {
            self.transcript->0
        } else {
            Seq::empty()
        }
    }
}

/// The transcripts that messages told to be final, in order.
pub open spec fn final_transcripts(messages: Seq<(ListenMessageView, u128)>) -> Seq<Seq<char>>
    decreases messages.len(),
{
    if messages.len() == 0 {
        Seq::empty()
    } else {
        let before = final_transcripts(messages.drop_last());
        let message = messages.last().0;
        if message.is_final && message.understood().len() > 0 {
            before.push(message.understood())
        } else {
            before
        }
    }
}

/// A transcription up to some point: its state, and all that was told so far.
#[verifier::ext_equal]
pub struct TranscriptRun {
    pub state: TranscriptStateView,
    pub told: Seq<TranscriptEventView>,
}

/// The transcription after some messages, each with the time at which it came.
pub open spec fn transcript_run(messages: Seq<(ListenMessageView, u128)>) -> TranscriptRun
    decreases messages.len(),
{
    if messages.len() == 0 {
        TranscriptRun { state: TranscriptStateView::empty(), told: Seq::empty() }
    } else {
        let run = transcript_run(messages.drop_last());
        let (message, elapsed_ms) = messages.last();
        let (state, events) = run.state.ingested(message, elapsed_ms);
        TranscriptRun { state, told: run.told + events }
    }
}

/// Whether a final transcript was told.
pub open spec fn final_told(told: Seq<TranscriptEventView>) -> bool {
    exists|i: int| 0 <= i < told.len() && #[trigger] told[i] is Final
}

/// The text of the last partial transcript that was told.
pub open spec fn last_partial(told: Seq<TranscriptEventView>) -> Option<Seq<char>>
    decreases told.len(),
{
    if told.len() == 0 {
        None
    } else {
        match told.last() {
            TranscriptEventView::Partial { text, .. } => Some(text),
            _ => last_partial(told.drop_last()),
        }
    }
}

proof fn telling_one_more(told: Seq<TranscriptEventView>, event: TranscriptEventView)
    ensures
        final_told(told.push(event)) <==> final_told(told) || event is Final,
        last_partial(told.push(event)) == (match event {
            TranscriptEventView::Partial { text, .. } => Some(text),
            _ => last_partial(told),
        }),
{
    let all = told.push(event);
    assert(all.drop_last() =~= told);
    if final_told(told) {
        let i = choose|i: int| 0 <= i < told.len() && #[trigger] told[i] is Final;
        assert(all[i] is Final);
    }
    if event is Final {
        assert(all[told.len() as int] is Final);
    }
    if final_told(all) {
        let i = choose|i: int| 0 <= i < all.len() && #[trigger] all[i] is Final;
        if i < told.len() {
            assert(told[i] is Final);
        }
    }
}

/// Every transcript that a message told to be final is kept as a segment, in order, whether or not
/// the speech ended with it; and nothing else is.
pub proof fn final_transcripts_are_kept(messages: Seq<(ListenMessageView, u128)>)
    ensures
        ({
            let run = transcript_run(messages);
            &&& run.state.final_segments == final_transcripts(messages)
            &&& run.state.turn_final_emitted <==> final_told(run.told)
            &&& run.state.latest_partial == last_partial(run.told)
        }),
    decreases messages.len(),
{
    let run = transcript_run(messages);
    if messages.len() > 0 {
        let rest = messages.drop_last();
        final_transcripts_are_kept(rest);
        let before = transcript_run(rest);
        let (message, elapsed_ms) = messages.last();
        let events = before.state.ingested(message, elapsed_ms).1;
        if events.len() > 0 {
            telling_one_more(before.told, events[0]);
            assert(before.told + events =~= before.told.push(events[0]));
        } else {
            assert(before.told + events =~= before.told);
        }
    }
}

/// What a message that was understood tells: the text of all final transcripts so far, with what it
/// says itself behind them where that is not final. It is told as final where the message is and the
/// speech ended with it. One in which nothing was understood tells nothing.
pub proof fn a_message_tells_all_understood_so_far(
    messages: Seq<(ListenMessageView, u128)>,
    message: ListenMessageView,
    elapsed_ms: u128,
)
    requires
        !message.from_finalize,
    ensures
        ({
            let events = transcript_run(messages).state.ingested(message, elapsed_ms).1;
            let text = transcript_text(final_transcripts(messages).push(message.understood()));
            &&& message.understood().len() == 0 ==> events.len() == 0
            &&& message.understood().len() > 0 ==> events == seq![
                if message.is_final && message.speech_final {
                    TranscriptEventView::Final { text, elapsed_ms }
                } else {
                    TranscriptEventView::Partial { text, elapsed_ms }
                },
            ]
        }),
{
    final_transcripts_are_kept(messages);
    let run = transcript_run(messages);
    let said = message.understood();
    segments_are_joined_by_spaces(run.state.final_segments.push(said), Seq::empty());
    let events = run.state.ingested(message, elapsed_ms).1;
    if said.len() > 0 {
        assert(events =~= seq![events[0]]);
    }
}

/// The end of the transcription, or of what was to be finalized, tells the text of all final
/// transcripts, or without any the last partial one; and nothing where a final one was told before
/// or nothing was understood.
pub proof fn the_end_tells_what_was_understood(
    messages: Seq<(ListenMessageView, u128)>,
    message: ListenMessageView,
    elapsed_ms: u128,
)
    requires
        message.from_finalize,
    ensures
        ({
            let run = transcript_run(messages);
            let segments = final_transcripts(messages);
            let (state, events) = run.state.finished(elapsed_ms);
            &&& run.state.ingested(message, elapsed_ms) == (state, events)
            &&& state.final_segments == segments
            &&& if final_told(run.told) {
                events.len() == 0
            } else if segments.len() > 0 {
                events == seq![
                    TranscriptEventView::Final { text: transcript_text(segments), elapsed_ms },
                ]
            } else if last_partial(run.told) is Some {
                events == seq![
                    TranscriptEventView::Final { text: last_partial(run.told)->0, elapsed_ms },
                ]
            } else {
                events.len() == 0
            }
        }),
{
    final_transcripts_are_kept(messages);
    segments_are_joined_by_spaces(final_transcripts(messages), Seq::empty());
}

/// What a message says is read off it: it holds results where it says so or does not say what it is;
/// what was understood is the transcript of its first alternative; and a mark counts only where it
/// is set.
pub proof fn a_message_says_what_it_holds(message: DeepgramListenMessage)
    ensures
        message@.results <==> message.kind is None || message.kind->0@ == "Results"@,
        message@.transcript is Some <==> message.channel is Some
            && message.channel->0.alternatives@.len() > 0,
        message@.transcript matches Some(text) ==> text
            == message.channel->0.alternatives@.first().transcript@,
        message@.is_final <==> message.is_final is Some && message.is_final->0,
        message@.speech_final <==> message.speech_final is Some && message.speech_final->0,
        message@.from_finalize <==> message.from_finalize is Some && message.from_finalize->0,
{
}

} // verus!
