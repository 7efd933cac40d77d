//! A voice session: one turn after another, at most one at a time.
use std::collections::VecDeque;

use vstd::prelude::*;

use crate::text::{views, views_of_push};
use crate::voice::{
    AudioChunk, AudioChunkView, TtsEvent, TtsEventView, VoiceEvent, VoiceSessionError,
    VoiceSessionErrorView, VoiceTransportError, VoiceTurnError, VoiceTurnErrorView,
    VoiceTurnOutput,
};

verus! {

/// Why the active turn is ended.
#[derive(Debug, Clone, Copy, PartialEq, Eq, Structural)]
pub enum StopReason {
    /// Another turn starts.
    Interrupt,
    /// The transport tells that the user speaks again.
    InterruptTransport,
    /// The turn is cancelled.
    Cancel,
    /// Nothing more comes: the turn is let run to its end.
    Finish,
}

/// A turn that is being ended.
#[derive(Debug, Clone, Copy, PartialEq, Eq, Structural)]
pub struct StoppingTurn {
    pub reason: StopReason,
    pub was_running: bool,
}

/// What is done to the active turn at once: whether it is cancelled, whether what it plays is
/// reset, and the event to tell.
#[derive(Debug, Clone, Copy, PartialEq, Eq, Structural)]
pub struct StopOrder {
    pub turn: StoppingTurn,
    pub cancel: bool,
    pub reset_playback: bool,
    pub voice: Option<VoiceEvent>,
}

/// How the task of a turn ended.
#[derive(Debug)]
pub enum TurnOutcome {
    Ended(std::result::Result<VoiceTurnOutput, VoiceTurnError>),
    /// The task itself failed.
    Lost(String),
}

pub enum TurnOutcomeView {
    Ended(std::result::Result<Seq<char>, VoiceTurnErrorView>),
    Lost(Seq<char>),
}

impl View for TurnOutcome {
    type V = TurnOutcomeView;

    open spec fn view(&self) -> TurnOutcomeView {
        match *self {
            TurnOutcome::Ended(Ok(output)) => TurnOutcomeView::Ended(Ok(output@)),
            TurnOutcome::Ended(Err(error)) => TurnOutcomeView::Ended(Err(error@)),
            TurnOutcome::Lost(message) => TurnOutcomeView::Lost(message@),
        }
    }
}

/// What is done once the turn has ended: whether what it plays is reset again, and the result.
#[derive(Debug)]
pub struct StopResult {
    pub reset_playback: bool,
    pub result: std::result::Result<Option<VoiceTurnOutput>, VoiceSessionError>,
}

/// The view of a session's result.
pub open spec fn session_view(
    result: std::result::Result<Option<VoiceTurnOutput>, VoiceSessionError>,
) -> std::result::Result<Option<Seq<char>>, VoiceSessionErrorView> {
    match result {
        Ok(Some(output)) => Ok(Some(output@)),
        Ok(None) => Ok(None),
        Err(error) => Err(error@),
    }
}

impl StoppingTurn {
    /// Whether the turn was cancelled to end it.
    pub open spec fn cancelled(self) -> bool {
        self.was_running && self.reason != StopReason::Finish
    }

    /// What the session is to do at once.
    pub open spec fn order(self, elapsed_ms: u128) -> StopOrder {
        StopOrder {
            turn: self,
            cancel: self.cancelled(),
            reset_playback: self.cancelled(),
            voice: if self.was_running && (self.reason == StopReason::Interrupt || self.reason
                == StopReason::InterruptTransport) {
                Some(VoiceEvent::VoiceTurnInterrupted { elapsed_ms })
            } else {
                None
            },
        }
    }

    /// Whether an error of the turn is what its end was to bring about: a turn that ran and was
    /// cancelled, and, where the user speaks again or the session ends, a turn without a transcript.
    pub open spec fn expected_error(self, error: VoiceTurnErrorView) -> bool {
        match error {
            VoiceTurnErrorView::Cancelled => self.cancelled(),
            VoiceTurnErrorView::MissingFinalTranscript => self.reason
                == StopReason::InterruptTransport || self.reason == StopReason::Cancel,
            _ => false,
        }
    }

    /// The result once the turn has ended.
    pub open spec fn result(self, outcome: TurnOutcomeView) -> std::result::Result<
        Option<Seq<char>>,
        VoiceSessionErrorView,
    > {
        match outcome {
            TurnOutcomeView::Lost(message) => Err(VoiceSessionErrorView::TaskJoin(message)),
            TurnOutcomeView::Ended(Ok(text)) => if self.reason == StopReason::Finish {
                Ok(Some(text))
            } else {
                Ok(None)
            },
            TurnOutcomeView::Ended(Err(error)) => if self.expected_error(error) {
                Ok(None)
            } else {
                Err(VoiceSessionErrorView::VoiceTurn(error))
            },
        }
    }

    /// Whether what the turn plays is reset once more after it has ended.
    pub open spec fn resets_again(self, outcome: TurnOutcomeView) -> bool {
        self.cancelled() && outcome is Ended
    }

    /// Ends the turn with the outcome of its task.
    pub fn ended(self, outcome: TurnOutcome) -> (end: StopResult)
        ensures
            session_view(end.result) == self.result(outcome@),
            end.reset_playback == self.resets_again(outcome@),
    {
        let cancelled = self.was_running && self.reason != StopReason::Finish;
        match outcome {
            TurnOutcome::Lost(message) => StopResult {
                reset_playback: false,
                result: Err(VoiceSessionError::TaskJoin(message)),
            },
            TurnOutcome::Ended(result) => {
                let result = match result {
                    Ok(output) => if self.reason == StopReason::Finish {
                        Ok(Some(output))
                    } else {
                        Ok(None)
                    },
                    Err(error) => {
                        let expected = match &error {
                            VoiceTurnError::Cancelled => cancelled,
                            VoiceTurnError::MissingFinalTranscript => self.reason
                                == StopReason::InterruptTransport || self.reason
                                == StopReason::Cancel,
                            _ => false,
                        };
                        if expected {
                            Ok(None)
                        } else {
                            Err(VoiceSessionError::VoiceTurn(error))
                        }
                    },
                };
                StopResult { reset_playback: cancelled, result }
            },
        }
    }
}

/// What happens on a transport.
#[derive(Debug, PartialEq, Eq)]
pub enum VoiceTransportEvent {
    SpeechStarted,
    AudioTurn(Vec<AudioChunk>),
    Closed,
}

#[verifier::ext_equal]
pub enum VoiceTransportEventView {
    SpeechStarted,
    AudioTurn(Seq<AudioChunkView>),
    Closed,
}

impl View for VoiceTransportEvent {
    type V = VoiceTransportEventView;

    open spec fn view(&self) -> VoiceTransportEventView {
        match self {
            VoiceTransportEvent::SpeechStarted => VoiceTransportEventView::SpeechStarted,
            VoiceTransportEvent::AudioTurn(chunks) => VoiceTransportEventView::AudioTurn(
                views(chunks@),
            ),
            VoiceTransportEvent::Closed => VoiceTransportEventView::Closed,
        }
    }
}

/// The form of what happens on a transport.
#[derive(Debug, Clone, Copy, PartialEq, Eq, Structural)]
pub enum TransportSignal {
    SpeechStarted,
    AudioTurn,
    Closed,
    /// The transport is gone.
    Gone,
}

/// What a session does on a transport's signal: it ends the active turn for a reason, and then
/// starts a turn, waits for the next signal, or stops.
#[derive(Debug, Clone, Copy, PartialEq, Eq, Structural)]
pub struct TransportStep {
    pub stop: StopReason,
    pub start_turn: bool,
    pub stop_session: bool,
}

/// What a session does on a transport's signal.
pub open spec fn transport_step(signal: TransportSignal) -> TransportStep {
    match signal {
        TransportSignal::SpeechStarted => TransportStep {
            stop: StopReason::InterruptTransport,
            start_turn: false,
            stop_session: false,
        },
        TransportSignal::AudioTurn => TransportStep {
            stop: StopReason::InterruptTransport,
            start_turn: true,
            stop_session: false,
        },
        TransportSignal::Closed => TransportStep {
            stop: StopReason::Finish,
            start_turn: false,
            stop_session: true,
        },
        TransportSignal::Gone => TransportStep {
            stop: StopReason::Cancel,
            start_turn: false,
            stop_session: true,
        },
    }
}

/// What a session does on a transport's signal.
pub fn on_transport(signal: TransportSignal) -> (step: TransportStep)
    ensures
        step == transport_step(signal),
{
    match signal {
        TransportSignal::SpeechStarted => TransportStep {
            stop: StopReason::InterruptTransport,
            start_turn: false,
            stop_session: false,
        },
        TransportSignal::AudioTurn => TransportStep {
            stop: StopReason::InterruptTransport,
            start_turn: true,
            stop_session: false,
        },
        TransportSignal::Closed => TransportStep {
            stop: StopReason::Finish,
            start_turn: false,
            stop_session: true,
        },
        TransportSignal::Gone => TransportStep {
            stop: StopReason::Cancel,
            start_turn: false,
            stop_session: true,
        },
    }
}

/// Whether a session has an active turn.
#[derive(Debug)]
pub struct VoiceSession {
    active: bool,
}

#[verifier::ext_equal]
pub struct VoiceSessionView {
    pub active: bool,
}

impl View for VoiceSession {
    type V = VoiceSessionView;

    closed spec fn view(&self) -> VoiceSessionView {
        VoiceSessionView { active: self.active }
    }
}

impl VoiceSessionView {
    /// The session, and what is done at once, when its active turn is ended.
    pub open spec fn stopped(
        self,
        reason: StopReason,
        running: bool,
        elapsed_ms: u128,
    ) -> (VoiceSessionView, Option<StopOrder>) {
        (
            VoiceSessionView { active: false },
            if self.active {
                Some((StoppingTurn { reason, was_running: running }).order(elapsed_ms))
            } else {
                None
            },
        )
    }
}

impl VoiceSession {
    pub fn new() -> (session: VoiceSession)
        ensures
            session@ == (VoiceSessionView { active: false }),
    {
        VoiceSession { active: false }
    }

    pub fn has_active_turn(&self) -> (active: bool)
        ensures
            active == self@.active,
    {
        self.active
    }

    /// Begins to end the active turn, where there is one: from then on it is not active any more.
    /// `running` tells whether its task still runs, and `elapsed_ms` how long ago it started.
    pub fn stop_active_turn(
        &mut self,
        reason: StopReason,
        running: bool,
        elapsed_ms: u128,
    ) -> (order: Option<StopOrder>)
        ensures
            order == (if old(self)@.active {
                Some((StoppingTurn { reason, was_running: running }).order(elapsed_ms))
            } else {
                None
            }),
            final(self)@ == (VoiceSessionView { active: false }),
            final(self)@ == old(self)@.stopped(reason, running, elapsed_ms).0,
            order == old(self)@.stopped(reason, running, elapsed_ms).1,
    {
        if !self.active {
            return None;
        }
        self.active = false;
        let turn = StoppingTurn { reason, was_running: running };
        let cancelled = running && reason != StopReason::Finish;
        let interrupted = running && (reason == StopReason::Interrupt || reason
            == StopReason::InterruptTransport);
        Some(
            StopOrder {
                turn,
                cancel: cancelled,
                reset_playback: cancelled,
                voice: if interrupted {
                    Some(VoiceEvent::VoiceTurnInterrupted { elapsed_ms })
                } else {
                    None
                },
            },
        )
    }

    /// Starts a turn: there is none active.
    pub fn turn_started(&mut self)
        requires
            !old(self)@.active,
        ensures
            final(self)@ == (VoiceSessionView { active: true }),
    {
        self.active = true;
    }
}

/// Ending a turn that runs, to start another one or because the user speaks again, cancels it, is
/// told once, and resets what it plays before and after it ends; and that the turn was cancelled is
/// no error of the session.
pub proof fn interruption_cancels_and_is_told(
    reason: StopReason,
    elapsed_ms: u128,
)
    requires
        reason == StopReason::Interrupt || reason == StopReason::InterruptTransport,
    ensures
        ({
            let turn = StoppingTurn { reason, was_running: true };
            let order = turn.order(elapsed_ms);
            let outcome = TurnOutcomeView::Ended(Err(VoiceTurnErrorView::Cancelled));
            &&& order.cancel
            &&& order.reset_playback
            &&& order.voice == Some(VoiceEvent::VoiceTurnInterrupted { elapsed_ms })
            &&& turn.resets_again(outcome)
            &&& turn.result(outcome) == Result::<
                Option<Seq<char>>,
                VoiceSessionErrorView,
            >::Ok(None)
        }),
{
}

/// A turn whose task had ended before is not cancelled, nothing is reset, and nothing is told.
pub proof fn ended_turns_are_not_cancelled(
    reason: StopReason,
    elapsed_ms: u128,
    outcome: TurnOutcomeView,
)
    ensures
        ({
            let turn = StoppingTurn { reason, was_running: false };
            let order = turn.order(elapsed_ms);
            &&& !order.cancel
            &&& !order.reset_playback
            &&& order.voice is None
            &&& !turn.resets_again(outcome)
        }),
{
}

/// An active turn is cancelled, and what it plays is reset, exactly where it still runs and is not
/// let run to its end; it is told as interrupted only where another turn or the user's speech is the
/// reason, and where it is cancelled. What it plays is reset again once it has ended.
pub proof fn running_turns_are_cancelled_unless_they_finish(
    reason: StopReason,
    was_running: bool,
    elapsed_ms: u128,
    outcome: TurnOutcomeView,
)
    ensures
        ({
            let turn = StoppingTurn { reason, was_running };
            let order = turn.order(elapsed_ms);
            &&& order.turn == turn
            &&& order.cancel <==> was_running && !(reason is Finish)
            &&& order.reset_playback == order.cancel
            &&& order.voice is Some <==> order.cancel && !(reason is Cancel)
            &&& order.voice is Some ==> order.voice == Some(
                VoiceEvent::VoiceTurnInterrupted { elapsed_ms },
            )
            &&& turn.resets_again(outcome) <==> order.cancel && outcome is Ended
        }),
{
}

/// What a turn that is ended comes to. Its output is given exactly where it was let run to its end;
/// an error of it is the session's error, unless ending the turn was to bring it about: a turn that
/// was cancelled says so, and one that was cut short by speech or the end of the transport may be
/// without a transcript. A task that was lost is an error in any case.
pub proof fn only_expected_errors_are_passed_over(
    reason: StopReason,
    was_running: bool,
    outcome: TurnOutcomeView,
)
    ensures
        ({
            let turn = StoppingTurn { reason, was_running };
            let result = turn.result(outcome);
            match outcome {
                TurnOutcomeView::Lost(message) => result is Err && result->Err_0
                    == VoiceSessionErrorView::TaskJoin(message),
                TurnOutcomeView::Ended(Ok(text)) => {
                    &&& result is Ok
                    &&& reason is Finish ==> result->Ok_0 == Some(text)
                    &&& !(reason is Finish) ==> result->Ok_0 is None
                },
                TurnOutcomeView::Ended(Err(error)) => {
                    &&& result is Ok <==> (error is Cancelled && was_running && !(reason is Finish))
                        || (error is MissingFinalTranscript && (reason is InterruptTransport
                        || reason is Cancel))
                    &&& result is Ok ==> result->Ok_0 is None
                    &&& result is Err ==> result->Err_0 == VoiceSessionErrorView::VoiceTurn(error)
                },
            }
        }),
{
}

/// A session starts a turn on each audio that comes and on nothing else, and first ends the turn
/// that is active, which it lets run to its end only where the transport was closed. It goes on
/// until the transport is closed or gone.
pub proof fn each_audio_starts_a_turn(signal: TransportSignal)
    ensures
        ({
            let step = transport_step(signal);
            &&& step.start_turn <==> signal is AudioTurn
            &&& step.stop_session <==> signal is Closed || signal is Gone
            &&& step.stop is Finish <==> signal is Closed
            &&& step.stop is Cancel <==> signal is Gone
            &&& step.stop is InterruptTransport <==> signal is SpeechStarted || signal is AudioTurn
        }),
{
}

/// A turn is ended once: afterwards none is active, and to end it again does nothing. One that is
/// active is ended for the reason that is given, and whether it ran is kept for when it has ended.
pub proof fn a_turn_is_ended_once(
    session: VoiceSessionView,
    reason: StopReason,
    running: bool,
    elapsed_ms: u128,
    again: StopReason,
    later_ms: u128,
)
    ensures
        ({
            let (after, order) = session.stopped(reason, running, elapsed_ms);
            &&& !after.active
            &&& after.stopped(again, running, later_ms) == (after, None::<StopOrder>)
            &&& order is Some <==> session.active
            &&& order matches Some(order) ==> order.turn.reason == reason && order.turn.was_running
                == running
        }),
{
}

/// A transport for tests and demos: what happens on it is put in by hand, and what is spoken is
/// kept.
#[derive(Debug)]
pub struct FakeVoiceTransport {
    input: VecDeque<VoiceTransportEvent>,
    input_open: bool,
    tts: VecDeque<TtsEvent>,
}

#[verifier::ext_equal]
pub struct FakeVoiceTransportView {
    pub input: Seq<VoiceTransportEventView>,
    pub input_open: bool,
    pub tts: Seq<TtsEventView>,
}

impl View for FakeVoiceTransport {
    type V = FakeVoiceTransportView;

    closed spec fn view(&self) -> FakeVoiceTransportView {
        FakeVoiceTransportView {
            input: views(self.input@),
            input_open: self.input_open,
            tts: views(self.tts@),
        }
    }
}

impl FakeVoiceTransportView {
    /// The transport after an event was put in; one that is closed or gone takes none.
    pub open spec fn put(self, event: VoiceTransportEventView) -> FakeVoiceTransportView {
        if self.input_open {
            FakeVoiceTransportView { input: self.input.push(event), ..self }
        } else {
            self
        }
    }

    /// The transport after some events were put in, in order.
    pub open spec fn put_all(self, events: Seq<VoiceTransportEventView>) -> FakeVoiceTransportView
        decreases events.len(),
    {
        if events.len() == 0 {
            self
        } else {
            self.put_all(events.drop_last()).put(events.last())
        }
    }

    /// What is taken out: the first event; nothing yet where there is none; and that the transport
    /// is gone where none can come.
    pub open spec fn first(self) -> Option<Option<VoiceTransportEventView>> {
        if self.input.len() > 0 {
            Some(Some(self.input[0]))
        } else if self.input_open {
            None
        } else {
            Some(None)
        }
    }

    /// The transport after the first event was taken out.
    pub open spec fn taken(self) -> FakeVoiceTransportView {
        if self.input.len() > 0 {
            FakeVoiceTransportView { input: self.input.drop_first(), ..self }
        } else {
            self
        }
    }
}

impl FakeVoiceTransport {
    pub fn new() -> (transport: FakeVoiceTransport)
        ensures
            transport@ == (FakeVoiceTransportView {
                input: Seq::empty(),
                input_open: true,
                tts: Seq::empty(),
            }),
    {
        let transport = FakeVoiceTransport {
            input: VecDeque::new(),
            input_open: true,
            tts: VecDeque::new(),
        };
        assert(transport@.input =~= Seq::empty());
        assert(transport@.tts =~= Seq::empty());
        transport
    }

    /// Puts an event in, unless the transport was closed or disconnected.
    fn send(&mut self, event: VoiceTransportEvent) -> (result: std::result::Result<
        (),
        VoiceTransportError,
    >)
        ensures
            result is Ok <==> old(self)@.input_open,
            final(self)@ == if old(self)@.input_open {
                FakeVoiceTransportView {
                    input: old(self)@.input.push(event@),
                    ..old(self)@
                }
            } else {
                old(self)@
            },
            final(self)@ == old(self)@.put(event@),
    {
        if !self.input_open {
            return Err(VoiceTransportError::Closed);
        }
        proof {
            views_of_push(self.input@, event);
        }
        self.input.push_back(event);
        Ok(())
    }

    /// Tells that the user began to speak.
    pub fn send_speech_started(&mut self) -> (result: std::result::Result<
        (),
        VoiceTransportError,
    >)
        ensures
            result is Ok <==> old(self)@.input_open,
            final(self)@ == if old(self)@.input_open {
                FakeVoiceTransportView {
                    input: old(self)@.input.push(VoiceTransportEventView::SpeechStarted),
                    ..old(self)@
                }
            } else {
                old(self)@
            },
            final(self)@ == old(self)@.put(VoiceTransportEventView::SpeechStarted),
    {
        self.send(VoiceTransportEvent::SpeechStarted)
    }

    /// Puts the audio of a turn in.
    pub fn send_audio_turn(&mut self, chunks: Vec<AudioChunk>) -> (result: std::result::Result<
        (),
        VoiceTransportError,
    >)
        ensures
            result is Ok <==> old(self)@.input_open,
            final(self)@ == if old(self)@.input_open {
                FakeVoiceTransportView {
                    input: old(self)@.input.push(
                        VoiceTransportEventView::AudioTurn(views(chunks@)),
                    ),
                    ..old(self)@
                }
            } else {
                old(self)@
            },
            final(self)@ == old(self)@.put(VoiceTransportEventView::AudioTurn(views(chunks@))),
    {
        self.send(VoiceTransportEvent::AudioTurn(chunks))
    }

    /// Closes the transport: its last event tells so, and it takes no more.
    pub fn close(&mut self) -> (result: std::result::Result<(), VoiceTransportError>)
        ensures
            result is Ok <==> old(self)@.input_open,
            final(self)@ == if old(self)@.input_open {
                FakeVoiceTransportView {
                    input: old(self)@.input.push(VoiceTransportEventView::Closed),
                    input_open: false,
                    ..old(self)@
                }
            } else {
                old(self)@
            },
            final(self)@ == (FakeVoiceTransportView {
                input_open: false,
                ..old(self)@.put(VoiceTransportEventView::Closed)
            }),
    {
        let result = self.send(VoiceTransportEvent::Closed);
        self.input_open = false;
        result
    }

    /// Drops the transport: it takes no more, and after its last event it is gone.
    pub fn disconnect(&mut self)
        ensures
            final(self)@ == (FakeVoiceTransportView { input_open: false, ..old(self)@ }),
    {
        self.input_open = false;
    }

    /// The next event, `None` where none is there yet; `Some(None)` where the transport is gone.
    pub fn next_event(&mut self) -> (event: Option<Option<VoiceTransportEvent>>)
        ensures
            match event {
                Some(Some(event)) => old(self)@.input.len() > 0 && event@ == old(self)@.input[0]
                    && final(self)@ == (FakeVoiceTransportView {
                    input: old(self)@.input.drop_first(),
                    ..old(self)@
                }),
                Some(None) => old(self)@.input.len() == 0 && !old(self)@.input_open && final(self)@
                    == old(self)@,
                None => old(self)@.input.len() == 0 && old(self)@.input_open && final(self)@ == old(self)@,
            },
            final(self)@ == old(self)@.taken(),
            match (event, old(self)@.first()) {
                (Some(Some(event)), Some(Some(first))) => event@ == first,
                (Some(None), Some(None)) => true,
                (None, None) => true,
                _ => false,
            },
    {
        let ghost input = self.input@;
        match self.input.pop_front() {
            Some(event) => {
                assert(views(input)[0] == event@);
                assert(views(self.input@) =~= views(input).drop_first());
                Some(Some(event))
            },
            None => {
                assert(self.input@ =~= input);
                if self.input_open {
                    None
                } else {
                    Some(None)
                }
            },
        }
    }

    /// Keeps an event of spoken output.
    pub fn send_tts_event(&mut self, event: TtsEvent)
        ensures
            final(self)@ == (FakeVoiceTransportView {
                tts: old(self)@.tts.push(event@),
                ..old(self)@
            }),
    {
        proof {
            views_of_push(self.tts@, event);
        }
        self.tts.push_back(event);
    }

    /// Takes the first event of spoken output out.
    pub fn recv_tts_event(&mut self) -> (event: Option<TtsEvent>)
        ensures
            match event {
                Some(event) => old(self)@.tts.len() > 0 && event@ == old(self)@.tts[0] && final(self)@ == (FakeVoiceTransportView { tts: old(self)@.tts.drop_first(), ..old(self)@ }),
                None => old(self)@.tts.len() == 0 && final(self)@ == old(self)@,
            },
    {
        let ghost tts = self.tts@;
        match self.tts.pop_front() {
            Some(event) => {
                assert(views(tts)[0] == event@);
                assert(views(self.tts@) =~= views(tts).drop_first());
                Some(event)
            },
            None => {
                assert(self.tts@ =~= tts);
                None
            },
        }
    }

    /// Takes all events of spoken output out, in order.
    pub fn drain_tts_events(&mut self) -> (events: Vec<TtsEvent>)
        ensures
            views(events@) == old(self)@.tts,
            final(self)@ == (FakeVoiceTransportView { tts: Seq::empty(), ..old(self)@ }),
    {
        let mut events: Vec<TtsEvent> = Vec::new();
        let ghost all = self@.tts;
        assert(views(events@) + self@.tts =~= all);
        loop
            invariant
                views(events@) + self@.tts == all,
                self@.input == old(self)@.input,
                self@.input_open == old(self)@.input_open,
            ensures
                self@.tts.len() == 0,
            decreases self@.tts.len(),
        {
            match self.recv_tts_event() {
                Some(event) => {
                    let ghost before = events@;
                    let ghost left = self@.tts;
                    events.push(event);
                    proof {
                        views_of_push(before, event);
                        assert(views(events@) + left =~= all);
                    }
                },
                None => {
                    break;
                },
            }
        }
        assert(views(events@) =~= all);
        assert(self@.tts =~= Seq::empty());
        events
    }
}

/// What was put into a transport is taken out in order, and nothing between: the events that were
/// there first, and then the new ones. Once it is closed or gone nothing can be put in, and after the
/// last event it is told to be gone, not before.
pub proof fn events_are_taken_out_in_order(
    transport: FakeVoiceTransportView,
    events: Seq<VoiceTransportEventView>,
)
    ensures
        ({
            let filled = transport.put_all(events);
            &&& transport.input_open ==> filled.input == transport.input + events
            &&& !transport.input_open ==> filled == transport
            &&& filled.input_open == transport.input_open
            &&& filled.tts == transport.tts
            &&& filled.input.len() > 0 ==> filled.first() == Some(Some(filled.input[0]))
                && filled.input == seq![filled.input[0]] + filled.taken().input
            &&& filled.input.len() == 0 ==> filled.taken() == filled && (filled.first() is None
                <==> filled.input_open)
            &&& filled.taken().input_open == filled.input_open
        }),
    decreases events.len(),
{
    let filled = transport.put_all(events);
    if events.len() > 0 {
        events_are_taken_out_in_order(transport, events.drop_last());
        assert(transport.input_open ==> filled.input =~= transport.input + events);
    } else {
        assert(transport.input + events =~= transport.input);
    }
    if filled.input.len() > 0 {
        assert(filled.input =~= seq![filled.input[0]] + filled.taken().input);
    }
}

} // verus!
