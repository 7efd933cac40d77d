//! Speaking a turn's answer while it is streamed.
use vstd::prelude::*;

use crate::runtime::events::{RequestState, RuntimeEvent, RuntimeEventView};
use crate::text::{chars_of, opt_view};
use crate::voice::{
    Result, TtsAdapterError, TtsAdapterErrorView, TtsErrorView, TtsEvent, TtsEventView,
    VoiceEvent,
};

verus! {

/// Whether a character only formats text, and is not spoken.
pub open spec fn formats(c: char) -> bool {
    c == '*' || c == '`' || c == '#'
}

/// A text without the characters that are not spoken.
pub open spec fn sanitized(text: Seq<char>) -> Seq<char> {
    text.filter(|c: char| !formats(c))
}

/// A text without the characters that are not spoken.
pub fn sanitize_tts_fragment(text: &str) -> (spoken: String)
    ensures
        spoken@ == sanitized(text@),
{
    let chars = chars_of(text);
    let ghost keep = |c: char| !formats(c);
    let mut spoken = String::new();
    let mut i: usize = 0;
    proof {
        reveal(Seq::filter);
        assert(spoken@ =~= chars@.take(0).filter(keep));
    }
    while i < chars.len()
        invariant
            i <= chars@.len(),
            chars@ == text@,
            keep == (|c: char| !formats(c)),
            spoken@ == chars@.take(i as int).filter(keep),
        decreases chars@.len() - i,
    {
        let c = chars[i];
        proof {
            reveal(Seq::filter);
            assert(chars@.take(i + 1).drop_last() =~= chars@.take(i as int));
        }
        if !(c == '*' || c == '`' || c == '#') {
            spoken.push(c);
        }
        i = i + 1;
    }
    assert(chars@.take(i as int) =~= chars@);
    spoken
}

/// What is spoken holds no formatting character.
pub proof fn sanitized_holds_no_formatting(text: Seq<char>)
    ensures
        forall|i: int| 0 <= i < sanitized(text).len() ==> !formats(#[trigger] sanitized(text)[i]),
        sanitized(text).len() <= text.len(),
    decreases text.len(),
{
    reveal(Seq::filter);
    if text.len() > 0 {
        sanitized_holds_no_formatting(text.drop_last());
    }
}

/// Stars, backquotes and hashes are left out of what is spoken, and every other character is spoken
/// where it stands.
pub proof fn sanitizing_drops_only_markup(text: Seq<char>, c: char)
    ensures
        c == '*' || c == '`' || c == '#' ==> sanitized(text.push(c)) == sanitized(text),
        c != '*' && c != '`' && c != '#' ==> sanitized(text.push(c)) == sanitized(text).push(c),
        sanitized(Seq::empty()) == Seq::<char>::empty(),
{
    reveal(Seq::filter);
    assert(text.push(c).drop_last() =~= text);
}

/// Sanitizing a text again changes nothing.
pub proof fn sanitizing_is_idempotent(text: Seq<char>)
    ensures
        sanitized(sanitized(text)) == sanitized(text),
{
    sanitized_holds_no_formatting(text);
    sanitized_keeps_plain_text(sanitized(text));
}

/// A text without formatting characters is spoken as it is.
pub proof fn sanitized_keeps_plain_text(text: Seq<char>)
    requires
        forall|i: int| 0 <= i < text.len() ==> !formats(#[trigger] text[i]),
    ensures
        sanitized(text) == text,
    decreases text.len(),
{
    reveal(Seq::filter);
    if text.len() > 0 {
        assert forall|i: int| 0 <= i < text.drop_last().len() implies !formats(
            #[trigger] text.drop_last()[i],
        ) by {
            assert(!formats(text[i]));
        }
        sanitized_keeps_plain_text(text.drop_last());
        assert(!formats(text[text.len() - 1]));
        assert(text =~= text.drop_last().push(text.last()));
    } else {
        assert(sanitized(text) =~= text);
    }
}

/// Sanitizing a text fragment by fragment gives the same as sanitizing it whole.
pub proof fn sanitizing_is_independent_of_fragments(a: Seq<char>, b: Seq<char>)
    ensures
        sanitized(a + b) == sanitized(a) + sanitized(b),
    decreases b.len(),
{
    reveal(Seq::filter);
    if b.len() == 0 {
        assert(a + b =~= a);
        assert(sanitized(a) + sanitized(b) =~= sanitized(a));
    } else {
        sanitizing_is_independent_of_fragments(a, b.drop_last());
        assert((a + b).drop_last() =~= a + b.drop_last());
        assert((a + b).last() == b.last());
        assert(sanitized(a + b) =~= sanitized(a) + sanitized(b));
    }
}

/// The speaking of one turn.
#[derive(Debug, Clone, Copy, PartialEq, Eq, Structural)]
pub struct TtsAdapter {
    /// Whether more text may come.
    pub text_open: bool,
    /// Whether more events of the turn may come.
    pub runtime_open: bool,
    /// Whether speaking is over.
    pub finished: bool,
}

/// What happened since the last step.
#[derive(Debug)]
pub enum AdapterInput {
    Cancelled,
    /// An event of the turn; `None` where there are no more.
    Runtime(Option<RuntimeEvent>),
    /// An event of the speech; `None` where there are no more.
    Audio(Option<Result<TtsEvent>>),
}

pub enum AdapterInputView {
    Cancelled,
    Runtime(Option<RuntimeEventView>),
    Audio(Option<std::result::Result<TtsEventView, TtsErrorView>>),
}

impl View for AdapterInput {
    type V = AdapterInputView;

    open spec fn view(&self) -> AdapterInputView {
        match *self {
            AdapterInput::Cancelled => AdapterInputView::Cancelled,
            AdapterInput::Runtime(event) => AdapterInputView::Runtime(opt_view(event)),
            AdapterInput::Audio(Some(Ok(event))) => AdapterInputView::Audio(Some(Ok(event@))),
            AdapterInput::Audio(Some(Err(error))) => AdapterInputView::Audio(Some(Err(error@))),
            AdapterInput::Audio(None) => AdapterInputView::Audio(None),
        }
    }
}

/// What to do after a step: a text to speak, an event of the speech to hand on, an event of the
/// voice turn to tell, and the result where speaking is over.
#[derive(Debug)]
pub struct AdapterStep {
    pub speak: Option<String>,
    pub forward: Option<TtsEvent>,
    pub voice: Option<VoiceEvent>,
    pub result: Option<std::result::Result<(), TtsAdapterError>>,
}

#[verifier::ext_equal]
pub struct AdapterStepView {
    pub speak: Option<Seq<char>>,
    pub forward: Option<TtsEventView>,
    pub voice: Option<VoiceEvent>,
    pub result: Option<std::result::Result<(), TtsAdapterErrorView>>,
}

impl View for AdapterStep {
    type V = AdapterStepView;

    open spec fn view(&self) -> AdapterStepView {
        AdapterStepView {
            speak: opt_view(self.speak),
            forward: opt_view(self.forward),
            voice: self.voice,
            result: match self.result {
                Some(Ok(())) => Some(Ok(())),
                Some(Err(error)) => Some(Err(error@)),
                None => None,
            },
        }
    }
}

impl AdapterStepView {
    /// A step after which nothing is to do.
    pub open spec fn none() -> AdapterStepView {
        AdapterStepView { speak: None, forward: None, voice: None, result: None }
    }
}

impl TtsAdapter {
    /// Whether an input of this form may come: none once speaking is over, and no event of the turn
    /// once there are no more.
    pub open spec fn expects(self, input: AdapterInputView) -> bool {
        !self.finished && (input is Runtime ==> self.runtime_open)
    }

    /// The step on an event of the turn.
    pub open spec fn on_runtime(
        self,
        event: Option<RuntimeEventView>,
        elapsed_ms: u128,
    ) -> (TtsAdapter, AdapterStepView) {
        let none = AdapterStepView::none();
        match event {
            Some(RuntimeEventView::LlmFirstToken { elapsed_ms: runtime_elapsed_ms }) => (
                self,
                AdapterStepView {
                    voice: Some(VoiceEvent::LlmFirstToken { elapsed_ms, runtime_elapsed_ms }),
                    ..none
                },
            ),
            Some(RuntimeEventView::AssistantToken { text, .. }) => (
                self,
                if self.text_open && sanitized(text).len() > 0 {
                    AdapterStepView { speak: Some(sanitized(text)), ..none }
                } else {
                    none
                },
            ),
            Some(RuntimeEventView::Lifecycle { to, .. }) => if to is Cancelled {
                (
                    TtsAdapter { text_open: false, finished: true, ..self },
                    AdapterStepView { result: Some(Err(TtsAdapterErrorView::Cancelled)), ..none },
                )
            } else if to.terminal() {
                (TtsAdapter { text_open: false, ..self }, none)
            } else {
                (self, none)
            },
            Some(_) => (self, none),
            None => (TtsAdapter { text_open: false, runtime_open: false, ..self }, none),
        }
    }

    /// The step on an event of the speech.
    pub open spec fn on_audio(
        self,
        event: Option<std::result::Result<TtsEventView, TtsErrorView>>,
        elapsed_ms: u128,
    ) -> (TtsAdapter, AdapterStepView) {
        let over = TtsAdapter { finished: true, ..self };
        let none = AdapterStepView::none();
        match event {
            Some(Ok(event)) => {
                let voice = match event {
                    TtsEventView::FirstAudio { elapsed_ms: tts_elapsed_ms } => Some(
                        VoiceEvent::TtsFirstAudio { elapsed_ms, tts_elapsed_ms },
                    ),
                    _ => None,
                };
                let step = AdapterStepView { forward: Some(event), voice, ..none };
                if event is Done {
                    (over, AdapterStepView { result: Some(Ok(())), ..step })
                } else {
                    (self, step)
                }
            },
            Some(Err(error)) => (
                over,
                AdapterStepView { result: Some(Err(TtsAdapterErrorView::Tts(error))), ..none },
            ),
            None => (over, AdapterStepView { result: Some(Ok(())), ..none }),
        }
    }

    /// The step on `input`, `elapsed_ms` after the voice turn began.
    pub open spec fn stepped(
        self,
        input: AdapterInputView,
        elapsed_ms: u128,
    ) -> (TtsAdapter, AdapterStepView) {
        match input {
            AdapterInputView::Cancelled => (
                TtsAdapter { finished: true, ..self },
                AdapterStepView {
                    result: Some(Err(TtsAdapterErrorView::Cancelled)),
                    ..AdapterStepView::none()
                },
            ),
            AdapterInputView::Runtime(event) => self.on_runtime(event, elapsed_ms),
            AdapterInputView::Audio(event) => self.on_audio(event, elapsed_ms),
        }
    }

    pub fn new() -> (adapter: TtsAdapter)
        ensures
            adapter == (TtsAdapter { text_open: true, runtime_open: true, finished: false }),
    {
        TtsAdapter { text_open: true, runtime_open: true, finished: false }
    }

    /// Takes speaking one step on, `elapsed_ms` after the voice turn began.
    pub fn step(&mut self, input: AdapterInput, elapsed_ms: u128) -> (step: AdapterStep)
        requires
            old(self).expects(input@),
        ensures
            *final(self) == old(self).stepped(input@, elapsed_ms).0,
            step@ == old(self).stepped(input@, elapsed_ms).1,
    {
        let mut step = AdapterStep { speak: None, forward: None, voice: None, result: None };
        match input {
            AdapterInput::Cancelled => {
                self.finished = true;
                step.result = Some(Err(TtsAdapterError::Cancelled));
            },
            AdapterInput::Runtime(event) => match event {
                Some(RuntimeEvent::LlmFirstToken { elapsed_ms: runtime_elapsed_ms }) => {
                    step.voice = Some(
                        VoiceEvent::LlmFirstToken { elapsed_ms, runtime_elapsed_ms },
                    );
                },
                Some(RuntimeEvent::AssistantToken { text, .. }) => {
                    if self.text_open {
                        let spoken = sanitize_tts_fragment(text.as_str());
                        if !spoken.as_str().is_empty() {
                            step.speak = Some(spoken);
                        }
                    }
                },
                Some(RuntimeEvent::Lifecycle { to, .. }) => {
                    if to.is_terminal() {
                        self.text_open = false;
                        if to == RequestState::Cancelled {
                            self.finished = true;
                            step.result = Some(Err(TtsAdapterError::Cancelled));
                        }
                    }
                },
                Some(_) => {},
                None => {
                    self.runtime_open = false;
                    self.text_open = false;
                },
            },
            AdapterInput::Audio(event) => match event {
                Some(Ok(event)) => {
                    match &event {
                        TtsEvent::Done => {
                            self.finished = true;
                            step.result = Some(Ok(()));
                        },
                        TtsEvent::FirstAudio { elapsed_ms: tts_elapsed_ms } => {
                            step.voice = Some(
                                VoiceEvent::TtsFirstAudio {
                                    elapsed_ms,
                                    tts_elapsed_ms: *tts_elapsed_ms,
                                },
                            );
                        },
                        _ => {},
                    }
                    step.forward = Some(event);
                },
                Some(Err(error)) => {
                    self.finished = true;
                    step.result = Some(Err(TtsAdapterError::Tts(error)));
                },
                None => {
                    self.finished = true;
                    step.result = Some(Ok(()));
                },
            },
        }
        step
    }
}

/// The speaking of a turn up to some point: the text that came while it was open, the text that was
/// given to be spoken, the events of the speech that came, and those that were handed on.
#[verifier::ext_equal]
pub struct AdapterRun {
    pub adapter: TtsAdapter,
    pub heard: Seq<char>,
    pub spoken: Seq<char>,
    pub audio: Seq<TtsEventView>,
    pub forwarded: Seq<TtsEventView>,
    pub result: Option<std::result::Result<(), TtsAdapterErrorView>>,
}

/// The speaking of a turn after some inputs, each with the time at which it came. An input that the
/// adapter does not expect does not occur.
pub open spec fn adapter_run(inputs: Seq<(AdapterInputView, u128)>) -> AdapterRun
    decreases inputs.len(),
{
    if inputs.len() == 0 {
        AdapterRun {
            adapter: TtsAdapter { text_open: true, runtime_open: true, finished: false },
            heard: Seq::empty(),
            spoken: Seq::empty(),
            audio: Seq::empty(),
            forwarded: Seq::empty(),
            result: None,
        }
    } else {
        let run = adapter_run(inputs.drop_last());
        let (input, elapsed_ms) = inputs.last();
        if run.adapter.expects(input) {
            let (adapter, step) = run.adapter.stepped(input, elapsed_ms);
            AdapterRun {
                adapter,
                heard: match input {
                    AdapterInputView::Runtime(
                        Some(RuntimeEventView::AssistantToken { text, .. }),
                    ) if run.adapter.text_open => run.heard + text,
                    _ => run.heard,
                },
                spoken: match step.speak {
                    Some(text) => run.spoken + text,
                    None => run.spoken,
                },
                audio: match input {
                    AdapterInputView::Audio(Some(Ok(event))) => run.audio.push(event),
                    _ => run.audio,
                },
                forwarded: match step.forward {
                    Some(event) => run.forwarded.push(event),
                    None => run.forwarded,
                },
                result: step.result,
            }
        } else {
            run
        }
    }
}

/// What is given to be spoken is the sanitized answer as far as it came, and the events of the
/// speech are handed on as they come.
pub proof fn what_is_spoken_was_said(inputs: Seq<(AdapterInputView, u128)>)
    ensures
        adapter_run(inputs).spoken == sanitized(adapter_run(inputs).heard),
        adapter_run(inputs).forwarded == adapter_run(inputs).audio,
    decreases inputs.len(),
{
    if inputs.len() == 0 {
        reveal(Seq::filter);
        assert(adapter_run(inputs).spoken =~= sanitized(adapter_run(inputs).heard));
    } else {
        what_is_spoken_was_said(inputs.drop_last());
        let run = adapter_run(inputs.drop_last());
        let (input, _) = inputs.last();
        if let AdapterInputView::Runtime(Some(RuntimeEventView::AssistantToken { text, .. }))
            = input {
            sanitizing_is_independent_of_fragments(run.heard, text);
            if sanitized(text).len() == 0 {
                assert(sanitized(run.heard) + sanitized(text) =~= sanitized(run.heard));
            }
        }
    }
}

/// Once the turn is over, was cancelled, or has no more events, no more text is spoken; once
/// speaking is over, nothing happens at all.
pub proof fn nothing_is_spoken_after_the_end(
    inputs: Seq<(AdapterInputView, u128)>,
    later: Seq<(AdapterInputView, u128)>,
)
    ensures
        ({
            let before = adapter_run(inputs);
            let after = adapter_run(inputs + later);
            &&& !before.adapter.text_open || before.adapter.finished ==> after.spoken
                == before.spoken && (before.adapter.finished || !after.adapter.text_open)
            &&& before.adapter.finished ==> after == before
        }),
    decreases later.len(),
{
    if later.len() == 0 {
        assert(inputs + later =~= inputs);
    } else {
        nothing_is_spoken_after_the_end(inputs, later.drop_last());
        assert((inputs + later).drop_last() =~= inputs + later.drop_last());
    }
}

/// Speaking is over exactly where it has a result.
pub proof fn speaking_ends_with_a_result(inputs: Seq<(AdapterInputView, u128)>)
    ensures
        adapter_run(inputs).adapter.finished <==> adapter_run(inputs).result is Some,
    decreases inputs.len(),
{
    if inputs.len() > 0 {
        speaking_ends_with_a_result(inputs.drop_last());
    }
}

/// Whether no more text follows this input: the turn's events end with it, or it is the event that
/// the turn has reached an end.
pub open spec fn ends_text(input: AdapterInputView) -> bool {
    match input {
        AdapterInputView::Runtime(None) => true,
        AdapterInputView::Runtime(Some(RuntimeEventView::Lifecycle { to, .. })) => to is Completed
            || to is Cancelled || to is Failed,
        _ => false,
    }
}

/// The result of speaking where it is over with this input: it is cancelled, or the turn is; the
/// speech fails; or the speech is done or has no more events.
pub open spec fn ends_speaking(input: AdapterInputView) -> Option<
    std::result::Result<(), TtsAdapterErrorView>,
> {
    match input {
        AdapterInputView::Cancelled => Some(Err(TtsAdapterErrorView::Cancelled)),
        AdapterInputView::Runtime(Some(RuntimeEventView::Lifecycle { to, .. })) => if to
            == RequestState::Cancelled {
            Some(Err(TtsAdapterErrorView::Cancelled))
        } else {
            None
        },
        AdapterInputView::Runtime(_) => None,
        AdapterInputView::Audio(None) => Some(Ok(())),
        AdapterInputView::Audio(Some(Ok(event))) => if event is Done {
            Some(Ok(()))
        } else {
            None
        },
        AdapterInputView::Audio(Some(Err(error))) => Some(Err(TtsAdapterErrorView::Tts(error))),
    }
}

/// The inputs that occur: none after the one with which speaking is over, and no event of the turn
/// after its events ended.
pub open spec fn occurring(inputs: Seq<(AdapterInputView, u128)>) -> Seq<(AdapterInputView, u128)>
    decreases inputs.len(),
{
    if inputs.len() == 0 {
        inputs
    } else {
        let before = occurring(inputs.drop_last());
        if (before.len() > 0 && ends_speaking(before.last().0) is Some) || (inputs.last().0
            is Runtime && before.any(
            |input: (AdapterInputView, u128)| input.0 == AdapterInputView::Runtime(None),
        )) {
            before
        } else {
            before.push(inputs.last())
        }
    }
}

/// The texts of all tokens, in order.
pub open spec fn token_texts(inputs: Seq<(AdapterInputView, u128)>) -> Seq<char>
    decreases inputs.len(),
{
    if inputs.len() == 0 {
        Seq::empty()
    } else {
        token_texts(inputs.drop_last()) + match inputs.last().0 {
            AdapterInputView::Runtime(Some(RuntimeEventView::AssistantToken { text, .. })) => text,
            _ => Seq::empty(),
        }
    }
}

/// The events of the speech, in order.
pub open spec fn speech_events(inputs: Seq<(AdapterInputView, u128)>) -> Seq<TtsEventView>
    decreases inputs.len(),
{
    if inputs.len() == 0 {
        Seq::empty()
    } else {
        let before = speech_events(inputs.drop_last());
        match inputs.last().0 {
            AdapterInputView::Audio(Some(Ok(event))) => before.push(event),
            _ => before,
        }
    }
}

/// The inputs before the first one with which the text ends.
pub open spec fn before_text_ends(inputs: Seq<(AdapterInputView, u128)>) -> Seq<
    (AdapterInputView, u128),
>
    decreases inputs.len(),
{
    if inputs.len() == 0 {
        inputs
    } else {
        let before = before_text_ends(inputs.drop_last());
        if before.len() + 1 == inputs.len() && !ends_text(inputs.last().0) {
            inputs
        } else {
            before
        }
    }
}

proof fn run_follows_inputs(inputs: Seq<(AdapterInputView, u128)>)
    ensures
        ({
            let run = adapter_run(inputs);
            let all = occurring(inputs);
            let text = before_text_ends(all);
            &&& run.adapter.finished <==> all.len() > 0 && ends_speaking(all.last().0) is Some
            &&& run.adapter.runtime_open <==> !all.any(
                |input: (AdapterInputView, u128)| input.0 == AdapterInputView::Runtime(None),
            )
            &&& run.adapter.text_open <==> text == all
            &&& text.len() <= all.len()
            &&& run.adapter.text_open ==> run.adapter.runtime_open
            &&& run.heard == token_texts(text)
            &&& run.audio == speech_events(all)
            &&& run.result == if all.len() > 0 {
                ends_speaking(all.last().0)
            } else {
                None
            }
        }),
    decreases inputs.len(),
{
    let ends = |input: (AdapterInputView, u128)| input.0 == AdapterInputView::Runtime(None);
    let all = occurring(inputs);
    if inputs.len() > 0 {
        let rest = inputs.drop_last();
        run_follows_inputs(rest);
        let before = occurring(rest);
        let run = adapter_run(rest);
        let (input, elapsed_ms) = inputs.last();
        if run.adapter.expects(input) {
            assert(all == before.push((input, elapsed_ms)));
            assert(all.drop_last() =~= before);
            assert(all.any(ends) <==> before.any(ends) || ends(all.last())) by {
                if all.any(ends) {
                    let i = choose|i: int| 0 <= i < all.len() && ends(#[trigger] all[i]);
                    if i < before.len() {
                        assert(ends(before[i]));
                    }
                }
                if before.any(ends) {
                    let i = choose|i: int| 0 <= i < before.len() && ends(#[trigger] before[i]);
                    assert(ends(all[i]));
                }
                assert(all[all.len() - 1] == all.last());
            }
            before_text_ends_is_longest(before);
            assert(before.take(before.len() as int) =~= before);
            let text = before_text_ends(all);
            if run.adapter.text_open && !ends_text(input) {
                assert(text == all);
            } else {
                assert(text == before_text_ends(before));
            }
            if !(input matches AdapterInputView::Runtime(
                Some(RuntimeEventView::AssistantToken { .. }),
            )) {
                assert(token_texts(before) + Seq::<char>::empty() =~= token_texts(before));
            }
        } else {
            assert(all == before);
        }
    } else {
        assert(!all.any(ends));
    }
}

/// Text is taken as long as no input came with which it ends, or with which speaking is over,
/// whatever other events came. All of the answer that was streamed so far is spoken, but for its
/// formatting.
pub proof fn all_of_the_answer_is_spoken(inputs: Seq<(AdapterInputView, u128)>)
    ensures
        ({
            let run = adapter_run(inputs);
            let all = occurring(inputs);
            &&& run.spoken == sanitized(token_texts(before_text_ends(all)))
            &&& run.adapter.text_open <==> forall|i: int|
                0 <= i < all.len() ==> !ends_text(#[trigger] all[i].0)
            &&& run.adapter.text_open ==> run.spoken == sanitized(token_texts(all))
        }),
{
    what_is_spoken_was_said(inputs);
    run_follows_inputs(inputs);
    let all = occurring(inputs);
    let text = before_text_ends(all);
    before_text_ends_is_longest(all);
    assert(all.take(all.len() as int) =~= all);
    if text.len() < all.len() {
        assert(ends_text(all[text.len() as int].0));
    }
}

/// The inputs before the text ends are the first ones, up to the first with which it ends.
proof fn before_text_ends_is_longest(inputs: Seq<(AdapterInputView, u128)>)
    ensures
        ({
            let text = before_text_ends(inputs);
            &&& text.len() <= inputs.len()
            &&& text == inputs.take(text.len() as int)
            &&& forall|i: int| 0 <= i < text.len() ==> !ends_text(#[trigger] inputs[i].0)
            &&& text.len() < inputs.len() ==> ends_text(inputs[text.len() as int].0)
        }),
    decreases inputs.len(),
{
    let text = before_text_ends(inputs);
    if inputs.len() > 0 {
        let rest = inputs.drop_last();
        before_text_ends_is_longest(rest);
        let before = before_text_ends(rest);
        assert forall|i: int| 0 <= i < text.len() implies !ends_text(#[trigger] inputs[i].0) by {
            if i < rest.len() && i < before.len() {
                assert(!ends_text(rest[i].0));
            }
        }
        assert(before == rest.take(before.len() as int));
        assert(rest.take(before.len() as int) =~= inputs.take(before.len() as int));
        assert(inputs.take(inputs.len() as int) =~= inputs);
        if before.len() < rest.len() {
            assert(rest[before.len() as int] == inputs[before.len() as int]);
        }
    } else {
        assert(text =~= inputs.take(0));
    }
}

/// Speaking is over exactly with the first input that ends it, and with the result of that input:
/// a cancelled turn ends it as one that is interrupted does, a failed or completed one does not. All
/// events of the speech that came until then are handed on, in order.
pub proof fn speaking_is_over_with_the_input_that_ends_it(inputs: Seq<(AdapterInputView, u128)>)
    ensures
        ({
            let run = adapter_run(inputs);
            let all = occurring(inputs);
            &&& run.result == if all.len() > 0 {
                ends_speaking(all.last().0)
            } else {
                None
            }
            &&& run.forwarded == speech_events(all)
            &&& forall|i: int| 0 <= i < all.len() - 1 ==> ends_speaking(#[trigger] all[i].0) is None
        }),
{
    run_follows_inputs(inputs);
    what_is_spoken_was_said(inputs);
    only_the_last_ends(inputs);
}

proof fn only_the_last_ends(inputs: Seq<(AdapterInputView, u128)>)
    ensures
        forall|i: int|
            0 <= i < occurring(inputs).len() - 1 ==> ends_speaking(
                #[trigger] occurring(inputs)[i].0,
            ) is None,
    decreases inputs.len(),
{
    if inputs.len() > 0 {
        only_the_last_ends(inputs.drop_last());
    }
}

/// The first token of the answer and the first audio of the speech are told, each with the time at
/// which it came and the time that it tells itself; nothing else is told of the voice turn.
pub proof fn first_token_and_first_audio_are_told(
    adapter: TtsAdapter,
    input: AdapterInputView,
    elapsed_ms: u128,
)
    requires
        adapter.expects(input),
    ensures
        adapter.stepped(input, elapsed_ms).1.voice == (match input {
            AdapterInputView::Runtime(
                Some(RuntimeEventView::LlmFirstToken { elapsed_ms: runtime_elapsed_ms }),
            ) => Some(VoiceEvent::LlmFirstToken { elapsed_ms, runtime_elapsed_ms }),
            AdapterInputView::Audio(
                Some(Ok(TtsEventView::FirstAudio { elapsed_ms: tts_elapsed_ms })),
            ) => Some(VoiceEvent::TtsFirstAudio { elapsed_ms, tts_elapsed_ms }),
            _ => None,
        }),
        adapter.stepped(input, elapsed_ms).1.speak matches Some(text) ==> text.len() > 0,
{
}

/// What speaks an agent's answers.
#[derive(Debug, Clone)]
pub struct RuntimeTtsAdapter<T> {
    tts: T,
}

impl<T> RuntimeTtsAdapter<T> {
    /// The text-to-speech backend.
    pub closed spec fn backend(&self) -> T {
        self.tts
    }

    pub fn new(tts: T) -> (adapter: RuntimeTtsAdapter<T>)
        ensures
            adapter.backend() == tts,
    {
        RuntimeTtsAdapter { tts }
    }

    pub fn tts(&self) -> (tts: &T)
        ensures
            *tts == self.backend(),
    {
        &self.tts
    }
}

} // verus!
