//! The OpenAI-compatible streaming protocol: server-sent events over a byte stream.
use std::collections::VecDeque;

use vstd::prelude::*;

use crate::llm::{
    ChatMessage, ChatRequest, LlmError, LlmErrorView, Result, StatusCode,
    TokenEvent, TokenEventView,
};
use crate::stats::{ascending, sort};
use crate::streams::StreamCounter;
use crate::text::{
    chars_of, concatenated, debug_form, debug_text, fragment_len, fragments, join, joined,
    lossy_text, opt_view, reads_as_text, split_inclusive, starts_with, text_eq, text_of,
    trim_end_char, trimmed_end, utf8_lossy, views, views_of_push, IntoText,
};
use crate::time::Duration;

verus! {

/// How to reach an OpenAI-compatible provider.
#[derive(Debug, Clone)]
pub struct OpenAiConfig {
    pub base_url: String,
    pub api_key: String,
    pub timeout: Duration,
    pub stream_buffer_capacity: usize,
}

impl OpenAiConfig {
    pub fn new(base_url: impl IntoText, api_key: impl IntoText) -> (config: OpenAiConfig)
        ensures
            config.base_url@ == base_url.text(),
            config.api_key@ == api_key.text(),
            config.timeout.total_nanos() == 30_000_000_000,
            config.stream_buffer_capacity == 8,
    {
        OpenAiConfig {
            base_url: base_url.into_text(),
            api_key: api_key.into_text(),
            timeout: Duration::from_secs(30),
            stream_buffer_capacity: 8,
        }
    }

    /// The address of the chat endpoint under the base address.
    pub fn chat_completions_url(&self) -> (url: String)
        ensures
            url@ == trimmed_end(self.base_url@, '/') + "/chat/completions"@,
    {
        trim_end_char(self.base_url.as_str(), '/').concat("/chat/completions")
    }

    /// How many events the stream holds until its reader takes them: at least one.
    pub fn channel_capacity(&self) -> (capacity: usize)
        ensures
            capacity == if self.stream_buffer_capacity == 0 {
                1
            } else {
                self.stream_buffer_capacity
            },
    {
        if self.stream_buffer_capacity == 0 {
            1
        } else {
            self.stream_buffer_capacity
        }
    }
}

/// The body of a chat request.
#[derive(Debug)]
pub struct OpenAiChatRequest {
    pub model: String,
    pub messages: Vec<ChatMessage>,
    pub stream: bool,
}

/// A chat request as it is sent: where to, with which key, for how long, and its body.
#[derive(Debug)]
pub struct HttpChatRequest {
    pub url: String,
    pub api_key: String,
    pub timeout: Duration,
    pub body: OpenAiChatRequest,
}

impl HttpChatRequest {
    /// The HTTP form of `req`: a streamed answer is asked for, and the request's own timeout
    /// replaces the provider's.
    pub fn new(config: &OpenAiConfig, req: ChatRequest) -> (http: HttpChatRequest)
        ensures
            http.url@ == trimmed_end(config.base_url@, '/') + "/chat/completions"@,
            http.api_key@ == config.api_key@,
            http.timeout == (match req@.timeout {
                Some(timeout) => timeout,
                None => config.timeout,
            }),
            http.body.model@ == req@.model,
            views(http.body.messages@) == req@.messages,
            http.body.stream,
    {
        let timeout = match req.timeout {
            Some(timeout) => timeout,
            None => config.timeout,
        };
        HttpChatRequest {
            url: config.chat_completions_url(),
            api_key: config.api_key.clone(),
            timeout,
            body: OpenAiChatRequest { model: req.model, messages: req.messages, stream: true },
        }
    }
}

/// The error of a request or a read that failed: a timeout is told apart from the rest.
pub fn map_reqwest_error(timed_out: bool, message: String) -> (error: LlmError)
    ensures
        error@ == if timed_out {
            LlmErrorView::ProviderTimeout
        } else {
            LlmErrorView::ProviderRequest(message@)
        },
{
    if timed_out {
        LlmError::ProviderTimeout
    } else {
        LlmError::ProviderRequest(message)
    }
}

/// Whether the answer to a request may be read as a stream; the error where its status says that
/// the request failed.
pub fn check_status(status: StatusCode, body: String) -> (result: Result<()>)
    ensures
        result is Ok <==> 200 <= status@.code < 300,
        result matches Err(error) ==> error@ == (LlmErrorView::HttpStatus {
            status: status@,
            body: body@,
        }),
{
    if status.is_success() {
        Ok(())
    } else {
        Err(LlmError::HttpStatus { status, body })
    }
}

/// The number of provider streams that are running.
pub fn active_stream_task_count(tasks: &StreamCounter) -> (count: usize)
    ensures
        count == tasks@,
{
    tasks.count()
}

/// The time to the first token of each stream.
#[derive(Debug)]
pub struct LatencyMetrics {
    first_token_nanos: Vec<u128>,
}

/// What is logged when a stream's first token arrives.
#[derive(Debug, Clone, Copy, PartialEq, Eq, Structural)]
pub struct FirstTokenLatency {
    pub latency_ms: u64,
    pub p50_ms: u64,
    pub samples: usize,
}

impl View for LatencyMetrics {
    type V = Seq<u128>;

    closed spec fn view(&self) -> Seq<u128> {
        self.first_token_nanos@
    }
}

impl LatencyMetrics {
    pub fn new() -> (metrics: LatencyMetrics)
        ensures
            metrics@ == Seq::<u128>::empty(),
    {
        LatencyMetrics { first_token_nanos: Vec::new() }
    }

    /// Records a stream's time to its first token, and gives it with the median of all of them
    /// (the lower one of two), in milliseconds.
    pub fn record_first_token_latency(&mut self, latency: Duration) -> (log: FirstTokenLatency)
        ensures
            final(self)@ == old(self)@.push(latency.total_nanos() as u128),
            log.samples == final(self)@.len(),
            log.latency_ms == (latency.total_nanos() / 1_000_000) as u128 as u64,
            log.p50_ms == (ascending(final(self)@)[(final(self)@.len() - 1) / 2] / 1_000_000) as u64,
            log.p50_ms == (lower_median(final(self)@) / 1_000_000) as u64,
    {
        let nanos: u128 = latency.as_secs() as u128 * 1_000_000_000 + latency.subsec_nanos() as u128;
        self.first_token_nanos.push(nanos);
        let sorted = sort(&self.first_token_nanos);
        proof {
            crate::stats::ascending_keeps_samples(self.first_token_nanos@);
        }
        let mid: usize = (sorted.len() - 1) / 2;
        FirstTokenLatency {
            latency_ms: latency.as_millis() as u64,
            p50_ms: (sorted[mid] / 1_000_000) as u64,
            samples: sorted.len(),
        }
    }
}

/// The median of samples, the lower one of two.
pub open spec fn lower_median(samples: Seq<u128>) -> u128 {
    ascending(samples)[(samples.len() - 1) / 2]
}

/// The median is a sample, and stands in the middle: of all in ascending order as many stand before
/// it as after it, or one more after it.
pub proof fn the_median_stands_in_the_middle(samples: Seq<u128>)
    requires
        samples.len() > 0,
    ensures
        samples.contains(lower_median(samples)),
        exists|i: int|
            0 <= i < samples.len() && lower_median(samples) == #[trigger] ascending(samples)[i] && (i
                == samples.len() - 1 - i || i + 1 == samples.len() - 1 - i),
        samples.len() == 1 ==> lower_median(samples) == samples[0],
{
    crate::stats::ascending_keeps_samples(samples);
    let i = (samples.len() - 1) / 2;
    assert(samples.contains(ascending(samples)[i]));
}

/// Whether the bytes at `i` are two line feeds.
pub open spec fn blank_line_at(bytes: Seq<u8>, i: int) -> bool {
    i + 1 < bytes.len() && bytes[i] == 10 && bytes[i + 1] == 10
}

/// Whether the bytes at `i` are two pairs of carriage return and line feed.
pub open spec fn crlf_blank_line_at(bytes: Seq<u8>, i: int) -> bool {
    i + 3 < bytes.len() && bytes[i] == 13 && bytes[i + 1] == 10 && bytes[i + 2] == 13 && bytes[i
        + 3] == 10
}

/// The first end of an event at or after `i`, with the length of its delimiter.
pub open spec fn boundary_from(bytes: Seq<u8>, i: int) -> Option<(int, int)>
    decreases bytes.len() - i,
{
    if i >= bytes.len() {
        None
    } else if blank_line_at(bytes, i) {
        Some((i, 2))
    } else if crlf_blank_line_at(bytes, i) {
        Some((i, 4))
    } else {
        boundary_from(bytes, i + 1)
    }
}

/// The boundary that is found is the first one, and a whole delimiter.
pub proof fn boundary_from_is_first(bytes: Seq<u8>, i: int)
    requires
        0 <= i,
    ensures
        boundary_from(bytes, i) matches Some((end, len)) ==> i <= end && end + len <= bytes.len()
            && (len == 2 || len == 4) && (len == 2 <==> blank_line_at(bytes, end)) && (len == 4 ==>
            crlf_blank_line_at(bytes, end)),
        boundary_from(bytes, i) matches Some((end, len)) ==> forall|j: int|
            i <= j < end ==> !#[trigger] blank_line_at(bytes, j) && !crlf_blank_line_at(bytes, j),
        boundary_from(bytes, i) is None ==> forall|j: int|
            i <= j < bytes.len() ==> !#[trigger] blank_line_at(bytes, j) && !crlf_blank_line_at(
                bytes,
                j,
            ),
    decreases bytes.len() - i,
{
    if i < bytes.len() && !blank_line_at(bytes, i) && !crlf_blank_line_at(bytes, i) {
        boundary_from_is_first(bytes, i + 1);
    }
}

/// Bytes that follow do not move the first end of an event.
proof fn boundary_survives_more_bytes(bytes: Seq<u8>, more: Seq<u8>, i: int)
    requires
        0 <= i,
        boundary_from(bytes, i) is Some,
    ensures
        boundary_from(bytes + more, i) == boundary_from(bytes, i),
    decreases bytes.len() - i,
{
    boundary_from_is_first(bytes, i);
    let all = bytes + more;
    if blank_line_at(bytes, i) {
        assert(blank_line_at(all, i));
    } else if crlf_blank_line_at(bytes, i) {
        assert(crlf_blank_line_at(all, i));
        assert(!blank_line_at(all, i));
    } else {
        let (end, len) = boundary_from(bytes, i).unwrap();
        assert(i < end);
        assert(!blank_line_at(all, i));
        if crlf_blank_line_at(all, i) {
            // The second pair would reach past `bytes`, so that the event's end stands on its
            // first line feed, which a carriage return follows.
            assert(end == i + 1);
            assert(false);
        }
        boundary_survives_more_bytes(bytes, more, i + 1);
    }
}

/// The events that `bytes` complete, and the bytes after the last of them.
pub open spec fn completed(bytes: Seq<u8>) -> (Seq<Seq<u8>>, Seq<u8>)
    decreases bytes.len(),
{
    match boundary_from(bytes, 0) {
        None => (Seq::empty(), bytes),
        Some((end, len)) => {
            proof {
                boundary_from_is_first(bytes, 0);
            }
            let (events, rest) = completed(bytes.skip(end + len));
            (seq![bytes.take(end)] + events, rest)
        },
    }
}

/// What bytes complete does not depend on how they are cut into reads: completing the events of
/// the first read, and then those of what it left with the second one, gives the same events and
/// the same rest as both reads at once.
pub proof fn completed_is_independent_of_reads(first: Seq<u8>, second: Seq<u8>)
    ensures
        completed(first + second).0 == completed(first).0 + completed(
            completed(first).1 + second,
        ).0,
        completed(first + second).1 == completed(completed(first).1 + second).1,
    decreases first.len(),
{
    match boundary_from(first, 0) {
        None => {
            assert(completed(first + second).0 =~= Seq::<Seq<u8>>::empty() + completed(
                first + second,
            ).0);
        },
        Some((end, len)) => {
            boundary_from_is_first(first, 0);
            boundary_survives_more_bytes(first, second, 0);
            let rest = first.skip(end + len);
            assert((first + second).skip(end + len) =~= rest + second);
            assert((first + second).take(end) =~= first.take(end));
            completed_is_independent_of_reads(rest, second);
            assert(completed(first + second).0 =~= completed(first).0 + completed(
                completed(first).1 + second,
            ).0);
        },
    }
}

/// The bytes left over by `completed` complete no event.
pub proof fn completed_leaves_no_event(bytes: Seq<u8>)
    ensures
        boundary_from(completed(bytes).1, 0) is None,
    decreases bytes.len(),
{
    if boundary_from(bytes, 0) is Some {
        boundary_from_is_first(bytes, 0);
        let (end, len) = boundary_from(bytes, 0).unwrap();
        completed_leaves_no_event(bytes.skip(end + len));
    }
}

/// The first end of an event in `buffer`, with the length of its delimiter: a blank line that
/// ends in line feeds, or in pairs of carriage return and line feed.
pub fn find_event_boundary(buffer: &Vec<u8>) -> (boundary: Option<(usize, usize)>)
    ensures
        match boundary {
            Some((end, len)) => boundary_from(buffer@, 0) == Some((end as int, len as int)),
            None => boundary_from(buffer@, 0) is None,
        },
{
    let mut i: usize = 0;
    while i < buffer.len()
        invariant
            i <= buffer@.len(),
            boundary_from(buffer@, 0) == boundary_from(buffer@, i as int),
        decreases buffer@.len() - i,
    {
        let left: usize = buffer.len() - i;
        if left > 1 && buffer[i] == 10 && buffer[i + 1] == 10 {
            return Some((i, 2));
        }
        if left > 3 && buffer[i] == 13 && buffer[i + 1] == 10 && buffer[i + 2] == 13 && buffer[i
            + 3] == 10 {
            return Some((i, 4));
        }
        i = i + 1;
    }
    None
}

/// Cuts a byte stream into server-sent events.
#[derive(Debug)]
pub struct SseDecoder {
    buffer: Vec<u8>,
    pending: VecDeque<String>,
}

/// The bytes of the event that is not complete yet, and the complete events that were not taken.
#[verifier::ext_equal]
pub struct SseDecoderView {
    pub buffer: Seq<u8>,
    pub pending: Seq<Seq<char>>,
}

impl View for SseDecoder {
    type V = SseDecoderView;

    closed spec fn view(&self) -> SseDecoderView {
        SseDecoderView { buffer: self.buffer@, pending: views(self.pending@) }
    }
}

/// The texts of raw events.
pub open spec fn event_texts(events: Seq<Seq<u8>>) -> Seq<Seq<char>> {
    events.map_values(|event: Seq<u8>| lossy_text(event))
}

impl SseDecoderView {
    /// The decoder before any byte.
    pub open spec fn empty() -> SseDecoderView {
        SseDecoderView { buffer: Seq::empty(), pending: Seq::empty() }
    }

    /// The decoder after `bytes` more.
    pub open spec fn pushed(self, bytes: Seq<u8>) -> SseDecoderView {
        let (events, rest) = completed(self.buffer + bytes);
        SseDecoderView { buffer: rest, pending: self.pending + event_texts(events) }
    }
}

/// A decoder that is given a stream in two reads ends as one that is given both at once.
pub proof fn pushing_is_independent_of_reads(
    decoder: SseDecoderView,
    first: Seq<u8>,
    second: Seq<u8>,
)
    ensures
        decoder.pushed(first).pushed(second) == decoder.pushed(first + second),
{
    completed_is_independent_of_reads(decoder.buffer + first, second);
    assert(decoder.buffer + first + second =~= decoder.buffer + (first + second));
    let once = decoder.pushed(first + second);
    let twice = decoder.pushed(first).pushed(second);
    assert(once.pending =~= twice.pending);
}

impl SseDecoder {
    pub fn new() -> (decoder: SseDecoder)
        ensures
            decoder@ == SseDecoderView::empty(),
    {
        let decoder = SseDecoder { buffer: Vec::new(), pending: VecDeque::new() };
        assert(decoder@ =~= SseDecoderView::empty());
        decoder
    }

    /// Takes `bytes` in: the events that they complete are pending.
    pub fn push(&mut self, bytes: &[u8])
        ensures
            final(self)@ == old(self)@.pushed(bytes@),
            forall|i: int|
                0 <= i < completed(old(self)@.buffer + bytes@).0.len() ==> reads_as_text(
                    #[trigger] completed(old(self)@.buffer + bytes@).0[i],
                ),
    {
        let ghost before = self.buffer@;
        self.buffer.extend_from_slice(bytes);
        assert(self.buffer@ =~= before + bytes@);
        self.collect_complete_events();
    }

    /// Moves the complete events at the start of the buffer to the pending ones.
    fn collect_complete_events(&mut self)
        ensures
            final(self)@ == old(self)@.pushed(Seq::empty()),
            forall|i: int|
                0 <= i < completed(old(self)@.buffer).0.len() ==> reads_as_text(
                    #[trigger] completed(old(self)@.buffer).0[i],
                ),
    {
        let ghost all = self.buffer@;
        let ghost events = completed(all).0;
        let ghost rest = completed(all).1;
        let ghost old_pending = views(self.pending@);
        let ghost mut done: int = 0;
        proof {
            assert(all + Seq::<u8>::empty() =~= all);
            assert(events.skip(0) =~= events);
            assert(views(self.pending@) =~= old_pending + event_texts(events.take(0)));
        }
        loop
            invariant
                0 <= done <= events.len(),
                events.skip(done) == completed(self.buffer@).0,
                rest == completed(self.buffer@).1,
                views(self.pending@) == old_pending + event_texts(events.take(done)),
                forall|i: int| 0 <= i < done ==> reads_as_text(#[trigger] events[i]),
            ensures
                self.buffer@ == rest,
                done == events.len(),
                forall|i: int| 0 <= i < done ==> reads_as_text(#[trigger] events[i]),
                views(self.pending@) == old_pending + event_texts(events),
            decreases self.buffer@.len(),
        {
            match find_event_boundary(&self.buffer) {
                None => {
                    assert(events.skip(done).len() == 0);
                    assert(events.take(done) =~= events);
                    break;
                },
                Some((end, len)) => {
                    proof {
                        boundary_from_is_first(self.buffer@, 0);
                    }
                    let ghost buffer = self.buffer@;
                    let ghost pending = self.pending@;
                    let mut tail = self.buffer.split_off(end);
                    let text = utf8_lossy(self.buffer.as_slice());
                    let ghost event = self.buffer@;
                    self.pending.push_back(text);
                    self.buffer = tail.split_off(len);
                    proof {
                        assert(event =~= buffer.take(end as int));
                        assert(self.buffer@ =~= buffer.skip(end + len));
                        assert(events.skip(done) == seq![event] + completed(self.buffer@).0);
                        assert(events.skip(done).len() > 0);
                        assert(events.skip(done)[0] == event);
                        assert(events[done] == event);
                        assert(events.skip(done + 1) =~= completed(self.buffer@).0) by {
                            let after = completed(self.buffer@).0;
                            assert(events.skip(done) =~= seq![event] + after);
                            assert(events.skip(done + 1) =~= events.skip(done).skip(1));
                            assert((seq![event] + after).skip(1) =~= after);
                        }
                        assert(events.take(done + 1) =~= events.take(done).push(event));
                        views_of_push(pending, self.pending@.last());
                        assert(self.pending@ =~= pending.push(self.pending@.last()));
                        assert(views(self.pending@) =~= old_pending + event_texts(
                            events.take(done + 1),
                        ));
                        done = done + 1;
                    }
                },
            }
        }
        assert(self@ =~= old(self)@.pushed(Seq::empty()));
    }

    /// The data of the next event that has data; the events before it are dropped.
    pub fn next_data(&mut self) -> (data: Result<Option<String>>)
        ensures
            data is Ok,
            opt_view(data->Ok_0) == next_payload(old(self)@.pending).0,
            final(self)@ == (SseDecoderView {
                pending: next_payload(old(self)@.pending).1,
                ..old(self)@
            }),
    {
        loop
            invariant
                self@.buffer == old(self)@.buffer,
                next_payload(self@.pending) == next_payload(old(self)@.pending),
            decreases self@.pending.len(),
        {
            let ghost pending = self.pending@;
            match self.pending.pop_front() {
                None => {
                    return Ok(None);
                },
                Some(raw) => {
                    proof {
                        assert(views(pending)[0] == raw@);
                        assert(views(self.pending@) =~= views(pending).drop_first());
                    }
                    match event_data(raw.as_str()) {
                        Ok(Some(data)) => {
                            return Ok(Some(data));
                        },
                        Ok(None) => {},
                        Err(error) => {
                            return Err(error);
                        },
                    }
                },
            }
        }
    }

    /// Whether an event has begun that is not complete.
    pub fn has_incomplete_event(&self) -> (incomplete: bool)
        ensures
            incomplete == (self@.buffer.len() > 0),
    {
        self.buffer.len() > 0
    }
}

/// The data of the first pending event that has data, and what is pending after it.
pub open spec fn next_payload(pending: Seq<Seq<char>>) -> (Option<Seq<char>>, Seq<Seq<char>>)
    decreases pending.len(),
{
    if pending.len() == 0 {
        (None, pending)
    } else if payload(pending[0]) is Some {
        (payload(pending[0]), pending.drop_first())
    } else {
        next_payload(pending.drop_first())
    }
}

/// `line` without a carriage return at its end.
pub open spec fn without_cr(line: Seq<char>) -> Seq<char> {
    if line.len() > 0 && line.last() == '\r' {
        line.drop_last()
    } else {
        line
    }
}

/// The content of a line, which may end in a line feed: carriage returns at its end are not part
/// of it, one before the line feed and one more.
pub open spec fn line_content(line: Seq<char>) -> Seq<char> {
    if line.len() > 0 && line.last() == '\n' {
        without_cr(without_cr(line.drop_last()))
    } else {
        without_cr(line)
    }
}

/// The value of a line's `data` field: what follows the colon, without one space in front.
pub open spec fn data_value(line: Seq<char>) -> Option<Seq<char>> {
    if starts_with(line, "data:"@) {
        let value = line.skip(5);
        if value.len() > 0 && value[0] == ' ' {
            Some(value.skip(1))
        } else {
            Some(value)
        }
    } else {
        None
    }
}

/// The values of the `data` fields of the first lines.
pub open spec fn data_values(lines: Seq<Seq<char>>) -> Seq<Seq<char>>
    decreases lines.len(),
{
    if lines.len() == 0 {
        Seq::empty()
    } else {
        let values = data_values(lines.drop_last());
        match data_value(line_content(lines.last())) {
            Some(value) => values.push(value),
            None => values,
        }
    }
}

/// The data of an event: its `data` values, one per line; none where it has no such field.
pub open spec fn payload(raw: Seq<char>) -> Option<Seq<char>> {
    let values = data_values(fragments(raw, '\n'));
    if values.len() == 0 {
        None
    } else {
        Some(joined(values, "\n"@))
    }
}

/// The data of an event; lines that are empty or comments count for nothing.
pub fn event_data(raw: &str) -> (data: Result<Option<String>>)
    ensures
        data is Ok,
        opt_view(data->Ok_0) == payload(raw@),
{
    let lines = split_inclusive(raw, '\n');
    let mut values: Vec<String> = Vec::new();
    let mut i: usize = 0;
    let ghost all = views(lines@);
    assert(views(values@) =~= data_values(all.take(0)));
    while i < lines.len()
        invariant
            i <= lines@.len(),
            all == views(lines@),
            views(values@) == data_values(all.take(i as int)),
        decreases lines@.len() - i,
    {
        let ghost before = values@;
        proof {
            assert(all.take(i + 1).drop_last() =~= all.take(i as int));
            assert(all.take(i + 1).last() == lines@[i as int]@);
        }
        match line_data(lines[i].as_str()) {
            Some(value) => {
                values.push(value);
                proof {
                    views_of_push(before, values@.last());
                }
            },
            None => {},
        }
        i = i + 1;
    }
    assert(all.take(i as int) =~= all);
    if values.len() == 0 {
        Ok(None)
    } else {
        Ok(Some(join(&values, "\n")))
    }
}

/// The `data` value of one line.
fn line_data(line: &str) -> (value: Option<String>)
    ensures
        opt_view(value) == data_value(line_content(line@)),
{
    let chars = chars_of(line);
    let mut end: usize = chars.len();
    if end > 0 && chars[end - 1] == '\n' {
        end = end - 1;
        if end > 0 && chars[end - 1] == '\r' {
            end = end - 1;
        }
    }
    if end > 0 && chars[end - 1] == '\r' {
        end = end - 1;
    }
    let ghost content = line_content(line@);
    proof {
        assert(content =~= chars@.take(end as int));
        reveal_strlit("data:");
        let name = "data:"@;
        assert(starts_with(content, name) <==> end >= 5 && content[0] == 'd' && content[1] == 'a'
            && content[2] == 't' && content[3] == 'a' && content[4] == ':') by {
            if end >= 5 && content[0] == 'd' && content[1] == 'a' && content[2] == 't' && content[3]
                == 'a' && content[4] == ':' {
                assert(content.take(5) =~= name);
            }
            if starts_with(content, name) {
                assert(content.take(5)[0] == name[0] && content.take(5)[1] == name[1]
                    && content.take(5)[2] == name[2] && content.take(5)[3] == name[3]
                    && content.take(5)[4] == name[4]);
            }
        }
    }
    if end >= 5 && chars[0] == 'd' && chars[1] == 'a' && chars[2] == 't' && chars[3] == 'a'
        && chars[4] == ':' {
        let mut start: usize = 5;
        if end > 5 && chars[5] == ' ' {
            start = 6;
        }
        let value = text_of(&chars, start, end);
        assert(start == 5 ==> value@ =~= content.skip(5));
        assert(start == 6 ==> value@ =~= content.skip(5).skip(1));
        Some(value)
    } else {
        None
    }
}

/// One chunk of a streamed chat completion.
#[derive(Debug)]
pub struct OpenAiStreamChunk {
    pub choices: Vec<OpenAiChoice>,
}

/// One choice of a chunk.
#[derive(Debug)]
pub struct OpenAiChoice {
    pub content: Option<String>,
    pub finished: bool,
}

#[verifier::ext_equal]
pub struct OpenAiChoiceView {
    pub content: Option<Seq<char>>,
    pub finished: bool,
}

impl View for OpenAiChoice {
    type V = OpenAiChoiceView;

    open spec fn view(&self) -> OpenAiChoiceView {
        OpenAiChoiceView { content: opt_view(self.content), finished: self.finished }
    }
}

/// What a chunk of the stream comes to.
#[derive(Debug)]
pub enum ParsedOpenAiEvent {
    Token(String),
    Done,
    Ignored,
}

pub enum ParsedOpenAiEventView {
    Token(Seq<char>),
    Done,
    Ignored,
}

impl View for ParsedOpenAiEvent {
    type V = ParsedOpenAiEventView;

    open spec fn view(&self) -> ParsedOpenAiEventView {
        match self {
            ParsedOpenAiEvent::Token(text) => ParsedOpenAiEventView::Token(text@),
            ParsedOpenAiEvent::Done => ParsedOpenAiEventView::Done,
            ParsedOpenAiEvent::Ignored => ParsedOpenAiEventView::Ignored,
        }
    }
}

/// What the choices of a chunk come to: only the first one counts. A content that is not empty is
/// a token; without one, a finish reason ends the answer.
pub open spec fn parsed_choices(choices: Seq<OpenAiChoiceView>) -> ParsedOpenAiEventView {
    if choices.len() == 0 {
        ParsedOpenAiEventView::Ignored
    } else {
        match choices[0].content {
            Some(content) if content.len() > 0 => ParsedOpenAiEventView::Token(content),
            _ => if choices[0].finished {
                ParsedOpenAiEventView::Done
            } else {
                ParsedOpenAiEventView::Ignored
            },
        }
    }
}

/// What one payload of the stream comes to, `chunk` being what it reads as in JSON, or what is
/// wrong with it.
pub open spec fn parsed_event(
    data: Seq<char>,
    chunk: std::result::Result<Seq<OpenAiChoiceView>, Seq<char>>,
) -> std::result::Result<ParsedOpenAiEventView, LlmErrorView> {
    if data == "[DONE]"@ {
        Ok(ParsedOpenAiEventView::Done)
    } else {
        match chunk {
            Ok(choices) => Ok(parsed_choices(choices)),
            Err(message) => Err(
                LlmErrorView::MalformedSse {
                    message: "invalid OpenAI-compatible JSON event: "@ + message + "; data="@
                        + debug_form(data),
                },
            ),
        }
    }
}

/// The view of what a payload reads as.
pub open spec fn chunk_view(
    chunk: std::result::Result<OpenAiStreamChunk, String>,
) -> std::result::Result<Seq<OpenAiChoiceView>, Seq<char>> {
    match chunk {
        Ok(chunk) => Ok(views(chunk.choices@)),
        Err(message) => Err(message@),
    }
}

/// The view of a parsed event or of its error.
pub open spec fn parsed_view(
    parsed: Result<ParsedOpenAiEvent>,
) -> std::result::Result<ParsedOpenAiEventView, LlmErrorView> {
    match parsed {
        Ok(event) => Ok(event@),
        Err(error) => Err(error@),
    }
}

/// What one payload of the stream comes to, `chunk` being what it reads as in JSON, or what is
/// wrong with it.
pub fn parse_openai_event(
    data: &str,
    chunk: std::result::Result<OpenAiStreamChunk, String>,
) -> (event: Result<ParsedOpenAiEvent>)
    ensures
        parsed_view(event) == parsed_event(data@, chunk_view(chunk)),
{
    if text_eq(data, "[DONE]") {
        return Ok(ParsedOpenAiEvent::Done);
    }
    match chunk {
        Err(message) => {
            let text = "invalid OpenAI-compatible JSON event: ".to_owned().concat(
                message.as_str(),
            ).concat("; data=").concat(debug_text(data).as_str());
            Err(LlmError::MalformedSse { message: text })
        },
        Ok(chunk) => {
            let mut choices = chunk.choices;
            if choices.len() == 0 {
                return Ok(ParsedOpenAiEvent::Ignored);
            }
            let ghost first = views(choices@)[0];
            let choice = choices.swap_remove(0);
            assert(first == choice@);
            match choice.content {
                Some(content) => {
                    if !content.as_str().is_empty() {
                        return Ok(ParsedOpenAiEvent::Token(content));
                    }
                },
                None => {},
            }
            if choice.finished {
                Ok(ParsedOpenAiEvent::Done)
            } else {
                Ok(ParsedOpenAiEvent::Ignored)
            }
        },
    }
}

/// Reads a provider's answer: bytes in, token events out.
#[derive(Debug)]
pub struct OpenAiStream {
    decoder: SseDecoder,
    first_token_recorded: bool,
}

#[verifier::ext_equal]
pub struct OpenAiStreamView {
    pub decoder: SseDecoderView,
    pub first_token_recorded: bool,
}

impl View for OpenAiStream {
    type V = OpenAiStreamView;

    closed spec fn view(&self) -> OpenAiStreamView {
        OpenAiStreamView {
            decoder: self.decoder@,
            first_token_recorded: self.first_token_recorded,
        }
    }
}

/// What the stream needs next.
#[derive(Debug)]
pub enum StreamNeed {
    /// The chunk that this payload reads as.
    Chunk(String),
    /// More bytes.
    Bytes,
}

/// What to do after a payload.
#[derive(Debug)]
pub enum StreamStep {
    /// Hand the token on, and record the latency where it is the first one.
    Token { event: TokenEvent, first: bool },
    /// Hand the end on and stop.
    Finish { event: TokenEvent },
    /// Nothing.
    Skip,
}

pub enum StreamStepView {
    Token { event: TokenEventView, first: bool },
    Finish { event: TokenEventView },
    Skip,
}

impl View for StreamStep {
    type V = StreamStepView;

    open spec fn view(&self) -> StreamStepView {
        match self {
            StreamStep::Token { event, first } => StreamStepView::Token {
                event: event@,
                first: *first,
            },
            StreamStep::Finish { event } => StreamStepView::Finish { event: event@ },
            StreamStep::Skip => StreamStepView::Skip,
        }
    }
}

/// One read of the answer's body.
#[derive(Debug)]
pub enum StreamRead {
    Bytes(Vec<u8>),
    Failed { timed_out: bool, message: String },
    End,
}

impl OpenAiStreamView {
    /// What a parsed payload comes to.
    pub open spec fn step(self, event: ParsedOpenAiEventView) -> StreamStepView {
        match event {
            ParsedOpenAiEventView::Token(text) => StreamStepView::Token {
                event: TokenEventView::Token { text },
                first: !self.first_token_recorded,
            },
            ParsedOpenAiEventView::Done => StreamStepView::Finish { event: TokenEventView::Done },
            ParsedOpenAiEventView::Ignored => StreamStepView::Skip,
        }
    }

    /// Whether the stream goes on after a read, or the error of one that failed or that ends within
    /// an event.
    pub open spec fn goes_on_after(self, read: StreamRead) -> std::result::Result<
        bool,
        LlmErrorView,
    > {
        match read {
            StreamRead::Bytes(_) => Ok(true),
            StreamRead::Failed { timed_out, message } => Err(
                if timed_out {
                    LlmErrorView::ProviderTimeout
                } else {
                    LlmErrorView::ProviderRequest(message@)
                },
            ),
            StreamRead::End => if self.decoder.buffer.len() > 0 {
                Err(LlmErrorView::IncompleteSseEvent)
            } else {
                Ok(false)
            },
        }
    }

    /// The stream after the payload `data`, `chunk` being what it reads as.
    pub open spec fn fed(
        self,
        data: Seq<char>,
        chunk: std::result::Result<Seq<OpenAiChoiceView>, Seq<char>>,
    ) -> OpenAiStreamView {
        match parsed_event(data, chunk) {
            Ok(ParsedOpenAiEventView::Token(_)) => OpenAiStreamView {
                first_token_recorded: true,
                ..self
            },
            _ => self,
        }
    }
}

impl OpenAiStream {
    pub fn new() -> (stream: OpenAiStream)
        ensures
            stream@ == (OpenAiStreamView {
                decoder: SseDecoderView::empty(),
                first_token_recorded: false,
            }),
    {
        OpenAiStream { decoder: SseDecoder::new(), first_token_recorded: false }
    }

    /// The next payload to read as a chunk; where none is pending, bytes are needed.
    pub fn next(&mut self) -> (need: Result<StreamNeed>)
        ensures
            need is Ok,
            need->Ok_0 matches StreamNeed::Chunk(data) ==> next_payload(old(self)@.decoder.pending).0
                == Some(data@),
            need->Ok_0 is Bytes <==> next_payload(old(self)@.decoder.pending).0 is None,
            final(self)@ == (OpenAiStreamView {
                decoder: SseDecoderView {
                    pending: next_payload(old(self)@.decoder.pending).1,
                    ..old(self)@.decoder
                },
                ..old(self)@
            }),
    {
        match self.decoder.next_data() {
            Ok(Some(data)) => Ok(StreamNeed::Chunk(data)),
            Ok(None) => Ok(StreamNeed::Bytes),
            Err(error) => Err(error),
        }
    }

    /// What to do after the payload `data`, `chunk` being what it reads as.
    pub fn on_chunk(
        &mut self,
        data: &str,
        chunk: std::result::Result<OpenAiStreamChunk, String>,
    ) -> (step: Result<StreamStep>)
        ensures
            final(self)@ == old(self)@.fed(data@, chunk_view(chunk)),
            final(self)@.decoder == old(self)@.decoder,
            match parsed_event(data@, chunk_view(chunk)) {
                Ok(event) => {
                    &&& step is Ok
                    &&& step->Ok_0@ == old(self)@.step(event)
                    &&& final(self)@.first_token_recorded == (old(self)@.first_token_recorded
                        || event is Token)
                },
                Err(error) => {
                    &&& step is Err
                    &&& step->Err_0@ == error
                    &&& final(self)@.first_token_recorded == old(self)@.first_token_recorded
                },
            },
    {
        match parse_openai_event(data, chunk) {
            Err(error) => Err(error),
            Ok(ParsedOpenAiEvent::Token(text)) => {
                let first = !self.first_token_recorded;
                self.first_token_recorded = true;
                Ok(StreamStep::Token { event: TokenEvent::Token { text }, first })
            },
            Ok(ParsedOpenAiEvent::Done) => Ok(StreamStep::Finish { event: TokenEvent::Done }),
            Ok(ParsedOpenAiEvent::Ignored) => Ok(StreamStep::Skip),
        }
    }

    /// Takes one read in: `true` where the stream goes on. A stream that ends within an event is
    /// an error.
    pub fn on_read(&mut self, read: StreamRead) -> (goes_on: Result<bool>)
        ensures
            final(self)@ == (match read {
                StreamRead::Bytes(bytes) => OpenAiStreamView {
                    decoder: old(self)@.decoder.pushed(bytes@),
                    ..old(self)@
                },
                _ => old(self)@,
            }),
            match old(self)@.goes_on_after(read) {
                Ok(more) => goes_on == Result::<bool>::Ok(more),
                Err(error) => goes_on is Err && goes_on->Err_0@ == error,
            },
            read matches StreamRead::Bytes(bytes) ==> forall|i: int|
                0 <= i < completed(old(self)@.decoder.buffer + bytes@).0.len() ==> reads_as_text(
                    #[trigger] completed(old(self)@.decoder.buffer + bytes@).0[i],
                ),
            match read {
                StreamRead::Bytes(_) => goes_on == Result::<bool>::Ok(true),
                StreamRead::Failed { timed_out, message } => goes_on is Err && goes_on->Err_0@ == (
                if timed_out {
                    LlmErrorView::ProviderTimeout
                } else {
                    LlmErrorView::ProviderRequest(message@)
                }),
                StreamRead::End => if old(self)@.decoder.buffer.len() > 0 {
                    goes_on is Err && goes_on->Err_0@ == LlmErrorView::IncompleteSseEvent
                } else {
                    goes_on == Result::<bool>::Ok(false)
                },
            },
    {
        match read {
            StreamRead::Bytes(bytes) => {
                self.decoder.push(bytes.as_slice());
                Ok(true)
            },
            StreamRead::Failed { timed_out, message } => Err(map_reqwest_error(timed_out, message)),
            StreamRead::End => {
                if self.decoder.has_incomplete_event() {
                    Err(LlmError::IncompleteSseEvent)
                } else {
                    Ok(false)
                }
            },
        }
    }
}

/// The data of all pending events, in order.
pub open spec fn payloads(pending: Seq<Seq<char>>) -> Seq<Seq<char>>
    decreases pending.len(),
{
    if pending.len() == 0 {
        Seq::empty()
    } else {
        let before = payloads(pending.drop_last());
        match payload(pending.last()) {
            Some(data) => before.push(data),
            None => before,
        }
    }
}

proof fn payloads_of_sum(a: Seq<Seq<char>>, b: Seq<Seq<char>>)
    ensures
        payloads(a + b) == payloads(a) + payloads(b),
    decreases b.len(),
{
    if b.len() == 0 {
        assert(a + b =~= a);
        assert(payloads(a) + payloads(b) =~= payloads(a));
    } else {
        payloads_of_sum(a, b.drop_last());
        assert((a + b).drop_last() =~= a + b.drop_last());
        assert((a + b).last() == b.last());
        assert(payloads(a + b) =~= payloads(a) + payloads(b));
    }
}

/// Payloads are taken in order and none is lost: the next payload and those of what is pending
/// after it are all the payloads of what was pending.
pub proof fn payloads_are_taken_in_order(pending: Seq<Seq<char>>)
    ensures
        match next_payload(pending) {
            (Some(data), rest) => payloads(pending) == seq![data] + payloads(rest),
            (None, rest) => payloads(pending) == Seq::<Seq<char>>::empty() && rest.len() == 0,
        },
    decreases pending.len(),
{
    if pending.len() > 0 {
        let head = seq![pending[0]];
        let tail = pending.drop_first();
        assert(pending =~= head + tail);
        payloads_of_sum(head, tail);
        assert(head.drop_last() =~= Seq::<Seq<char>>::empty());
        assert(payloads(head.drop_last()) =~= Seq::<Seq<char>>::empty());
        match payload(pending[0]) {
            Some(data) => {
                assert(payloads(head) =~= seq![data]);
            },
            None => {
                assert(payloads(head) =~= Seq::<Seq<char>>::empty());
                payloads_are_taken_in_order(tail);
                assert(payloads(pending) =~= payloads(tail));
            },
        }
    }
}

/// The payloads that a stream gives when after each read all that is pending is taken.
pub open spec fn payloads_of_reads(decoder: SseDecoderView, reads: Seq<Seq<u8>>) -> Seq<Seq<char>>
    decreases reads.len(),
{
    if reads.len() == 0 {
        Seq::empty()
    } else {
        let pushed = decoder.pushed(reads[0]);
        payloads(pushed.pending) + payloads_of_reads(
            SseDecoderView { buffer: pushed.buffer, pending: Seq::empty() },
            reads.drop_first(),
        )
    }
}

/// The payloads of a stream depend on its bytes alone, not on how the network cut them into reads.
pub proof fn payloads_are_independent_of_reads(decoder: SseDecoderView, reads: Seq<Seq<u8>>)
    requires
        boundary_from(decoder.buffer, 0) is None,
        decoder.pending.len() == 0,
    ensures
        payloads_of_reads(decoder, reads) == payloads(
            event_texts(completed(decoder.buffer + concatenated(reads)).0),
        ),
    decreases reads.len(),
{
    if reads.len() == 0 {
        assert(decoder.buffer + concatenated(reads) =~= decoder.buffer);
        assert(event_texts(completed(decoder.buffer).0) =~= Seq::<Seq<char>>::empty());
    } else {
        let first = decoder.buffer + reads[0];
        let later = concatenated(reads.drop_first());
        let pushed = decoder.pushed(reads[0]);
        let next = SseDecoderView { buffer: pushed.buffer, pending: Seq::empty() };
        completed_leaves_no_event(first);
        payloads_are_independent_of_reads(next, reads.drop_first());
        completed_is_independent_of_reads(first, later);
        assert(decoder.buffer + concatenated(reads) =~= first + later);
        let head = completed(first).0;
        let tail = completed(completed(first).1 + later).0;
        assert(event_texts(head + tail) =~= event_texts(head) + event_texts(tail));
        payloads_of_sum(event_texts(head), event_texts(tail));
        assert(pushed.pending =~= event_texts(head));
    }
}

/// A payload of the stream, and what it reads as in JSON, or what is wrong with it.
pub struct PayloadRead {
    pub data: Seq<char>,
    pub chunk: std::result::Result<Seq<OpenAiChoiceView>, Seq<char>>,
}

impl PayloadRead {
    /// The text that the payload adds to the answer: the content of its first choice. A payload
    /// that is the end mark, is unreadable, or has no such content adds none.
    pub open spec fn content(self) -> Seq<char> {
        match self.chunk {
            Ok(choices) => if self.data != "[DONE]"@ && choices.len() > 0 && choices[0].content
                is Some {
                choices[0].content->0
            } else {
                Seq::empty()
            },
            Err(_) => Seq::empty(),
        }
    }

    /// Whether the answer ends with the payload: it is the end mark, or its first choice is
    /// finished and adds no text.
    pub open spec fn ends(self) -> bool {
        self.data == "[DONE]"@ || (self.chunk matches Ok(choices) && choices.len() > 0
            && choices[0].finished && self.content().len() == 0)
    }

    /// Whether the payload is neither the end mark nor a chunk.
    pub open spec fn unreadable(self) -> bool {
        self.data != "[DONE]"@ && self.chunk is Err
    }

    /// The error of a payload that is unreadable: what is wrong with it, and its data.
    pub open spec fn fault(self) -> LlmErrorView {
        LlmErrorView::MalformedSse {
            message: "invalid OpenAI-compatible JSON event: "@ + self.chunk->Err_0 + "; data="@
                + debug_form(self.data),
        }
    }
}

/// Whether an answer goes on after these payloads: none of them ends it, and none is unreadable.
pub open spec fn goes_on(payloads: Seq<PayloadRead>) -> bool {
    forall|i: int|
        0 <= i < payloads.len() ==> !(#[trigger] payloads[i]).ends() && !payloads[i].unreadable()
}

/// All that payloads add to the answer.
pub open spec fn contents(payloads: Seq<PayloadRead>) -> Seq<char>
    decreases payloads.len(),
{
    if payloads.len() == 0 {
        Seq::empty()
    } else {
        contents(payloads.drop_last()) + payloads.last().content()
    }
}

/// An answer up to some point: the stream, the text of all tokens so far, their number, the number
/// of those that were the first one, and the result where it is over.
#[verifier::ext_equal]
pub struct AnswerRun {
    pub stream: OpenAiStreamView,
    pub text: Seq<char>,
    pub tokens: nat,
    pub first_tokens: nat,
    pub result: Option<std::result::Result<TokenEventView, LlmErrorView>>,
}

/// The answer after some payloads; after its end none is taken.
pub open spec fn answer_run(payloads: Seq<PayloadRead>) -> AnswerRun
    decreases payloads.len(),
{
    if payloads.len() == 0 {
        AnswerRun {
            stream: OpenAiStreamView {
                decoder: SseDecoderView::empty(),
                first_token_recorded: false,
            },
            text: Seq::empty(),
            tokens: 0,
            first_tokens: 0,
            result: None,
        }
    } else {
        let run = answer_run(payloads.drop_last());
        let payload = payloads.last();
        if run.result is Some {
            run
        } else {
            let stream = run.stream.fed(payload.data, payload.chunk);
            match parsed_event(payload.data, payload.chunk) {
                Ok(event) => match run.stream.step(event) {
                    StreamStepView::Token { event, first } => AnswerRun {
                        stream,
                        text: run.text + token_text(event),
                        tokens: run.tokens + 1,
                        first_tokens: if first {
                            run.first_tokens + 1
                        } else {
                            run.first_tokens
                        },
                        ..run
                    },
                    StreamStepView::Finish { event } => AnswerRun {
                        stream,
                        result: Some(Ok(event)),
                        ..run
                    },
                    StreamStepView::Skip => AnswerRun { stream, ..run },
                },
                Err(error) => AnswerRun { stream, result: Some(Err(error)), ..run },
            }
        }
    }
}

/// The text of a token.
pub open spec fn token_text(event: TokenEventView) -> Seq<char> {
    match event {
        TokenEventView::Token { text } => text,
        _ => Seq::empty(),
    }
}

/// A chunk whose first choice has a content is a token with exactly that content, whatever its
/// characters and whether or not the choice is finished; without one it is no token. The other
/// choices do not count.
pub proof fn contents_are_tokens(payload: PayloadRead)
    requires
        payload.data != "[DONE]"@,
        payload.chunk is Ok,
    ensures
        ({
            let event = parsed_event(payload.data, payload.chunk);
            let choices = payload.chunk->Ok_0;
            &&& event is Ok
            &&& payload.content().len() > 0 ==> event->Ok_0 == ParsedOpenAiEventView::Token(
                payload.content(),
            )
            &&& event->Ok_0 is Token ==> payload.content().len() > 0
            &&& event->Ok_0 is Done <==> choices.len() > 0 && choices[0].finished
                && payload.content().len() == 0
            &&& choices.len() > 0 ==> event == parsed_event(payload.data, Ok(seq![choices[0]]))
        }),
{
    if payload.chunk->Ok_0.len() > 0 {
        let first = payload.chunk->Ok_0[0];
        assert(seq![first][0] == first);
    }
}

/// The text of all tokens of an answer is that of the contents of its payloads up to the end, in
/// order. It is over exactly with the first payload that ends it or is unreadable, and the tokens
/// hold one that is the first where there are any.
pub proof fn an_answer_is_all_contents(payloads: Seq<PayloadRead>)
    ensures
        ({
            let run = answer_run(payloads);
            &&& run.result is None <==> goes_on(payloads)
            &&& run.result is None ==> run.text == contents(payloads)
            &&& run.first_tokens == if run.tokens > 0 {
                1nat
            } else {
                0nat
            }
            &&& run.stream.first_token_recorded <==> run.tokens > 0
            &&& forall|n: int|
                #![trigger payloads.take(n)]
                0 <= n < payloads.len() && goes_on(payloads.take(n)) && !goes_on(
                    payloads.take(n + 1),
                ) ==> {
                    &&& run.text == contents(payloads.take(n))
                    &&& payloads[n].ends() ==> run.result == Some(
                        Ok::<TokenEventView, LlmErrorView>(TokenEventView::Done),
                    )
                    &&& payloads[n].unreadable() ==> run.result is Some && run.result->0 is Err
                        && run.result->0->Err_0 == payloads[n].fault()
                }
        }),
    decreases payloads.len(),
{
    let run = answer_run(payloads);
    if payloads.len() > 0 {
        let rest = payloads.drop_last();
        let payload = payloads.last();
        let before = answer_run(rest);
        an_answer_is_all_contents(rest);
        assert(goes_on(payloads) <==> goes_on(rest) && !payload.ends() && !payload.unreadable())
            by {
            if goes_on(payloads) {
                assert forall|i: int| 0 <= i < rest.len() implies !(#[trigger] rest[i]).ends()
                    && !rest[i].unreadable() by {
                    assert(!payloads[i].ends());
                }
                assert(!payloads[payloads.len() - 1].ends());
            }
            if goes_on(rest) && !payload.ends() && !payload.unreadable() {
                assert forall|i: int| 0 <= i < payloads.len() implies !(
                #[trigger] payloads[i]).ends() && !payloads[i].unreadable() by {
                    if i < rest.len() {
                        assert(!rest[i].ends());
                    }
                }
            }
        }
        if payload.content().len() == 0 {
            assert(contents(rest) + payload.content() =~= contents(rest));
        }
        assert forall|n: int|
            #![trigger payloads.take(n)]
            0 <= n < payloads.len() && goes_on(payloads.take(n)) && !goes_on(
                payloads.take(n + 1),
            ) implies {
            &&& run.text == contents(payloads.take(n))
            &&& payloads[n].ends() ==> run.result == Some(
                Ok::<TokenEventView, LlmErrorView>(TokenEventView::Done),
            )
            &&& payloads[n].unreadable() ==> run.result is Some && run.result->0 is Err
                && run.result->0->Err_0 == payloads[n].fault()
        } by {
            if n < rest.len() {
                assert(payloads.take(n) =~= rest.take(n));
                assert(payloads.take(n + 1) =~= rest.take(n + 1));
                let bad = choose|i: int|
                    0 <= i < rest.take(n + 1).len() && ((#[trigger] rest.take(n + 1)[i]).ends()
                        || rest.take(n + 1)[i].unreadable());
                assert(rest[bad] == rest.take(n + 1)[bad]);
                assert(!goes_on(rest));
            } else {
                assert(payloads.take(n) =~= rest);
                assert(payloads.take(n + 1) =~= payloads);
            }
        }
    }
}

/// A blank line, which ends an event: two line feeds, or two pairs of carriage return and line feed.
pub open spec fn blank_line(crlf: bool) -> Seq<u8> {
    if crlf {
        seq![13u8, 10u8, 13u8, 10u8]
    } else {
        seq![10u8, 10u8]
    }
}

/// Events as they are sent: the bytes of each, and the blank line that ends it.
pub open spec fn sent_events(events: Seq<(Seq<u8>, bool)>) -> Seq<u8>
    decreases events.len(),
{
    if events.len() == 0 {
        Seq::empty()
    } else {
        events[0].0 + blank_line(events[0].1) + sent_events(events.drop_first())
    }
}

/// Whether no blank line begins within an event that is ended so.
pub open spec fn unbroken(event: (Seq<u8>, bool)) -> bool {
    let sent = event.0 + blank_line(event.1);
    forall|i: int|
        0 <= i < event.0.len() ==> !#[trigger] blank_line_at(sent, i) && !crlf_blank_line_at(sent, i)
}

/// Events that are sent are found again, each as it was, in order and to the last one; and bytes
/// after them in which there is no blank line are kept for what follows.
pub proof fn sent_events_are_found_again(events: Seq<(Seq<u8>, bool)>, rest: Seq<u8>)
    requires
        forall|i: int| 0 <= i < events.len() ==> unbroken(#[trigger] events[i]),
        forall|i: int|
            0 <= i < rest.len() ==> !#[trigger] blank_line_at(rest, i) && !crlf_blank_line_at(rest, i),
    ensures
        completed(sent_events(events) + rest).0 == events.map_values(
            |event: (Seq<u8>, bool)| event.0,
        ),
        completed(sent_events(events) + rest).1 == rest,
    decreases events.len(),
{
    let bytes = |event: (Seq<u8>, bool)| event.0;
    let all = sent_events(events) + rest;
    if events.len() == 0 {
        assert(all =~= rest);
        boundary_from_is_first(rest, 0);
        if boundary_from(rest, 0) is Some {
            let (end, _) = boundary_from(rest, 0).unwrap();
            assert(!blank_line_at(rest, end));
        }
        assert(events.map_values(bytes) =~= Seq::empty());
    } else {
        let (event, crlf) = events[0];
        let end = event.len() as int;
        let head = event + blank_line(crlf);
        let later = sent_events(events.drop_first()) + rest;
        assert(unbroken(events[0]));
        assert(all =~= head + later);
        boundary_from_is_first(head, 0);
        assert(crlf ==> crlf_blank_line_at(head, end) && !blank_line_at(head, end));
        assert(!crlf ==> blank_line_at(head, end));
        if boundary_from(head, 0) is Some {
            let (found, _) = boundary_from(head, 0).unwrap();
            if found < end {
                assert(!blank_line_at(head, found));
            }
            assert(found >= end);
            if found > end {
                assert(!blank_line_at(head, end));
            }
        }
        assert(boundary_from(head, 0) == Some((end, blank_line(crlf).len() as int)));
        boundary_survives_more_bytes(head, later, 0);
        assert(all.skip(head.len() as int) =~= later);
        assert(all.take(end) =~= event);
        assert forall|i: int| 0 <= i < events.drop_first().len() implies unbroken(
            #[trigger] events.drop_first()[i],
        ) by {
            assert(unbroken(events[i + 1]));
        }
        sent_events_are_found_again(events.drop_first(), rest);
        assert(events.map_values(bytes) =~= seq![event] + events.drop_first().map_values(bytes));
    }
}

/// A line of an event: a value of its data, with or without a space before it, or another line.
pub enum EventLine {
    Data(Seq<char>),
    BareData(Seq<char>),
    Other(Seq<char>),
}

impl EventLine {
    /// The line as it is sent, without its end.
    pub open spec fn sent(self) -> Seq<char> {
        match self {
            EventLine::Data(value) => "data: "@ + value,
            EventLine::BareData(value) => "data:"@ + value,
            EventLine::Other(line) => line,
        }
    }

    /// Whether it is one line, and of its kind.
    pub open spec fn fits(self) -> bool {
        &&& !self.sent().contains('\n')
        &&& self.sent().len() > 0 ==> self.sent().last() != '\r'
        &&& self matches EventLine::BareData(value) ==> value.len() > 0 ==> value[0] != ' '
        &&& self matches EventLine::Other(line) ==> !starts_with(line, "data:"@)
    }

    /// The values of data that it holds.
    pub open spec fn values(self) -> Seq<Seq<char>> {
        match self {
            EventLine::Data(value) | EventLine::BareData(value) => seq![value],
            EventLine::Other(_) => Seq::empty(),
        }
    }
}

/// The end of a line: a line feed, or a carriage return and a line feed.
pub open spec fn line_end(crlf: bool) -> Seq<char> {
    if crlf {
        seq!['\r', '\n']
    } else {
        seq!['\n']
    }
}

/// Lines as they are sent, each with its end.
pub open spec fn sent_lines(lines: Seq<(EventLine, bool)>) -> Seq<char>
    decreases lines.len(),
{
    if lines.len() == 0 {
        Seq::empty()
    } else {
        lines[0].0.sent() + line_end(lines[0].1) + sent_lines(lines.drop_first())
    }
}

/// All values of data in lines, in order.
pub open spec fn values_of(lines: Seq<(EventLine, bool)>) -> Seq<Seq<char>>
    decreases lines.len(),
{
    if lines.len() == 0 {
        Seq::empty()
    } else {
        lines[0].0.values() + values_of(lines.drop_first())
    }
}

proof fn data_values_of_sum(a: Seq<Seq<char>>, b: Seq<Seq<char>>)
    ensures
        data_values(a + b) == data_values(a) + data_values(b),
    decreases b.len(),
{
    if b.len() == 0 {
        assert(a + b =~= a);
        assert(data_values(a) + data_values(b) =~= data_values(a));
    } else {
        data_values_of_sum(a, b.drop_last());
        assert((a + b).drop_last() =~= a + b.drop_last());
        assert(data_values(a + b) =~= data_values(a) + data_values(b));
    }
}

proof fn a_line_is_the_first_fragment(line: Seq<char>, rest: Seq<char>)
    requires
        !line.contains('\n'),
    ensures
        fragments(line.push('\n') + rest, '\n') == seq![line.push('\n')] + fragments(rest, '\n'),
        fragment_len(line.push('\n') + rest, '\n') == line.len() + 1,
        fragment_len(line, '\n') == line.len(),
        line.len() > 0 ==> fragments(line, '\n') == seq![line],
    decreases line.len(),
{
    let all = line.push('\n') + rest;
    if line.len() == 0 {
        assert(all[0] == '\n');
    } else {
        assert(line.contains(line[0]));
        let tail = line.drop_first();
        assert(!tail.contains('\n')) by {
            if tail.contains('\n') {
                let i = choose|i: int| 0 <= i < tail.len() && tail[i] == '\n';
                assert(line[i + 1] == '\n');
            }
        }
        a_line_is_the_first_fragment(tail, rest);
        assert(all.drop_first() =~= tail.push('\n') + rest);
        assert(line.take(line.len() as int) =~= line);
        assert(line.skip(line.len() as int) =~= Seq::empty());
        assert(fragments(line.skip(line.len() as int), '\n') =~= Seq::empty());
        assert(fragments(line, '\n') =~= seq![line]);
    }
    assert(all.take(line.len() as int + 1) =~= line.push('\n'));
    assert(all.skip(line.len() as int + 1) =~= rest);
}

/// A line gives its values, however it ends, and also where it does not.
proof fn a_line_gives_its_values(line: EventLine, crlf: bool)
    requires
        line.fits(),
    ensures
        data_values(seq![line.sent() + line_end(crlf)]) == line.values(),
        data_values(seq![line.sent()]) == line.values(),
{
    let sent = line.sent();
    let text = sent + line_end(crlf);
    let ended = seq![text];
    let open = seq![sent];
    assert(ended.drop_last() =~= Seq::empty());
    assert(open.drop_last() =~= Seq::empty());
    if crlf {
        assert(text.drop_last().drop_last() =~= sent);
    } else {
        assert(text.drop_last() =~= sent);
    }
    assert(line_content(text) == sent);
    assert(line_content(sent) == sent) by {
        if sent.len() > 0 {
            assert(sent.contains(sent[sent.len() - 1]));
        }
    }
    reveal_strlit("data:");
    reveal_strlit("data: ");
    reveal_with_fuel(data_values, 2);
    match line {
        EventLine::Data(value) => {
            assert(sent.take(5) =~= "data:"@);
            assert(sent.skip(5)[0] == ' ');
            assert(sent.skip(5).skip(1) =~= value);
        },
        EventLine::BareData(value) => {
            assert(sent.take(5) =~= "data:"@);
            assert(sent.skip(5) =~= value);
        },
        EventLine::Other(_) => {},
    }
    assert(data_values(ended) =~= line.values());
    assert(data_values(open) =~= line.values());
}

/// The data of an event is the values of its data lines, in order and with a line feed between them,
/// each exactly as it was sent but for one space in front of it, however the lines end; other lines,
/// such as comments, count for nothing, wherever they stand. The last line of an event has no end.
pub proof fn data_is_read_as_it_was_sent(lines: Seq<(EventLine, bool)>, last: EventLine)
    requires
        forall|i: int| 0 <= i < lines.len() ==> (#[trigger] lines[i]).0.fits(),
        last.fits(),
    ensures
        ({
            let values = values_of(lines) + last.values();
            payload(sent_lines(lines) + last.sent()) == if values.len() > 0 {
                Some(joined(values, "\n"@))
            } else {
                None
            }
        }),
{
    lines_give_their_values(lines, last);
}

proof fn lines_give_their_values(lines: Seq<(EventLine, bool)>, last: EventLine)
    requires
        forall|i: int| 0 <= i < lines.len() ==> (#[trigger] lines[i]).0.fits(),
        last.fits(),
    ensures
        data_values(fragments(sent_lines(lines) + last.sent(), '\n')) == values_of(lines)
            + last.values(),
    decreases lines.len(),
{
    let all = sent_lines(lines) + last.sent();
    if lines.len() == 0 {
        assert(all =~= last.sent());
        a_line_gives_its_values(last, false);
        a_line_is_the_first_fragment(last.sent(), Seq::empty());
        if last.sent().len() == 0 {
            assert(fragments(all, '\n') =~= Seq::empty());
            reveal_strlit("data:");
            reveal_strlit("data: ");
            assert(last.values() =~= Seq::empty());
        }
        assert(values_of(lines) + last.values() =~= last.values());
    } else {
        let (first, crlf) = lines[0];
        let later = lines.drop_first();
        let rest = sent_lines(later) + last.sent();
        assert(lines[0].0.fits());
        assert forall|i: int| 0 <= i < later.len() implies (#[trigger] later[i]).0.fits() by {
            assert(lines[i + 1].0.fits());
        }
        lines_give_their_values(later, last);
        let line = if crlf {
            first.sent().push('\r')
        } else {
            first.sent()
        };
        assert(!line.contains('\n')) by {
            if line.contains('\n') {
                let i = choose|i: int| 0 <= i < line.len() && line[i] == '\n';
                assert(i < first.sent().len());
                assert(first.sent()[i] == '\n');
            }
        }
        assert(line.push('\n') =~= first.sent() + line_end(crlf));
        assert(all =~= line.push('\n') + rest);
        a_line_is_the_first_fragment(line, rest);
        data_values_of_sum(seq![line.push('\n')], fragments(rest, '\n'));
        a_line_gives_its_values(first, crlf);
        assert(values_of(lines) + last.values() =~= first.values() + (values_of(later)
            + last.values()));
    }
}

/// A request asks for a streamed answer to all messages of the conversation, in order, of the model
/// and with the key that are given, for as long as the request says, or where it does not as long as
/// is configured.
pub proof fn a_request_is_sent_as_it_was_made(
    config: OpenAiConfig,
    req: ChatRequest,
    http: HttpChatRequest,
)
    requires
        call_ensures(HttpChatRequest::new, (&config, req), http),
    ensures
        http.body.stream,
        http.body.model@ == req@.model,
        http.body.messages@.len() == req@.messages.len(),
        forall|i: int|
            0 <= i < req@.messages.len() ==> (#[trigger] http.body.messages@[i])@
                == req@.messages[i],
        http.api_key@ == config.api_key@,
        req@.timeout matches Some(timeout) ==> http.timeout == timeout,
        req@.timeout is None ==> http.timeout == config.timeout,
{
    assert forall|i: int| 0 <= i < req@.messages.len() implies (
    #[trigger] http.body.messages@[i])@ == req@.messages[i] by {
        assert(views(http.body.messages@)[i] == http.body.messages@[i]@);
    }
}

/// An answer may be read exactly where its status is one of success.
pub proof fn only_success_is_read(status: StatusCode, body: String, result: Result<()>)
    requires
        call_ensures(check_status, (status, body), result),
    ensures
        result is Ok <==> status@.code / 100 == 2,
        result is Err ==> result->Err_0@ == (LlmErrorView::HttpStatus {
            status: status@,
            body: body@,
        }),
{
}

/// A stream goes on with each read that gives bytes, and ends without an error exactly where nothing
/// more comes after a whole event: after events that were sent to their ends, and not where bytes of
/// another one follow them.
pub proof fn a_stream_ends_between_events(
    events: Seq<(Seq<u8>, bool)>,
    rest: Seq<u8>,
    read: StreamRead,
)
    requires
        forall|i: int| 0 <= i < events.len() ==> unbroken(#[trigger] events[i]),
        forall|i: int|
            0 <= i < rest.len() ==> !#[trigger] blank_line_at(rest, i) && !crlf_blank_line_at(
                rest,
                i,
            ),
    ensures
        ({
            let stream = OpenAiStreamView {
                decoder: SseDecoderView::empty().pushed(sent_events(events) + rest),
                first_token_recorded: false,
            };
            let goes_on = stream.goes_on_after(read);
            &&& read is Bytes <==> goes_on == std::result::Result::<bool, LlmErrorView>::Ok(true)
            &&& read is End && rest.len() == 0 ==> goes_on == std::result::Result::<
                bool,
                LlmErrorView,
            >::Ok(false)
            &&& read is End && rest.len() > 0 ==> goes_on is Err && goes_on->Err_0
                is IncompleteSseEvent
            &&& read is Failed ==> goes_on is Err && (goes_on->Err_0 is ProviderTimeout
                <==> read->timed_out)
            &&& stream.decoder.pending.len() == events.len()
        }),
{
    sent_events_are_found_again(events, rest);
    let bytes = sent_events(events) + rest;
    assert(SseDecoderView::empty().buffer + bytes =~= bytes);
}

/// Whatever is read from a payload other than the end mark, a first choice with a content that is not
/// empty makes it a token with exactly that content.
pub proof fn a_content_is_read_as_a_token(
    data: &str,
    chunk: std::result::Result<OpenAiStreamChunk, String>,
    event: Result<ParsedOpenAiEvent>,
)
    requires
        call_ensures(parse_openai_event, (data, chunk), event),
        data@ != "[DONE]"@,
        chunk is Ok,
        chunk->Ok_0.choices@.len() > 0,
        chunk->Ok_0.choices@[0].content is Some,
        chunk->Ok_0.choices@[0].content->0@.len() > 0,
    ensures
        event is Ok,
        event->Ok_0@ == ParsedOpenAiEventView::Token(chunk->Ok_0.choices@[0].content->0@),
{
    let choices = chunk->Ok_0.choices@;
    assert(views(choices)[0] == choices[0]@);
    contents_are_tokens(PayloadRead { data: data@, chunk: Ok(views(choices)) });
}

} // verus!
