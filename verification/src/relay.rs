//! The push-mode relays as state machines.
//!
//! A relay turns the outcomes of one upstream request into the events of the
//! local bus: `start`, then `chunk`s in arrival order, then exactly one of
//! `end`, `cancelled` and `error`. The caller performs the request, races each
//! read against cancellation, and publishes what the relay hands back.

use crate::payload::{classify_payload, payload_of, PayloadView, SsePayload};
use crate::request::{
    chunk_stream_mime, event_stream_mime, mime_for_chunk_stream, mime_for_event_stream,
    AudioFormat,
};
use crate::sse::{
    consume_leading_newlines, event_boundary, extract_sse_data, find_sse_event_boundary,
    is_line_break, leading_line_breaks, lemma_boundary_ignores_later_bytes,
    lemma_event_boundary_bounds, lemma_leading_line_breaks_before,
    lemma_leading_line_breaks_bound, sse_data,
};
use crate::text::utf8_lossy;
use crate::upstream::{
    describe_read_failure, describe_rejection, describe_unreachable, read_failure_message,
    rejection_message, unreachable_message, UpstreamPull, UpstreamResponse,
};
use base64::Engine;
use vstd::prelude::*;
use vstd::string::StringExecFns;

verus! {

/// The standard base64 encoding of `bytes`, with padding.
pub uninterp spec fn base64_standard(bytes: Seq<u8>) -> Seq<char>;

/// The encoding of `len` bytes, four characters for every three bytes begun,
/// still fits a buffer.
pub open spec fn encodable(len: nat) -> bool {
    4 * ((len + 2) / 3) <= isize::MAX
}

/// Whether a chunk of `len` bytes can be encoded.
pub fn can_encode(len: usize) -> (r: bool)
    ensures
        r == encodable(len as nat),
{
    let groups: usize = if len % 3 == 0 {
        len / 3
    } else {
        len / 3 + 1
    };
    groups <= (isize::MAX as usize) / 4
}

/// Calls `Engine::encode` of `base64` on its `STANDARD` engine. The text depends
/// on the bytes alone. The encoder panics where the length of its output cannot
/// be computed or allocated, which `requires` rules out.
#[verifier::external_body]
fn base64_encode(bytes: &[u8]) -> (text: String)
    requires
        encodable(bytes@.len()),
    ensures
        text@ == base64_standard(bytes@),
{
    base64::engine::general_purpose::STANDARD.encode(bytes)
}

/// One signal on the local event bus.
#[derive(Clone, Debug, PartialEq, Eq)]
pub enum RelayEvent {
    /// The upstream accepted the request; audio of this MIME type follows.
    Start { mime: String },
    /// A piece of audio, base64-encoded.
    Chunk { data: String },
    /// The stream ended normally.
    End,
    /// The stream was cancelled on request.
    Cancelled,
    /// The stream failed.
    Error { message: String },
}

/// [`RelayEvent`] with its text as sequences of characters.
pub enum RelayEventView {
    Start { mime: Seq<char> },
    Chunk { data: Seq<char> },
    End,
    Cancelled,
    Error { message: Seq<char> },
}

impl View for RelayEvent {
    type V = RelayEventView;

    open spec fn view(&self) -> RelayEventView {
        match self {
            RelayEvent::Start { mime } => RelayEventView::Start { mime: mime@ },
            RelayEvent::Chunk { data } => RelayEventView::Chunk { data: data@ },
            RelayEvent::End => RelayEventView::End,
            RelayEvent::Cancelled => RelayEventView::Cancelled,
            RelayEvent::Error { message } => RelayEventView::Error { message: message@ },
        }
    }
}

impl RelayEventView {
    /// The event closes the stream: nothing follows it.
    pub open spec fn is_terminal(self) -> bool {
        self is End || self is Cancelled || self is Error
    }
}

impl RelayEvent {
    /// The name under which the event is published.
    pub fn name(&self) -> (name: &'static str)
        ensures
            name@ == (match self@ {
                RelayEventView::Start { .. } => "tts:stream:start"@,
                RelayEventView::Chunk { .. } => "tts:stream:chunk"@,
                RelayEventView::End => "tts:stream:end"@,
                RelayEventView::Cancelled => "tts:stream:cancelled"@,
                RelayEventView::Error { .. } => "tts:stream:error"@,
            }),
    {
        match self {
            RelayEvent::Start { .. } => "tts:stream:start",
            RelayEvent::Chunk { .. } => "tts:stream:chunk",
            RelayEvent::End => "tts:stream:end",
            RelayEvent::Cancelled => "tts:stream:cancelled",
            RelayEvent::Error { .. } => "tts:stream:error",
        }
    }

    /// Whether the event closes the stream.
    pub fn is_terminal(&self) -> (r: bool)
        ensures
            r == self@.is_terminal(),
    {
        match self {
            RelayEvent::End => true,
            RelayEvent::Cancelled => true,
            RelayEvent::Error { .. } => true,
            _ => false,
        }
    }
}

/// The events of a list, each by its view.
pub open spec fn views(events: Seq<RelayEvent>) -> Seq<RelayEventView> {
    events.map_values(|e: RelayEvent| e@)
}

/// Where a relay stands.
#[derive(Clone, Copy, PartialEq, Eq, Structural, Debug)]
pub enum RelayPhase {
    /// The upstream request is under way; nothing was published yet.
    Connecting,
    /// `start` was published; pieces of the body are being relayed.
    Streaming,
    /// A terminal event was published, or the request failed.
    Finished,
}

/// The event that answers the outcome of the upstream request.
pub open spec fn response_event(mime: Seq<char>, response: UpstreamResponse) -> RelayEventView {
    match response {
        UpstreamResponse::Unreachable { reason } => RelayEventView::Error {
            message: unreachable_message(reason@),
        },
        UpstreamResponse::Rejected { status, body } => RelayEventView::Error {
            message: rejection_message(status, body@),
        },
        UpstreamResponse::Accepted => RelayEventView::Start { mime },
    }
}

/// The phase after the outcome of the upstream request.
pub open spec fn phase_after_response(response: UpstreamResponse) -> RelayPhase {
    if response is Accepted {
        RelayPhase::Streaming
    } else {
        RelayPhase::Finished
    }
}

fn answer(mime: &str, response: UpstreamResponse) -> (event: RelayEvent)
    ensures
        event@ == response_event(mime@, response),
{
    match response {
        UpstreamResponse::Unreachable { reason } => RelayEvent::Error {
            message: describe_unreachable(reason.as_str()),
        },
        UpstreamResponse::Rejected { status, body } => RelayEvent::Error {
            message: describe_rejection(status, body.as_str()),
        },
        UpstreamResponse::Accepted => RelayEvent::Start { mime: String::from_str(mime) },
    }
}

/// The event that a chunk relay publishes for one pull.
pub open spec fn chunk_pull_event(pull: UpstreamPull) -> RelayEventView {
    match pull {
        UpstreamPull::Cancelled => RelayEventView::Cancelled,
        UpstreamPull::Chunk(bytes) => RelayEventView::Chunk { data: base64_standard(bytes@) },
        UpstreamPull::Failed { reason } => RelayEventView::Error {
            message: read_failure_message(reason@),
        },
        UpstreamPull::Exhausted => RelayEventView::End,
    }
}

/// Relay for an endpoint that answers with raw audio bytes: each piece of
/// the body is published base64-encoded, as it arrived.
pub struct DirectRelay {
    phase: RelayPhase,
    format: AudioFormat,
}

impl DirectRelay {
    /// Where the relay stands.
    pub closed spec fn phase(&self) -> RelayPhase {
        self.phase
    }

    /// The container that was asked for.
    pub closed spec fn format(&self) -> AudioFormat {
        self.format
    }

    /// A relay for a request that was just sent.
    pub fn new(format: AudioFormat) -> (relay: Self)
        ensures
            relay.phase() == RelayPhase::Connecting,
            relay.format() == format,
    {
        DirectRelay { phase: RelayPhase::Connecting, format }
    }

    /// Where the relay stands.
    pub fn current_phase(&self) -> (phase: RelayPhase)
        ensures
            phase == self.phase(),
    {
        self.phase
    }

    /// Takes the outcome of the upstream request. A relay that is connecting
    /// publishes `start` or `error`; at any other time nothing happens.
    pub fn on_response(&mut self, response: UpstreamResponse) -> (event: Option<RelayEvent>)
        ensures
            final(self).format() == old(self).format(),
            old(self).phase() == RelayPhase::Connecting ==> {
                &&& event matches Some(e)
                &&& e@ == response_event(chunk_stream_mime(old(self).format()), response)
                &&& final(self).phase() == phase_after_response(response)
            },
            old(self).phase() != RelayPhase::Connecting ==> event is None && final(self).phase()
                == old(self).phase(),
    {
        if self.phase != RelayPhase::Connecting {
            return None;
        }
        self.phase = match response {
            UpstreamResponse::Accepted => RelayPhase::Streaming,
            _ => RelayPhase::Finished,
        };
        Some(answer(mime_for_chunk_stream(self.format), response))
    }

    /// Takes the outcome of one pull. A relay that is streaming publishes one
    /// event and goes on only after a chunk; at any other time nothing happens.
    pub fn on_pull(&mut self, pull: UpstreamPull) -> (event: Option<RelayEvent>)
        requires
            pull matches UpstreamPull::Chunk(bytes) ==> encodable(bytes@.len()),
        ensures
            final(self).format() == old(self).format(),
            old(self).phase() == RelayPhase::Streaming ==> {
                &&& event matches Some(e)
                &&& e@ == chunk_pull_event(pull)
                &&& final(self).phase() == (if pull is Chunk {
                    RelayPhase::Streaming
                } else {
                    RelayPhase::Finished
                })
            },
            old(self).phase() != RelayPhase::Streaming ==> event is None && final(self).phase()
                == old(self).phase(),
    {
        if self.phase != RelayPhase::Streaming {
            return None;
        }
        match pull {
            UpstreamPull::Cancelled => {
                self.phase = RelayPhase::Finished;
                Some(RelayEvent::Cancelled)
            },
            UpstreamPull::Chunk(bytes) => Some(
                RelayEvent::Chunk { data: base64_encode(bytes.as_slice()) },
            ),
            UpstreamPull::Failed { reason } => {
                self.phase = RelayPhase::Finished;
                Some(RelayEvent::Error { message: describe_read_failure(reason.as_str()) })
            },
            UpstreamPull::Exhausted => {
                self.phase = RelayPhase::Finished;
                Some(RelayEvent::End)
            },
        }
    }
}

/// What one event of the stream means: the meaning of its last `data:` line,
/// or nothing where it has none.
pub open spec fn event_payload(event: Seq<u8>) -> PayloadView {
    match sse_data(utf8_lossy(event)) {
        Some(data) => payload_of(data),
        None => PayloadView::Ignored,
    }
}

/// `buf` without its first event and without the line breaks that follow it.
pub open spec fn after_event(buf: Seq<u8>, boundary: int) -> Seq<u8> {
    let after = buf.skip(boundary);
    after.skip(leading_line_breaks(after) as int)
}

/// What draining a buffer yields.
pub struct Drained {
    /// The events to publish, in order.
    pub events: Seq<RelayEventView>,
    /// The bytes that stay buffered.
    pub rest: Seq<u8>,
    /// An event that ends the stream was met.
    pub finished: bool,
}

/// Carves complete events off the front of `buf`, one after the other, until
/// none is left or one of them ends the stream. Audio deltas become chunks; an
/// end marker becomes `end`, and the bytes behind it stay untouched.
pub open spec fn drain_events(buf: Seq<u8>) -> Drained
    decreases buf.len(),
{
    match event_boundary(buf) {
        None => Drained { events: Seq::empty(), rest: buf, finished: false },
        Some(boundary) => {
            proof {
                lemma_event_boundary_bounds(buf);
                lemma_leading_line_breaks_bound(buf.skip(boundary));
            }
            let rest = after_event(buf, boundary);
            match event_payload(buf.take(boundary)) {
                PayloadView::AudioDelta(data) => {
                    let later = drain_events(rest);
                    Drained {
                        events: seq![RelayEventView::Chunk { data }] + later.events,
                        rest: later.rest,
                        finished: later.finished,
                    }
                },
                PayloadView::Ignored => drain_events(rest),
                _ => Drained { events: seq![RelayEventView::End], rest, finished: true },
            }
        },
    }
}

/// Draining publishes audio chunks and nothing else, but for one `end` in the
/// last place, which stands there exactly where the stream is over.
pub proof fn lemma_drain_events_order(buf: Seq<u8>)
    ensures
        forall|i: int|
            0 <= i < drain_events(buf).events.len() - 1 ==> #[trigger] drain_events(
                buf,
            ).events[i] is Chunk,
        drain_events(buf).finished ==> drain_events(buf).events.len() > 0 && drain_events(
            buf,
        ).events.last() is End,
        !drain_events(buf).finished ==> forall|i: int|
            0 <= i < drain_events(buf).events.len() ==> #[trigger] drain_events(buf).events[i]
                is Chunk,
    decreases buf.len(),
{
    if let Some(boundary) = event_boundary(buf) {
        lemma_event_boundary_bounds(buf);
        lemma_leading_line_breaks_bound(buf.skip(boundary));
        let rest = after_event(buf, boundary);
        match event_payload(buf.take(boundary)) {
            PayloadView::AudioDelta(data) => {
                lemma_drain_events_order(rest);
                let later = drain_events(rest);
                let all = drain_events(buf).events;
                assert(all == seq![RelayEventView::Chunk { data }] + later.events);
                assert forall|i: int| 0 <= i < all.len() - 1 implies #[trigger] all[i]
                    is Chunk by {
                    if i > 0 {
                        assert(all[i] == later.events[i - 1]);
                    }
                }
                if later.finished {
                    assert(all.last() == later.events.last());
                } else {
                    assert forall|i: int| 0 <= i < all.len() implies #[trigger] all[i]
                        is Chunk by {
                        if i > 0 {
                            assert(all[i] == later.events[i - 1]);
                        }
                    }
                }
            },
            PayloadView::Ignored => {
                lemma_drain_events_order(rest);
            },
            _ => {},
        }
    }
}

/// While the stream goes on, no complete event stays in the buffer between pulls.
pub proof fn lemma_drain_leaves_no_event(buf: Seq<u8>)
    ensures
        !drain_events(buf).finished ==> event_boundary(drain_events(buf).rest) is None,
    decreases buf.len(),
{
    if let Some(boundary) = event_boundary(buf) {
        lemma_event_boundary_bounds(buf);
        lemma_leading_line_breaks_bound(buf.skip(boundary));
        let rest = after_event(buf, boundary);
        match event_payload(buf.take(boundary)) {
            PayloadView::AudioDelta(_) => {
                lemma_drain_leaves_no_event(rest);
            },
            PayloadView::Ignored => {
                lemma_drain_leaves_no_event(rest);
            },
            _ => {},
        }
    }
}

/// Framing does not depend on how the body is split into chunks: draining
/// the bytes at once gives the events of draining a first part, followed by
/// those of draining what that left together with the second part. The
/// second part must not begin with a line break.
pub proof fn lemma_drain_is_chunk_independent(head: Seq<u8>, tail: Seq<u8>)
    requires
        !drain_events(head).finished,
        tail.len() > 0 ==> !is_line_break(tail[0]),
    ensures
        drain_events(head + tail).events == drain_events(head).events + drain_events(
            drain_events(head).rest + tail,
        ).events,
        drain_events(head + tail).rest == drain_events(drain_events(head).rest + tail).rest,
        drain_events(head + tail).finished == drain_events(
            drain_events(head).rest + tail,
        ).finished,
    decreases head.len(),
{
    let whole = head + tail;
    match event_boundary(head) {
        None => {
            assert(Seq::<RelayEventView>::empty() + drain_events(whole).events
                =~= drain_events(whole).events);
        },
        Some(boundary) => {
            lemma_event_boundary_bounds(head);
            lemma_boundary_ignores_later_bytes(head, tail);
            let after = head.skip(boundary);
            lemma_leading_line_breaks_bound(after);
            lemma_leading_line_breaks_before(after, tail);
            assert(whole.take(boundary) =~= head.take(boundary));
            assert(whole.skip(boundary) =~= after + tail);
            let rest = after_event(head, boundary);
            assert(after_event(whole, boundary) =~= rest + tail);
            match event_payload(head.take(boundary)) {
                PayloadView::AudioDelta(data) => {
                    lemma_drain_is_chunk_independent(rest, tail);
                    let first = seq![RelayEventView::Chunk { data }];
                    assert(first + (drain_events(rest).events + drain_events(
                        drain_events(rest).rest + tail,
                    ).events) =~= (first + drain_events(rest).events) + drain_events(
                        drain_events(rest).rest + tail,
                    ).events);
                },
                PayloadView::Ignored => {
                    lemma_drain_is_chunk_independent(rest, tail);
                },
                _ => {},
            }
        },
    }
}

/// Whatever a streaming event relay is handed, a terminal event is the last
/// it publishes for that pull, and it publishes one exactly where it stops.
pub proof fn lemma_pull_events_order(buffered: Seq<u8>, pull: UpstreamPull)
    ensures
        forall|i: int|
            0 <= i < event_pull_events(buffered, pull).len() - 1 ==> !(#[trigger] event_pull_events(
                buffered,
                pull,
            )[i]).is_terminal(),
        !event_pull_continues(buffered, pull) <==> event_pull_events(buffered, pull).len() > 0
            && event_pull_events(buffered, pull).last().is_terminal(),
{
    if let UpstreamPull::Chunk(bytes) = pull {
        lemma_drain_events_order(buffered + bytes@);
    }
}

/// The events that an event relay publishes for one pull, given the bytes
/// that it had buffered.
pub open spec fn event_pull_events(buffered: Seq<u8>, pull: UpstreamPull) -> Seq<RelayEventView> {
    match pull {
        UpstreamPull::Cancelled => seq![RelayEventView::Cancelled],
        UpstreamPull::Chunk(bytes) => drain_events(buffered + bytes@).events,
        UpstreamPull::Failed { reason } => seq![
            RelayEventView::Error { message: read_failure_message(reason@) },
        ],
        UpstreamPull::Exhausted => seq![RelayEventView::End],
    }
}

/// Whether an event relay goes on after one pull.
pub open spec fn event_pull_continues(buffered: Seq<u8>, pull: UpstreamPull) -> bool {
    match pull {
        UpstreamPull::Chunk(bytes) => !drain_events(buffered + bytes@).finished,
        _ => false,
    }
}

/// The bytes that an event relay holds after one pull.
pub open spec fn event_pull_buffer(buffered: Seq<u8>, pull: UpstreamPull) -> Seq<u8> {
    match pull {
        UpstreamPull::Chunk(bytes) => drain_events(buffered + bytes@).rest,
        _ => buffered,
    }
}

/// Relay for an endpoint that answers with a stream of server-sent events
/// whose payloads carry base64 audio.
pub struct ResponsesRelay {
    phase: RelayPhase,
    format: AudioFormat,
    buf: Vec<u8>,
}

impl ResponsesRelay {
    /// Where the relay stands.
    pub closed spec fn phase(&self) -> RelayPhase {
        self.phase
    }

    /// The container that was asked for.
    pub closed spec fn format(&self) -> AudioFormat {
        self.format
    }

    /// The bytes received and not yet carved into events.
    pub closed spec fn buffered(&self) -> Seq<u8> {
        self.buf@
    }

    /// A relay for a request that was just sent.
    pub fn new(format: AudioFormat) -> (relay: Self)
        ensures
            relay.phase() == RelayPhase::Connecting,
            relay.format() == format,
            relay.buffered() == Seq::<u8>::empty(),
    {
        ResponsesRelay { phase: RelayPhase::Connecting, format, buf: Vec::new() }
    }

    /// Where the relay stands.
    pub fn current_phase(&self) -> (phase: RelayPhase)
        ensures
            phase == self.phase(),
    {
        self.phase
    }

    /// Takes the outcome of the upstream request. A relay that is connecting
    /// publishes `start` or `error`; at any other time nothing happens.
    pub fn on_response(&mut self, response: UpstreamResponse) -> (event: Option<RelayEvent>)
        ensures
            final(self).format() == old(self).format(),
            final(self).buffered() == old(self).buffered(),
            old(self).phase() == RelayPhase::Connecting ==> {
                &&& event matches Some(e)
                &&& e@ == response_event(event_stream_mime(old(self).format()), response)
                &&& final(self).phase() == phase_after_response(response)
            },
            old(self).phase() != RelayPhase::Connecting ==> event is None && final(self).phase()
                == old(self).phase(),
    {
        if self.phase != RelayPhase::Connecting {
            return None;
        }
        self.phase = match response {
            UpstreamResponse::Accepted => RelayPhase::Streaming,
            _ => RelayPhase::Finished,
        };
        Some(answer(mime_for_event_stream(self.format), response))
    }

    /// Appends `chunk` to the buffer and carves off every complete event.
    fn drain(&mut self, chunk: &[u8]) -> (events: Vec<RelayEvent>)
        requires
            old(self).phase() == RelayPhase::Streaming,
        ensures
            final(self).format() == old(self).format(),
            views(events@) == drain_events(old(self).buffered() + chunk@).events,
            final(self).buffered() == drain_events(old(self).buffered() + chunk@).rest,
            final(self).phase() == (if drain_events(old(self).buffered() + chunk@).finished {
                RelayPhase::Finished
            } else {
                RelayPhase::Streaming
            }),
    {
        self.buf.extend_from_slice(chunk);
        let ghost whole = self.buf@;
        let ghost goal = drain_events(whole);
        assert(whole == old(self).buffered() + chunk@);
        let mut events: Vec<RelayEvent> = Vec::new();
        assert(views(events@) + goal.events =~= goal.events);
        loop
            invariant_except_break
                self.phase == RelayPhase::Streaming,
                self.format == old(self).format,
                goal.events == views(events@) + drain_events(self.buf@).events,
                goal.rest == drain_events(self.buf@).rest,
                goal.finished == drain_events(self.buf@).finished,
            ensures
                self.format == old(self).format,
                goal.events == views(events@),
                goal.rest == self.buf@,
                self.phase == (if goal.finished {
                    RelayPhase::Finished
                } else {
                    RelayPhase::Streaming
                }),
            decreases self.buf@.len(),
        {
            let ghost before = self.buf@;
            let boundary = match find_sse_event_boundary(self.buf.as_slice()) {
                Some(boundary) => boundary,
                None => {
                    assert(views(events@) + Seq::<RelayEventView>::empty() =~= views(events@));
                    break ;
                },
            };
            let mut event = self.buf.split_off(boundary);
            core::mem::swap(&mut self.buf, &mut event);
            assert(event@ =~= before.take(boundary as int));
            assert(self.buf@ =~= before.skip(boundary as int));
            let _ = consume_leading_newlines(&mut self.buf);
            assert(self.buf@ == after_event(before, boundary as int));
            let payload = match extract_sse_data(event.as_slice()) {
                Some(data) => classify_payload(data.as_str()),
                None => SsePayload::Ignored,
            };
            assert(payload@ == event_payload(before.take(boundary as int)));
            match payload {
                SsePayload::AudioDelta(data) => {
                    let ghost sofar = views(events@);
                    events.push(RelayEvent::Chunk { data });
                    proof {
                        let chunk_view = RelayEventView::Chunk { data: data@ };
                        assert(views(events@) =~= sofar.push(chunk_view));
                        assert(sofar + (seq![chunk_view] + drain_events(self.buf@).events)
                            =~= sofar.push(chunk_view) + drain_events(self.buf@).events);
                    }
                },
                SsePayload::Ignored => {},
                _ => {
                    let ghost sofar = views(events@);
                    events.push(RelayEvent::End);
                    proof {
                        assert(views(events@) =~= sofar.push(RelayEventView::End));
                        assert(sofar + seq![RelayEventView::End] =~= sofar.push(
                            RelayEventView::End,
                        ));
                    }
                    self.phase = RelayPhase::Finished;
                    break ;
                },
            }
        }
        events
    }

    /// Takes the outcome of one pull. A relay that is streaming publishes the
    /// events that the pull completes, the last of them terminal where the
    /// stream is over; at any other time nothing happens.
    pub fn on_pull(&mut self, pull: UpstreamPull) -> (events: Vec<RelayEvent>)
        ensures
            final(self).format() == old(self).format(),
            old(self).phase() == RelayPhase::Streaming ==> {
                &&& views(events@) == event_pull_events(old(self).buffered(), pull)
                &&& final(self).buffered() == event_pull_buffer(old(self).buffered(), pull)
                &&& final(self).phase() == (if event_pull_continues(old(self).buffered(), pull) {
                    RelayPhase::Streaming
                } else {
                    RelayPhase::Finished
                })
            },
            old(self).phase() != RelayPhase::Streaming ==> {
                &&& events@.len() == 0
                &&& final(self).phase() == old(self).phase()
                &&& final(self).buffered() == old(self).buffered()
            },
    {
        let mut events: Vec<RelayEvent> = Vec::new();
        if self.phase != RelayPhase::Streaming {
            return events;
        }
        match pull {
            UpstreamPull::Chunk(bytes) => {
                return self.drain(bytes.as_slice());
            },
            UpstreamPull::Cancelled => {
                events.push(RelayEvent::Cancelled);
            },
            UpstreamPull::Failed { reason } => {
                events.push(RelayEvent::Error { message: describe_read_failure(reason.as_str()) });
            },
            UpstreamPull::Exhausted => {
                events.push(RelayEvent::End);
            },
        }
        self.phase = RelayPhase::Finished;
        assert(views(events@) =~= event_pull_events(old(self).buffered(), pull));
        events
    }
}

} // verus!
