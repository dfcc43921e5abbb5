//! The decisions of the pull-mode HTTP endpoint.
//!
//! The listener hands each request, each upstream outcome and each pull to
//! these functions and performs what they answer; the registry is touched
//! nowhere else while a stream is served.

use crate::request::{
    format_of, mime_for_session, parse_format, sent_instructions, session_mime,
    session_speech_request, SpeechRequest,
};
use crate::server::{StreamingSession, TtsStreamingServer};
use crate::text::{chars_of, matches_at, same_text};
use crate::upstream::{
    describe_rejection, describe_unreachable, rejection_message, unreachable_message,
    UpstreamPull, UpstreamResponse,
};
use vstd::prelude::*;
use vstd::string::{StrSliceExecFns, StringExecFns};

verus! {

/// Where a request is routed.
#[derive(Clone, Debug, PartialEq, Eq)]
pub enum Route {
    /// `GET /stream/{session_id}`.
    Stream { session_id: String },
    /// Any other method or path.
    NotFound,
}

/// The path prefix of the stream endpoint.
pub open spec fn stream_prefix() -> Seq<char> {
    "/stream/"@
}

/// The request asks for a session stream.
pub open spec fn is_stream_request(method: Seq<char>, path: Seq<char>) -> bool {
    method == "GET"@ && stream_prefix().is_prefix_of(path)
}

/// Routes a request by method and path: the session id is what follows `/stream/`.
pub fn route_request(method: &str, path: &str) -> (route: Route)
    ensures
        match route {
            Route::Stream { session_id } => is_stream_request(method@, path@) && session_id@
                == path@.skip(stream_prefix().len() as int),
            Route::NotFound => !is_stream_request(method@, path@),
        },
{
    if !same_text(method, "GET") {
        return Route::NotFound;
    }
    let chars = chars_of(path);
    let prefix = chars_of("/stream/");
    let n = prefix.len();
    assert(chars@.subrange(0, chars@.len() as int) =~= chars@);
    if !matches_at(chars.as_slice(), 0, chars.len(), prefix.as_slice()) {
        return Route::NotFound;
    }
    assert(path@.subrange(n as int, chars@.len() as int) =~= path@.skip(n as int));
    Route::Stream { session_id: path.substring_char(n, chars.len()).to_owned() }
}

/// Status, headers and fixed body of a reply.
#[derive(Clone, Debug, PartialEq, Eq)]
pub struct ReplyHead {
    pub status: u16,
    /// `Content-Type`, where one is set.
    pub content_type: Option<String>,
    /// The reply carries `Cache-Control: no-cache` and a chunked body that
    /// is copied from upstream.
    pub streamed: bool,
    /// The whole body of a reply that is not streamed.
    pub body: String,
}

/// The reply to a request that matches no route.
pub fn not_found_reply() -> (head: ReplyHead)
    ensures
        head.status == 404,
        head.content_type is None,
        !head.streamed,
        head.body@ == "Not Found"@,
{
    ReplyHead {
        status: 404,
        content_type: None,
        streamed: false,
        body: String::from_str("Not Found"),
    }
}

/// The reply to a request for a session that is not registered.
pub fn session_not_found_reply() -> (head: ReplyHead)
    ensures
        head.status == 404,
        head.content_type is None,
        !head.streamed,
        head.body@ == "Session not found"@,
{
    ReplyHead {
        status: 404,
        content_type: None,
        streamed: false,
        body: String::from_str("Session not found"),
    }
}

/// The reply that follows the upstream's answer: 200 and a streamed body of
/// the session's MIME type on success, 502 with the failure in words otherwise.
pub fn upstream_reply(format: &str, response: &UpstreamResponse) -> (head: ReplyHead)
    ensures
        match *response {
            UpstreamResponse::Accepted => {
                &&& head.status == 200
                &&& head.content_type matches Some(mime)
                &&& mime@ == session_mime(format_of(format@))
                &&& head.streamed
                &&& head.body@.len() == 0
            },
            UpstreamResponse::Rejected { status, body } => {
                &&& head.status == 502
                &&& head.content_type is None
                &&& !head.streamed
                &&& head.body@ == rejection_message(status, body@)
            },
            UpstreamResponse::Unreachable { reason } => {
                &&& head.status == 502
                &&& head.content_type is None
                &&& !head.streamed
                &&& head.body@ == unreachable_message(reason@)
            },
        },
{
    match response {
        UpstreamResponse::Accepted => ReplyHead {
            status: 200,
            content_type: Some(String::from_str(mime_for_session(parse_format(format)))),
            streamed: true,
            body: String::new(),
        },
        UpstreamResponse::Rejected { status, body } => ReplyHead {
            status: 502,
            content_type: None,
            streamed: false,
            body: describe_rejection(*status, body.as_str()),
        },
        UpstreamResponse::Unreachable { reason } => ReplyHead {
            status: 502,
            content_type: None,
            streamed: false,
            body: describe_unreachable(reason.as_str()),
        },
    }
}

/// What the endpoint does with a request for a session's stream.
#[derive(Clone, Debug, PartialEq, Eq)]
pub enum StreamOpening {
    /// No such session: answer 404.
    NotFound,
    /// The session was marked as started: send this request upstream with the
    /// key as bearer token.
    Upstream { request: SpeechRequest, api_key: String, format: String },
}

/// The status that a request for `session_id` is answered with before any
/// upstream exchange: 404 for an unknown session, else none yet.
pub open spec fn opening_status(sessions: Map<Seq<char>, StreamingSession>, session_id: Seq<char>) -> Option<
    u16,
> {
    if sessions.contains_key(session_id) {
        None
    } else {
        Some(404)
    }
}

/// A session that was stopped is unknown to every later request: it is
/// answered with 404.
pub proof fn lemma_stopped_session_is_not_found(
    sessions: Map<Seq<char>, StreamingSession>,
    session_id: Seq<char>,
)
    ensures
        opening_status(sessions.remove(session_id), session_id) == Some(404u16),
{
}

/// The progress of copying one upstream body to one client.
#[derive(Clone, Debug, PartialEq, Eq)]
pub struct StreamCopy {
    pub session_id: String,
    /// The session was already taken out of the registry by this copy.
    pub cleaned: bool,
}

/// What to do with the outcome of one pull.
#[derive(Clone, Debug, PartialEq, Eq)]
pub enum CopyStep {
    /// Write the bytes to the client and pull again.
    Forward(Vec<u8>),
    /// End the body.
    Finish,
    /// End the body with an error.
    Abort { reason: String },
}

/// The registry after a copy has ended: the session is gone, unless this
/// copy had removed it before.
pub open spec fn after_cleanup(
    sessions: Map<Seq<char>, StreamingSession>,
    copy: StreamCopy,
) -> Map<Seq<char>, StreamingSession> {
    if copy.cleaned {
        sessions
    } else {
        sessions.remove(copy.session_id@)
    }
}

/// Cancellation was requested for the session, or it is no longer registered.
pub open spec fn stop_requested(
    sessions: Map<Seq<char>, StreamingSession>,
    session_id: Seq<char>,
) -> bool {
    !sessions.contains_key(session_id) || sessions[session_id].cancel
}

impl TtsStreamingServer {
    /// Looks the session up and marks it as started. For a known session the
    /// answer holds the upstream request; the registry changes in that flag alone.
    pub fn open_stream(&mut self, session_id: &str) -> (opening: StreamOpening)
        ensures
            final(self).port() == old(self).port(),
            match opening {
                StreamOpening::NotFound => {
                    &&& opening_status(old(self)@, session_id@) == Some(404u16)
                    &&& final(self)@ == old(self)@
                },
                StreamOpening::Upstream { request, api_key, format } => {
                    let session = old(self)@[session_id@];
                    &&& opening_status(old(self)@, session_id@) is None
                    &&& final(self)@ == old(self)@.insert(
                        session_id@,
                        StreamingSession { started: true, ..session },
                    )
                    &&& request.model == session.model
                    &&& request.input == session.text
                    &&& request.voice == session.voice
                    &&& request.format == session.format
                    &&& request.instructions == sent_instructions(session.instructions)
                    &&& request.accept@ == session_mime(format_of(session.format@))
                    &&& api_key == session.api_key
                    &&& format == session.format
                },
            },
    {
        let session = match self.session(session_id) {
            Some(session) => session,
            None => {
                return StreamOpening::NotFound;
            },
        };
        let _ = self.mark_started(session_id);
        let request = session_speech_request(&session);
        StreamOpening::Upstream { request, api_key: session.api_key, format: session.format }
    }

    /// Whether the copy must stop before its next pull.
    pub fn should_stop(&self, copy: &StreamCopy) -> (stop: bool)
        ensures
            stop == stop_requested(self@, copy.session_id@),
    {
        match self.session(copy.session_id.as_str()) {
            Some(session) => session.cancel,
            None => true,
        }
    }

    /// Takes the outcome of one pull. A chunk is forwarded and leaves the
    /// registry alone; anything else ends the body and removes the session,
    /// once per copy.
    pub fn copy_step(&mut self, copy: &mut StreamCopy, pull: UpstreamPull) -> (step: CopyStep)
        ensures
            final(self).port() == old(self).port(),
            final(copy).session_id == old(copy).session_id,
            match pull {
                UpstreamPull::Chunk(bytes) => {
                    &&& step == CopyStep::Forward(bytes)
                    &&& final(self)@ == old(self)@
                    &&& final(copy).cleaned == old(copy).cleaned
                },
                UpstreamPull::Failed { reason } => {
                    &&& step == (CopyStep::Abort { reason })
                    &&& final(self)@ == after_cleanup(old(self)@, *old(copy))
                    &&& final(copy).cleaned
                },
                _ => {
                    &&& step is Finish
                    &&& final(self)@ == after_cleanup(old(self)@, *old(copy))
                    &&& final(copy).cleaned
                },
            },
    {
        match pull {
            UpstreamPull::Chunk(bytes) => CopyStep::Forward(bytes),
            UpstreamPull::Failed { reason } => {
                self.clean_up(copy);
                CopyStep::Abort { reason }
            },
            _ => {
                self.clean_up(copy);
                CopyStep::Finish
            },
        }
    }

    fn clean_up(&mut self, copy: &mut StreamCopy)
        ensures
            final(self).port() == old(self).port(),
            final(copy).session_id == old(copy).session_id,
            final(self)@ == after_cleanup(old(self)@, *old(copy)),
            final(copy).cleaned,
    {
        if !copy.cleaned {
            let _ = self.stop_session(copy.session_id.as_str());
            copy.cleaned = true;
        }
    }
}

} // verus!
