//! The session registry behind the pull-mode streaming endpoint.
//!
//! A caller registers a synthesis request and gets an opaque id; a separate
//! HTTP client later pulls the audio under that id. The registry is plain
//! owned state: whoever shares it between tasks guards it with a lock.

use crate::error::TtsError;
use crate::request::or_default;
use crate::request::text_or;
use crate::text::{decimal_digits, decimal_string, same_text};
use vstd::prelude::*;
use vstd::string::StringExecFns;

verus! {

/// Calls `uuid::Uuid::new_v4` and writes the identifier in its hyphenated
/// lower-case form. Which identifier comes back is up to the random source;
/// only the length of that form, 36 characters, is fixed.
#[verifier::external_body]
fn fresh_session_id() -> (id: String)
    ensures
        id@.len() == 36,
{
    uuid::Uuid::new_v4().to_string()
}

/// One pending or in-progress pull-mode delivery.
#[derive(Clone, Debug, PartialEq, Eq)]
pub struct StreamingSession {
    pub text: String,
    pub voice: String,
    pub model: String,
    pub format: String,
    pub api_key: String,
    pub instructions: Option<String>,
    /// Set when the session was told to stop.
    pub cancel: bool,
    /// Monotonic time of creation, in nanoseconds.
    pub created_at: u128,
    /// Set once a client has asked for the stream.
    pub started: bool,
}

impl StreamingSession {
    /// Time since creation; zero where the clock reads earlier than the creation.
    pub open spec fn age(&self, now: u128) -> int {
        if now >= self.created_at {
            now - self.created_at
        } else {
            0
        }
    }

    /// The session was never consumed and is older than `ttl`.
    pub open spec fn is_idle(&self, now: u128, ttl: u128) -> bool {
        !self.started && self.age(now) > ttl
    }

    /// Executable form of [`StreamingSession::is_idle`].
    pub fn idle(&self, now: u128, ttl: u128) -> (r: bool)
        ensures
            r == self.is_idle(now, ttl),
    {
        let age: u128 = if now >= self.created_at {
            now - self.created_at
        } else {
            0
        };
        !self.started && age > ttl
    }

    /// A copy with every field equal.
    pub fn duplicate(&self) -> (r: Self)
        ensures
            r == *self,
    {
        StreamingSession {
            text: self.text.clone(),
            voice: self.voice.clone(),
            model: self.model.clone(),
            format: self.format.clone(),
            api_key: self.api_key.clone(),
            instructions: match &self.instructions {
                Some(s) => Some(s.clone()),
                None => None,
            },
            cancel: self.cancel,
            created_at: self.created_at,
            started: self.started,
        }
    }
}

/// A registered session under its id.
pub struct SessionEntry {
    pub id: String,
    pub session: StreamingSession,
}

/// No id occurs twice.
pub open spec fn ids_distinct(entries: Seq<SessionEntry>) -> bool {
    forall|i: int, j: int| 0 <= i < j < entries.len() ==> entries[i].id@ != entries[j].id@
}

/// The mapping from id to session that a list of entries stands for.
pub open spec fn entries_map(entries: Seq<SessionEntry>) -> Map<Seq<char>, StreamingSession>
    decreases entries.len(),
{
    if entries.len() == 0 {
        Map::empty()
    } else {
        entries_map(entries.drop_last()).insert(entries.last().id@, entries.last().session)
    }
}

/// An id is registered exactly where some entry carries it.
pub proof fn lemma_entries_map_dom(entries: Seq<SessionEntry>)
    ensures
        forall|id: Seq<char>| #[trigger]
            entries_map(entries).contains_key(id) <==> exists|i: int|
                0 <= i < entries.len() && #[trigger] entries[i].id@ == id,
        entries_map(entries).dom().finite(),
    decreases entries.len(),
{
    if entries.len() > 0 {
        let front = entries.drop_last();
        lemma_entries_map_dom(front);
        assert forall|id: Seq<char>| #[trigger]
            entries_map(entries).contains_key(id) <==> exists|i: int|
                0 <= i < entries.len() && #[trigger] entries[i].id@ == id by {
            if entries_map(entries).contains_key(id) {
                if id == entries.last().id@ {
                    assert(entries[entries.len() - 1].id@ == id);
                } else {
                    assert(entries_map(front).contains_key(id));
                    let i = choose|i: int| 0 <= i < front.len() && #[trigger] front[i].id@ == id;
                    assert(entries[i].id@ == id);
                }
            }
            if exists|i: int| 0 <= i < entries.len() && #[trigger] entries[i].id@ == id {
                let i = choose|i: int| 0 <= i < entries.len() && #[trigger] entries[i].id@ == id;
                if i < front.len() {
                    assert(front[i].id@ == id);
                    assert(entries_map(front).contains_key(id));
                }
            }
        }
    }
}

/// With distinct ids, each entry is what its id maps to.
pub proof fn lemma_entries_map_lookup(entries: Seq<SessionEntry>, i: int)
    requires
        ids_distinct(entries),
        0 <= i < entries.len(),
    ensures
        entries_map(entries).contains_key(entries[i].id@),
        entries_map(entries)[entries[i].id@] == entries[i].session,
    decreases entries.len(),
{
    if i < entries.len() - 1 {
        let front = entries.drop_last();
        lemma_entries_map_lookup(front, i);
        assert(front[i].id@ == entries[i].id@);
    }
}

/// With distinct ids, the mapping has one key per entry.
pub proof fn lemma_entries_map_len(entries: Seq<SessionEntry>)
    requires
        ids_distinct(entries),
    ensures
        entries_map(entries).len() == entries.len(),
        entries_map(entries).dom().finite(),
    decreases entries.len(),
{
    lemma_entries_map_dom(entries);
    if entries.len() > 0 {
        let front = entries.drop_last();
        lemma_entries_map_len(front);
        lemma_entries_map_dom(front);
        if entries_map(front).contains_key(entries.last().id@) {
            let i = choose|i: int|
                0 <= i < front.len() && #[trigger] front[i].id@ == entries.last().id@;
            assert(entries[i].id@ == entries[entries.len() - 1].id@);
        }
    }
}

/// Taking one entry out removes its id from the mapping and nothing else.
pub proof fn lemma_entries_map_remove(entries: Seq<SessionEntry>, i: int)
    requires
        ids_distinct(entries),
        0 <= i < entries.len(),
    ensures
        ids_distinct(entries.remove(i)),
        entries_map(entries.remove(i)) == entries_map(entries).remove(entries[i].id@),
{
    let after = entries.remove(i);
    assert forall|a: int, b: int| 0 <= a < b < after.len() implies after[a].id@ != after[b].id@ by {
        let a0 = if a < i { a } else { a + 1 };
        let b0 = if b < i { b } else { b + 1 };
        assert(after[a] == entries[a0] && after[b] == entries[b0]);
    }
    lemma_entries_map_dom(entries);
    lemma_entries_map_dom(after);
    let lhs = entries_map(after);
    let rhs = entries_map(entries).remove(entries[i].id@);
    assert forall|id: Seq<char>| lhs.contains_key(id) == rhs.contains_key(id) by {
        if lhs.contains_key(id) {
            let a = choose|a: int| 0 <= a < after.len() && #[trigger] after[a].id@ == id;
            let a0 = if a < i { a } else { a + 1 };
            assert(entries[a0].id@ == id);
        }
        if rhs.contains_key(id) {
            let a0 = choose|a: int| 0 <= a < entries.len() && #[trigger] entries[a].id@ == id;
            let a = if a0 < i { a0 } else { a0 - 1 };
            assert(after[a].id@ == id);
        }
    }
    assert forall|id: Seq<char>| lhs.contains_key(id) implies lhs[id] == rhs[id] by {
        let a = choose|a: int| 0 <= a < after.len() && #[trigger] after[a].id@ == id;
        let a0 = if a < i { a } else { a + 1 };
        assert(after[a] == entries[a0]);
        lemma_entries_map_lookup(after, a);
        lemma_entries_map_lookup(entries, a0);
    }
    assert(lhs =~= rhs);
}

/// Replacing one entry's session under the same id updates that id alone.
pub proof fn lemma_entries_map_update(entries: Seq<SessionEntry>, i: int, entry: SessionEntry)
    requires
        ids_distinct(entries),
        0 <= i < entries.len(),
        entry.id@ == entries[i].id@,
    ensures
        ids_distinct(entries.update(i, entry)),
        entries_map(entries.update(i, entry)) == entries_map(entries).insert(
            entry.id@,
            entry.session,
        ),
{
    let after = entries.update(i, entry);
    assert forall|a: int, b: int| 0 <= a < b < after.len() implies after[a].id@ != after[b].id@ by {
        assert(after[a].id@ == entries[a].id@ && after[b].id@ == entries[b].id@);
    }
    lemma_entries_map_dom(entries);
    lemma_entries_map_dom(after);
    let lhs = entries_map(after);
    let rhs = entries_map(entries).insert(entry.id@, entry.session);
    assert forall|id: Seq<char>| lhs.contains_key(id) == rhs.contains_key(id) by {
        if lhs.contains_key(id) {
            let a = choose|a: int| 0 <= a < after.len() && #[trigger] after[a].id@ == id;
            assert(entries[a].id@ == id);
        }
        if rhs.contains_key(id) {
            if id == entry.id@ {
                assert(after[i].id@ == id);
            } else {
                let a = choose|a: int| 0 <= a < entries.len() && #[trigger] entries[a].id@ == id;
                assert(after[a].id@ == id);
            }
        }
    }
    assert forall|id: Seq<char>| lhs.contains_key(id) implies lhs[id] == rhs[id] by {
        let a = choose|a: int| 0 <= a < after.len() && #[trigger] after[a].id@ == id;
        lemma_entries_map_lookup(after, a);
        if a != i {
            assert(entries[a].id@ == id);
            lemma_entries_map_lookup(entries, a);
        }
    }
    assert(lhs =~= rhs);
}

/// The registry of streaming sessions and the local port they are served on.
///
/// The sessions stand in a vector, each under an id that no other carries:
/// the sweep for idle sessions walks all of them, which a map keyed by
/// strings does not offer to verified code.
pub struct TtsStreamingServer {
    port: u16,
    entries: Vec<SessionEntry>,
}

impl View for TtsStreamingServer {
    type V = Map<Seq<char>, StreamingSession>;

    /// The registered sessions by id.
    closed spec fn view(&self) -> Map<Seq<char>, StreamingSession> {
        entries_map(self.entries@)
    }
}

/// The URL under which a session's audio is pulled.
pub open spec fn stream_url(port: u16, session_id: Seq<char>) -> Seq<char> {
    "http://127.0.0.1:"@ + decimal_digits(port as nat) + "/stream/"@ + session_id
}

/// What `cleanup_idle` leaves of a registry: every session but the idle ones.
pub open spec fn without_idle(
    sessions: Map<Seq<char>, StreamingSession>,
    now: u128,
    ttl: u128,
) -> Map<Seq<char>, StreamingSession> {
    sessions.remove_keys(
        Set::new(|id: Seq<char>| sessions.contains_key(id) && sessions[id].is_idle(now, ttl)),
    )
}

/// A session that was started outlives every sweep, whatever its age and
/// whatever the time-to-live.
pub proof fn lemma_started_session_survives(
    sessions: Map<Seq<char>, StreamingSession>,
    id: Seq<char>,
    now: u128,
    ttl: u128,
)
    requires
        sessions.contains_key(id),
        sessions[id].started,
    ensures
        without_idle(sessions, now, ttl).contains_key(id),
        without_idle(sessions, now, ttl)[id] == sessions[id],
{
}

/// A sweep removes exactly the sessions that were never started and are older
/// than the time-to-live, and leaves every other session as it was.
pub proof fn lemma_sweep_removes_the_idle(
    sessions: Map<Seq<char>, StreamingSession>,
    id: Seq<char>,
    now: u128,
    ttl: u128,
)
    ensures
        without_idle(sessions, now, ttl).contains_key(id) <==> sessions.contains_key(id)
            && !sessions[id].is_idle(now, ttl),
        without_idle(sessions, now, ttl).contains_key(id) ==> without_idle(sessions, now, ttl)[id]
            == sessions[id],
{
}

impl TtsStreamingServer {
    #[verifier::type_invariant]
    spec fn ids_are_distinct(&self) -> bool {
        ids_distinct(self.entries@)
    }

    /// The local port of the listener.
    pub closed spec fn port(&self) -> u16 {
        self.port
    }

    /// An empty registry for a listener bound to `port`.
    pub fn new(port: u16) -> (server: Self)
        ensures
            server@ == Map::<Seq<char>, StreamingSession>::empty(),
            server.port() == port,
    {
        TtsStreamingServer { port, entries: Vec::new() }
    }

    /// The local port of the listener.
    pub fn get_port(&self) -> (port: u16)
        ensures
            port == self.port(),
    {
        self.port
    }

    /// Number of registered sessions.
    pub fn count_sessions(&self) -> (n: usize)
        ensures
            n == self@.len(),
            self@.dom().finite(),
    {
        proof {
            use_type_invariant(self);
            lemma_entries_map_len(self.entries@);
        }
        self.entries.len()
    }

    /// `http://127.0.0.1:{port}/stream/{session_id}`.
    pub fn get_stream_url(&self, session_id: &str) -> (url: String)
        ensures
            url@ == stream_url(self.port(), session_id@),
    {
        let mut url = String::from_str("http://127.0.0.1:");
        let port = decimal_string(self.port as u64);
        url.append(port.as_str());
        url.append("/stream/");
        url.append(session_id);
        url
    }

    fn position(&self, session_id: &str) -> (r: Option<usize>)
        ensures
            match r {
                Some(i) => i < self.entries@.len() && self.entries@[i as int].id@ == session_id@,
                None => !self@.contains_key(session_id@),
            },
            r is Some == self@.contains_key(session_id@),
    {
        let mut i: usize = 0;
        while i < self.entries.len()
            invariant
                i <= self.entries@.len(),
                forall|k: int| 0 <= k < i ==> self.entries@[k].id@ != session_id@,
            decreases self.entries@.len() - i,
        {
            if same_text(self.entries[i].id.as_str(), session_id) {
                proof {
                    lemma_entries_map_dom(self.entries@);
                }
                return Some(i);
            }
            i += 1;
        }
        proof {
            lemma_entries_map_dom(self.entries@);
        }
        None
    }

    /// Whether a session is registered under `session_id`.
    pub fn contains(&self, session_id: &str) -> (r: bool)
        ensures
            r == self@.contains_key(session_id@),
    {
        self.position(session_id).is_some()
    }

    /// A copy of the session registered under `session_id`.
    pub fn session(&self, session_id: &str) -> (r: Option<StreamingSession>)
        ensures
            match r {
                Some(session) => self@.contains_key(session_id@) && session == self@[session_id@],
                None => !self@.contains_key(session_id@),
            },
    {
        match self.position(session_id) {
            Some(i) => {
                proof {
                    use_type_invariant(self);
                    lemma_entries_map_lookup(self.entries@, i as int);
                }
                Some(self.entries[i].session.duplicate())
            },
            None => None,
        }
    }

    /// A copy of the session registered under `session_id`, or the error that
    /// names a session as unknown.
    pub fn require_session(&self, session_id: &str) -> (r: Result<StreamingSession, TtsError>)
        ensures
            match r {
                Ok(session) => self@.contains_key(session_id@) && session == self@[session_id@],
                Err(e) => !self@.contains_key(session_id@) && e is SessionNotFound,
            },
    {
        match self.session(session_id) {
            Some(session) => Ok(session),
            None => Err(TtsError::SessionNotFound),
        }
    }

    /// Registers `session` under `id`, in place of any session already there.
    pub fn insert_session(&mut self, id: String, session: StreamingSession)
        ensures
            final(self)@ == old(self)@.insert(id@, session),
            final(self).port() == old(self).port(),
    {
        proof {
            use_type_invariant(&*self);
            lemma_entries_map_dom(self.entries@);
        }
        let found = self.position(id.as_str());
        let entry = SessionEntry { id, session };
        let mut entries: Vec<SessionEntry> = Vec::new();
        core::mem::swap(&mut self.entries, &mut entries);
        match found {
            Some(i) => {
                proof {
                    lemma_entries_map_update(entries@, i as int, entry);
                }
                entries.set(i, entry);
            },
            None => {
                assert(entries@.push(entry).drop_last() =~= entries@);
                entries.push(entry);
            },
        }
        self.entries = entries;
    }

    /// Registers a new, unstarted session under a fresh random id and returns the id.
    pub fn create_session(
        &mut self,
        text: String,
        voice: String,
        model: String,
        format: String,
        api_key: String,
        instructions: Option<String>,
        now: u128,
    ) -> (id: String)
        ensures
            id@.len() == 36,
            final(self)@ == old(self)@.insert(
                id@,
                StreamingSession {
                    text,
                    voice,
                    model,
                    format,
                    api_key,
                    instructions,
                    cancel: false,
                    created_at: now,
                    started: false,
                },
            ),
            final(self).port() == old(self).port(),
    {
        let id = fresh_session_id();
        let session = StreamingSession {
            text,
            voice,
            model,
            format,
            api_key,
            instructions,
            cancel: false,
            created_at: now,
            started: false,
        };
        self.insert_session(id.clone(), session);
        id
    }

    /// Takes the session out of the registry and hands it back with its
    /// cancellation flag set.
    pub fn take_session(&mut self, session_id: &str) -> (r: Option<StreamingSession>)
        ensures
            match r {
                Some(session) => old(self)@.contains_key(session_id@) && session == (
                StreamingSession { cancel: true, ..old(self)@[session_id@] }),
                None => !old(self)@.contains_key(session_id@),
            },
            final(self)@ == old(self)@.remove(session_id@),
            final(self).port() == old(self).port(),
    {
        proof {
            use_type_invariant(&*self);
        }
        match self.position(session_id) {
            Some(i) => {
                let mut entries: Vec<SessionEntry> = Vec::new();
                core::mem::swap(&mut self.entries, &mut entries);
                proof {
                    lemma_entries_map_lookup(entries@, i as int);
                    lemma_entries_map_remove(entries@, i as int);
                }
                let entry = entries.remove(i);
                self.entries = entries;
                let mut session = entry.session;
                session.cancel = true;
                Some(session)
            },
            None => {
                assert(self@.remove(session_id@) =~= self@);
                None
            },
        }
    }

    /// Cancels the session and removes it; says whether it was registered.
    pub fn stop_session(&mut self, session_id: &str) -> (existed: bool)
        ensures
            existed == old(self)@.contains_key(session_id@),
            final(self)@ == old(self)@.remove(session_id@),
            !final(self)@.contains_key(session_id@),
            final(self).port() == old(self).port(),
    {
        self.take_session(session_id).is_some()
    }

    /// Marks the session as consumed; says whether it was registered.
    pub fn mark_started(&mut self, session_id: &str) -> (existed: bool)
        ensures
            existed == old(self)@.contains_key(session_id@),
            existed ==> final(self)@ == old(self)@.insert(
                session_id@,
                StreamingSession { started: true, ..old(self)@[session_id@] },
            ),
            !existed ==> final(self)@ == old(self)@,
            final(self).port() == old(self).port(),
    {
        proof {
            use_type_invariant(&*self);
        }
        match self.position(session_id) {
            Some(i) => {
                let mut entries: Vec<SessionEntry> = Vec::new();
                core::mem::swap(&mut self.entries, &mut entries);
                let old_entry = entries.remove(i);
                let mut session = old_entry.session;
                session.started = true;
                let entry = SessionEntry { id: old_entry.id, session };
                proof {
                    let before = old(self).entries@;
                    lemma_entries_map_lookup(before, i as int);
                    lemma_entries_map_update(before, i as int, entry);
                    assert(entries@.insert(i as int, entry) =~= before.update(i as int, entry));
                }
                entries.insert(i, entry);
                self.entries = entries;
                true
            },
            None => false,
        }
    }

    /// Removes every session that was never consumed and is older than `ttl`
    /// at time `now` (both in nanoseconds), and returns how many were removed.
    /// A session that was started stays, whatever its age.
    pub fn cleanup_idle(&mut self, ttl: u128, now: u128) -> (removed: usize)
        ensures
            final(self)@ == without_idle(old(self)@, now, ttl),
            removed == old(self)@.len() - final(self)@.len(),
            forall|id: Seq<char>|
                old(self)@.contains_key(id) && (#[trigger] old(self)@[id]).started
                    ==> final(self)@.contains_key(id) && final(self)@[id] == old(self)@[id],
            final(self).port() == old(self).port(),
    {
        proof {
            use_type_invariant(&*self);
            lemma_entries_map_len(self.entries@);
        }
        let ghost before = self.entries@;
        let ghost target = without_idle(entries_map(before), now, ttl);
        let mut entries: Vec<SessionEntry> = Vec::new();
        core::mem::swap(&mut self.entries, &mut entries);
        let total = entries.len();
        let mut removed: usize = 0;
        let mut i: usize = 0;
        while i < entries.len()
            invariant
                i <= entries@.len(),
                ids_distinct(entries@),
                removed + entries@.len() == total,
                before.len() == total,
                forall|k: int| 0 <= k < i ==> !(#[trigger] entries@[k]).session.is_idle(now, ttl),
                without_idle(entries_map(entries@), now, ttl) == target,
            decreases entries@.len() - i,
        {
            if entries[i].session.idle(now, ttl) {
                proof {
                    let cur = entries_map(entries@);
                    let id = entries@[i as int].id@;
                    lemma_entries_map_lookup(entries@, i as int);
                    lemma_entries_map_remove(entries@, i as int);
                    assert(without_idle(cur.remove(id), now, ttl) =~= without_idle(cur, now, ttl));
                }
                let _ = entries.remove(i);
                removed += 1;
            } else {
                i += 1;
            }
        }
        proof {
            let cur = entries_map(entries@);
            lemma_entries_map_dom(entries@);
            lemma_entries_map_len(entries@);
            assert forall|id: Seq<char>| cur.contains_key(id) implies !cur[id].is_idle(
                now,
                ttl,
            ) by {
                let k = choose|k: int| 0 <= k < entries@.len() && #[trigger] entries@[k].id@ == id;
                lemma_entries_map_lookup(entries@, k);
            }
            assert(without_idle(cur, now, ttl) =~= cur);
        }
        self.entries = entries;
        removed
    }
}

/// Seconds between two sweeps of the janitor.
pub const JANITOR_PERIOD_SECONDS: u64 = 60;

/// Seconds that a session may wait for its client before the janitor removes it.
pub const IDLE_TTL_SECONDS: u64 = 60;

/// One sweep of the janitor: removes the sessions that were never fetched
/// within the time-to-live and returns how many were removed; zero where no
/// server was started.
pub fn janitor_sweep(server: &mut Option<TtsStreamingServer>, now: u128) -> (removed: usize)
    ensures
        match (*old(server), *final(server)) {
            (Some(before), Some(after)) => {
                &&& after@ == without_idle(before@, now, seconds_to_nanos(IDLE_TTL_SECONDS))
                &&& removed == before@.len() - after@.len()
                &&& after.port() == before.port()
            },
            (None, None) => removed == 0,
            _ => false,
        },
{
    match stream_cleanup_idle(server, IDLE_TTL_SECONDS, now) {
        Ok(removed) => removed,
        Err(_) => 0,
    }
}

/// What the registry functions answer while no server was started.
pub open spec fn server_unavailable() -> Seq<char> {
    "TTS streaming server not available"@
}

/// Nanoseconds in `seconds` seconds.
pub open spec fn seconds_to_nanos(seconds: u64) -> u128 {
    (seconds * 1_000_000_000) as u128
}

/// Registers a session on the running server and returns the URL under which
/// its audio is pulled. Voice defaults to `alloy`, model to `gpt-4o-mini-tts`,
/// format to `mp3`. Fails where no server was started.
pub fn create_stream_session(
    server: &mut Option<TtsStreamingServer>,
    text: String,
    voice: Option<String>,
    model: Option<String>,
    format: Option<String>,
    instructions: Option<String>,
    api_key: String,
    now: u128,
) -> (r: Result<String, String>)
    ensures
        match (*old(server), *final(server)) {
            (Some(before), Some(after)) => {
                &&& r matches Ok(url)
                &&& after.port() == before.port()
                &&& exists|id: Seq<char>|
                    {
                        &&& id.len() == 36
                        &&& url@ == stream_url(before.port(), id)
                        &&& #[trigger] after@.contains_key(id)
                        &&& after@ == before@.insert(id, after@[id])
                        &&& after@[id].text == text
                        &&& after@[id].voice@ == text_or(voice, "alloy"@)
                        &&& after@[id].model@ == text_or(model, "gpt-4o-mini-tts"@)
                        &&& after@[id].format@ == text_or(format, "mp3"@)
                        &&& after@[id].instructions == instructions
                        &&& after@[id].api_key == api_key
                        &&& after@[id].created_at == now
                        &&& !after@[id].started
                        &&& !after@[id].cancel
                    }
            },
            (None, None) => r matches Err(e) && e@ == server_unavailable(),
            _ => false,
        },
{
    match server {
        Some(running) => {
            let voice = or_default(voice, "alloy");
            let model = or_default(model, "gpt-4o-mini-tts");
            let format = or_default(format, "mp3");
            let id = running.create_session(text, voice, model, format, api_key, instructions, now);
            let url = running.get_stream_url(id.as_str());
            assert(running@.contains_key(id@));
            Ok(url)
        },
        None => Err(String::from_str("TTS streaming server not available")),
    }
}

/// Cancels and removes a session of the running server; says whether it
/// existed. Fails where no server was started.
pub fn stop_stream_session(server: &mut Option<TtsStreamingServer>, session_id: String) -> (r:
    Result<bool, String>)
    ensures
        match (*old(server), *final(server)) {
            (Some(before), Some(after)) => {
                &&& r == Ok::<bool, String>(before@.contains_key(session_id@))
                &&& after@ == before@.remove(session_id@)
                &&& after.port() == before.port()
            },
            (None, None) => r matches Err(e) && e@ == server_unavailable(),
            _ => false,
        },
{
    match server {
        Some(running) => Ok(running.stop_session(session_id.as_str())),
        None => Err(String::from_str("TTS streaming server not available")),
    }
}

/// Number of sessions of the running server; zero where none was started.
pub fn stream_session_count(server: &Option<TtsStreamingServer>) -> (r: Result<usize, String>)
    ensures
        r matches Ok(n) && n == (match server {
            Some(running) => running@.len(),
            None => 0,
        }),
{
    match server {
        Some(running) => Ok(running.count_sessions()),
        None => Ok(0),
    }
}

/// Removes the idle sessions of the running server, with the time-to-live
/// given in seconds, and returns how many were removed; zero where no server
/// was started.
pub fn stream_cleanup_idle(server: &mut Option<TtsStreamingServer>, ttl_seconds: u64, now: u128) -> (r:
    Result<usize, String>)
    ensures
        match (*old(server), *final(server)) {
            (Some(before), Some(after)) => {
                &&& after@ == without_idle(before@, now, seconds_to_nanos(ttl_seconds))
                &&& r matches Ok(removed) && removed == before@.len() - after@.len()
                &&& after.port() == before.port()
            },
            (None, None) => r == Ok::<usize, String>(0),
            _ => false,
        },
{
    match server {
        Some(running) => {
            let ttl: u128 = (ttl_seconds as u128) * 1_000_000_000;
            Ok(running.cleanup_idle(ttl, now))
        },
        None => Ok(0),
    }
}

} // verus!
