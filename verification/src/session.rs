//! Sessions of an entity with an agent.
use vstd::prelude::*;

use crate::ids::{AgentId, EntityId, RoomId, Uuid};
use crate::passages;
use crate::time;
use crate::time::Timestamp;
use crate::types::Metadata;

verus! {

#[derive(Clone, Debug)]
pub struct Session {
    pub id: Uuid,
    pub agent_id: AgentId,
    pub entity_id: EntityId,
    pub room_id: RoomId,
    pub session_key: String,
    pub started_at: Timestamp,
    pub ended_at: Option<Timestamp>,
    pub summary: Option<String>,
    pub metadata: Option<Metadata>,
}

/// The key of the sessions of an entity with an agent over a source.
pub open spec fn key_of(agent_id: AgentId, source: Seq<char>, entity_id: EntityId) -> Seq<char> {
    "agent:"@ + agent_id.text() + ":"@ + source + ":"@ + entity_id.text()
}

impl Session {
    /// The session has just begun, with these identifiers, at this time.
    pub open spec fn is_begun(
        self,
        id: Uuid,
        at: Timestamp,
        agent_id: AgentId,
        entity_id: EntityId,
        room_id: RoomId,
        source: Seq<char>,
    ) -> bool {
        &&& self.id == id
        &&& self.agent_id == agent_id
        &&& self.entity_id == entity_id
        &&& self.room_id == room_id
        &&& self.session_key@ == key_of(agent_id, source, entity_id)
        &&& self.started_at == at
        &&& self.ended_at is None
        &&& self.summary is None
        &&& self.metadata is None
    }

    /// A session that begins at a given time under a given identifier.
    pub fn begin(
        id: Uuid,
        at: Timestamp,
        agent_id: AgentId,
        entity_id: EntityId,
        room_id: RoomId,
        source: &str,
    ) -> (r: Self)
        ensures
            r.is_begun(id, at, agent_id, entity_id, room_id, source@),
    {
        let mut key = "agent:".to_owned();
        key.append(agent_id.to_text().as_str());
        key.append(":");
        key.append(source);
        key.append(":");
        key.append(entity_id.to_text().as_str());
        Session {
            id,
            agent_id,
            entity_id,
            room_id,
            session_key: key,
            started_at: at,
            ended_at: None,
            summary: None,
            metadata: None,
        }
    }

    /// A session that begins now under a random identifier.
    pub fn new(agent_id: AgentId, entity_id: EntityId, room_id: RoomId, source: &str) -> (r: Self)
        ensures
            r.is_begun(r.id, r.started_at, agent_id, entity_id, room_id, source@),
            crate::ids::is_v4(r.id.bits as nat),
            r.started_at.valid(),
    {
        Session::begin(Uuid::new_v4(), time::now(), agent_id, entity_id, room_id, source)
    }

    /// Whether the session has not ended.
    pub fn is_active(&self) -> (r: bool)
        ensures
            r == self.ended_at is None,
    {
        self.ended_at.is_none()
    }

    /// Ends the session at a given time.
    pub fn end_at(&mut self, at: Timestamp)
        ensures
            *final(self) == (Session { ended_at: Some(at), ..*old(self) }),
    {
        self.ended_at = Some(at);
    }

    /// Ends the session now.
    pub fn end(&mut self)
        ensures
            final(self).ended_at is Some,
            final(self).ended_at.unwrap().valid(),
            *final(self) == (Session { ended_at: final(self).ended_at, ..*old(self) }),
    {
        self.end_at(time::now());
    }

    /// The session's length in seconds, rounded towards zero, where it counts as
    /// ended at `now` if it has not ended.
    pub open spec fn seconds(self, now: Timestamp) -> int {
        let end = match self.ended_at {
            Some(t) => t,
            None => now,
        };
        time::whole_seconds(
            self.started_at.secs as int,
            self.started_at.nanos as int,
            end.secs as int,
            end.nanos as int,
        )
    }

    /// The session's times are points in time.
    pub open spec fn times_valid(self) -> bool {
        self.started_at.valid() && (self.ended_at is Some ==> self.ended_at.unwrap().valid())
    }

    /// The session's length in seconds as of `now`.
    pub fn duration_secs_at(&self, now: Timestamp) -> (r: i64)
        requires
            self.times_valid(),
            now.valid(),
        ensures
            r == self.seconds(now),
    {
        let end = match self.ended_at {
            Some(t) => t,
            None => now,
        };
        self.started_at.seconds_until(&end)
    }

    /// The session's length in seconds.
    pub fn duration_secs(&self) -> (r: i64)
        requires
            self.times_valid(),
        ensures
            self.ended_at is Some ==> r == self.seconds(self.ended_at.unwrap()),
            exists|now: Timestamp| now.valid() && r == #[trigger] self.seconds(now),
    {
        let now = time::now();
        let r = self.duration_secs_at(now);
        assert(r == self.seconds(now));
        r
    }
}

/// A session that has ended is not active, and its length stays the same.
pub proof fn ended_session_is_settled(s: Session, at: Timestamp, now: Timestamp, later: Timestamp)
    ensures
        ({
            let ended = Session { ended_at: Some(at), ..s };
            ended.ended_at is Some && ended.seconds(now) == ended.seconds(later)
        }),
{
}

#[derive(Clone, Debug)]
pub struct SessionSummary {
    pub session_id: Uuid,
    pub summary: String,
    pub topics: Vec<String>,
    pub message_count: usize,
    pub created_at: Timestamp,
}

impl SessionSummary {
    pub fn new(session_id: Uuid, summary: String, topics: Vec<String>, message_count: usize) -> (r:
        Self)
        ensures
            r.session_id == session_id,
            r.summary == summary,
            r.topics == topics,
            r.message_count == message_count,
            r.created_at.valid(),
    {
        SessionSummary { session_id, summary, topics, message_count, created_at: time::now() }
    }
}

/// A session is the entity's with the agent in the room, and its key tells the agent, the
/// source and the entity, in this order. All sessions of an entity with an agent over a
/// source have one key, in whatever room and at whatever time.
pub proof fn sessions_are_keyed(
    s: Session,
    id: Uuid,
    at: Timestamp,
    t: Session,
    other: Uuid,
    later: Timestamp,
    agent_id: AgentId,
    entity_id: EntityId,
    room_id: RoomId,
    other_room: RoomId,
    source: Seq<char>,
)
    requires
        s.is_begun(id, at, agent_id, entity_id, room_id, source),
        t.is_begun(other, later, agent_id, entity_id, other_room, source),
    ensures
        s.session_key@ == t.session_key@,
        s.agent_id == agent_id && s.entity_id == entity_id && s.room_id == room_id,
        s.started_at == at && s.ended_at is None,
        passages::in_order(s.session_key@, seq![agent_id.text(), source]),
        passages::in_order(s.session_key@, seq![source, entity_id.text()]),
{
    let e = Seq::<char>::empty();
    let a = agent_id.text();
    let who = entity_id.text();
    let key = key_of(agent_id, source, entity_id);
    passages::lemma_two("agent:"@, a, ":"@, source, ":"@ + who);
    assert("agent:"@ + a + ":"@ + source + (":"@ + who) =~= key);
    passages::lemma_two("agent:"@ + a + ":"@, source, ":"@, who, e);
    assert("agent:"@ + a + ":"@ + source + ":"@ + who + e =~= key);
}

/// A session lasts from its start to its end, or to now where it has not ended: with no
/// leap second at either, as many seconds as lie between the two, less at most a part of
/// one; and one that ended when it began lasted none.
pub proof fn sessions_last(s: Session, now: Timestamp)
    requires
        s.times_valid(),
        now.valid(),
        s.started_at.nanos < 1_000_000_000,
    ensures
        s.ended_at is None && now.nanos < 1_000_000_000 && !now.before(s.started_at) ==> now.secs
            - s.started_at.secs - 1 <= s.seconds(now) <= now.secs - s.started_at.secs,
        s.ended_at is None && now.nanos == s.started_at.nanos ==> s.seconds(now) == now.secs
            - s.started_at.secs,
        s.ended_at == Some(s.started_at) ==> s.seconds(now) == 0,
{
}

} // verus!
