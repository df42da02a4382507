//! The interface over HTTP: what a request asks for, and what is answered.
use vstd::prelude::*;

use crate::character::Character;
use crate::coding;
use crate::coding::CodingEvent;
use crate::error;
use crate::ids;
use crate::ids::{AgentId, Uuid};
use crate::lines;
use crate::metrics::MetricsSnapshot;
use crate::models;
use crate::number;
use crate::outside;
use crate::passages;
use crate::platforms::Incoming;
use crate::text;
use crate::time;
use crate::tools;
use crate::types;
use crate::types::{
    ChannelType, Content, Entity, GetMemoriesParams, Memory, MemoryType, Metadata, Room, StreamEvent,
};

verus! {

// ---------------------------------------------------------------------------
// Refusals
// ---------------------------------------------------------------------------

#[derive(Clone, Debug)]
pub struct ErrorResponse {
    pub error: String,
}

/// A request that is refused: the status and what is said.
#[derive(Clone, Debug)]
pub struct Refusal {
    pub status: u16,
    pub body: ErrorResponse,
}

impl Refusal {
    /// The refusal is this one.
    pub open spec fn is(self, status: u16, error: Seq<char>) -> bool {
        self.status == status && self.body.error@ == error
    }

    /// A refusal.
    pub fn new(status: u16, error: &str) -> (r: Self)
        ensures
            r.is(status, error@),
    {
        Refusal { status, body: ErrorResponse { error: error.to_owned() } }
    }

    /// The refusal for a failure inside.
    pub fn internal(why: &str) -> (r: Self)
        ensures
            r.is(500, why@),
    {
        Refusal::new(500, why)
    }
}

// ---------------------------------------------------------------------------
// The agent
// ---------------------------------------------------------------------------

#[derive(Clone, Debug)]
pub struct HealthResponse {
    pub status: String,
    pub agent: String,
    pub version: String,
}

/// How the agent is.
pub fn health(agent_name: &str, version: &str) -> (r: HealthResponse)
    ensures
        r.status@ == "ok"@,
        r.agent@ == agent_name@,
        r.version@ == version@,
{
    HealthResponse {
        status: "ok".to_owned(),
        agent: agent_name.to_owned(),
        version: version.to_owned(),
    }
}

#[derive(Clone, Debug)]
pub struct AgentInfoResponse {
    pub agent_id: String,
    pub name: String,
    pub bio: String,
    pub topics: Vec<String>,
}

/// Who the agent is.
pub fn get_agent(agent_id: AgentId, character: &Character) -> (r: AgentInfoResponse)
    ensures
        r.agent_id@ == agent_id.text(),
        r.name@ == character.name@,
        r.bio@ == lines::joined(text::texts(character.bio@), " "@),
        text::texts(r.topics@) == text::texts(character.topics@),
{
    AgentInfoResponse {
        agent_id: agent_id.to_text(),
        name: character.name.clone(),
        bio: character.bio_text(),
        topics: models::copy_texts(&character.topics),
    }
}

/// The counts that are shown: all of them zero where nothing is counted.
pub fn metrics_snapshot(counted: Option<MetricsSnapshot>) -> (r: MetricsSnapshot)
    ensures
        r == (match counted {
            Some(m) => m,
            None => MetricsSnapshot {
                messages_processed: 0,
                messages_skipped: 0,
                avg_total_ms: 0,
                avg_compose_ms: 0,
                avg_should_respond_ms: 0,
                avg_generate_ms: 0,
                api_errors: 0,
                api_retries: 0,
            },
        }),
{
    match counted {
        Some(m) => m,
        None => MetricsSnapshot {
            messages_processed: 0,
            messages_skipped: 0,
            avg_total_ms: 0,
            avg_compose_ms: 0,
            avg_should_respond_ms: 0,
            avg_generate_ms: 0,
            api_errors: 0,
            api_retries: 0,
        },
    }
}

// ---------------------------------------------------------------------------
// Messages
// ---------------------------------------------------------------------------

#[derive(Clone, Debug)]
pub struct SendMessageRequest {
    pub text: String,
    pub room_id: String,
    pub entity_id: String,
}

#[derive(Clone, Debug)]
pub struct SendMessageResponse {
    pub responses: Vec<MessageResponse>,
}

#[derive(Clone, Debug)]
pub struct MessageResponse {
    pub id: String,
    pub text: Option<String>,
    pub actions: Option<Vec<String>>,
}

/// The identifier that a parameter gives, or the refusal for one that gives none.
pub fn parse_id(s: &str, refusal: &str) -> (r: Result<Uuid, Refusal>)
    ensures
        match r {
            Ok(u) => outside::uuid_parsed(s@) == Some(u.bits),
            Err(e) => outside::uuid_parsed(s@) is None && e.is(400, refusal@),
        },
{
    match Uuid::parse_str(s) {
        Some(u) => Ok(u),
        None => Err(Refusal::new(400, refusal)),
    }
}

/// The message that a request sends.
pub open spec fn message_sent(
    m: Memory,
    agent_id: AgentId,
    entity_id: Uuid,
    room_id: Uuid,
    said: Seq<char>,
) -> bool {
    &&& m.created_at is Some
    &&& m.created_at.unwrap().valid()
    &&& ids::is_v4(m.id.bits as nat)
    &&& m.is_message(m.id, m.created_at.unwrap(), agent_id, entity_id, room_id)
    &&& m.content.is(Some(said), None, None)
}

/// A request sends this message, or is refused for this: the room is looked at first.
pub open spec fn sends(
    req: SendMessageRequest,
    agent_id: AgentId,
    r: Result<Memory, Refusal>,
) -> bool {
    match r {
        Ok(m) => {
            &&& outside::uuid_parsed(req.room_id@) == Some(m.room_id.bits)
            &&& outside::uuid_parsed(req.entity_id@) == Some(m.entity_id.bits)
            &&& message_sent(m, agent_id, m.entity_id, m.room_id, req.text@)
        },
        Err(e) => if outside::uuid_parsed(req.room_id@) is None {
            e.is(400, "invalid room_id"@)
        } else {
            outside::uuid_parsed(req.entity_id@) is None && e.is(400, "invalid entity_id"@)
        },
    }
}

/// The message that a request sends, or why it is refused: the room is looked at
/// first.
pub fn send_message(req: &SendMessageRequest, agent_id: AgentId) -> (r: Result<Memory, Refusal>)
    ensures
        sends(*req, agent_id, r),
{
    let room_id = match parse_id(req.room_id.as_str(), "invalid room_id") {
        Ok(id) => id,
        Err(e) => {
            return Err(e);
        },
    };
    let entity_id = match parse_id(req.entity_id.as_str(), "invalid entity_id") {
        Ok(id) => id,
        Err(e) => {
            return Err(e);
        },
    };
    Ok(Memory::new_message(agent_id, entity_id, room_id, Content::text(req.text.as_str())))
}

/// What is answered for a response.
pub open spec fn answers(r: MessageResponse, m: Memory) -> bool {
    &&& r.id@ == m.id.text()
    &&& text::opt_text(r.text) == text::opt_text(m.content.text)
    &&& types::opt_texts(r.actions) == types::opt_texts(m.content.actions)
}

/// What is answered for the responses to a message.
pub fn message_responses(responses: &Vec<Memory>) -> (r: SendMessageResponse)
    ensures
        r.responses@.len() == responses@.len(),
        forall|i: int|
            0 <= i < responses@.len() ==> answers(#[trigger] r.responses@[i], responses@[i]),
{
    let mut out: Vec<MessageResponse> = Vec::new();
    let mut i: usize = 0;
    while i < responses.len()
        invariant
            i <= responses@.len(),
            out@.len() == i,
            forall|k: int| 0 <= k < i ==> answers(#[trigger] out@[k], responses@[k]),
        decreases responses.len() - i,
    {
        let m = &responses[i];
        let actions = match &m.content.actions {
            Some(a) => Some(models::copy_texts(a)),
            None => None,
        };
        out.push(
            MessageResponse { id: m.id.to_text(), text: m.content.text.clone(), actions },
        );
        i = i + 1;
    }
    SendMessageResponse { responses: out }
}

/// An event of a stream of events: its name and its data.
#[derive(Clone, Debug)]
pub struct NamedEvent {
    pub event: String,
    pub data: String,
}

impl NamedEvent {
    /// The event is this one.
    pub open spec fn is(self, event: Seq<char>, data: Seq<char>) -> bool {
        self.event@ == event && self.data@ == data
    }

    /// An event.
    fn new(event: &str, data: String) -> (r: Self)
        ensures
            r.is(event@, data@),
    {
        NamedEvent { event: event.to_owned(), data }
    }
}

/// The event tells of a step of a streamed response.
pub open spec fn tells_of(r: NamedEvent, event: StreamEvent) -> bool {
    match event {
        StreamEvent::Token(t) => r.is("token"@, t@),
        StreamEvent::Done { full_text } => r.is("done"@, full_text@),
        StreamEvent::Error(e) => r.is("error"@, e@),
    }
}

/// The event for a step of a streamed response.
pub fn stream_event(event: &StreamEvent) -> (r: NamedEvent)
    ensures
        tells_of(r, *event),
{
    match event {
        StreamEvent::Token(t) => NamedEvent::new("token", t.clone()),
        StreamEvent::Done { full_text } => NamedEvent::new("done", full_text.clone()),
        StreamEvent::Error(e) => NamedEvent::new("error", e.clone()),
    }
}

// ---------------------------------------------------------------------------
// Rooms and memories
// ---------------------------------------------------------------------------

#[derive(Clone, Debug)]
pub struct RoomResponse {
    pub id: String,
    pub name: Option<String>,
    pub source: String,
    pub channel_type: String,
}

/// What is answered for a room.
pub open spec fn shows_room(r: RoomResponse, room: Room) -> bool {
    &&& r.id@ == room.id.text()
    &&& text::opt_text(r.name) == text::opt_text(room.name)
    &&& r.source@ == room.source@
    &&& r.channel_type@ == room.channel_type.shown_name()
}

/// What is answered for a room.
pub fn room_response(room: &Room) -> (r: RoomResponse)
    ensures
        shows_room(r, *room),
{
    RoomResponse {
        id: room.id.to_text(),
        name: room.name.clone(),
        source: room.source.clone(),
        channel_type: room.channel_type.label().to_owned(),
    }
}

/// What is answered for a room that was looked for.
pub fn get_room(found: &Option<Room>) -> (r: Result<RoomResponse, Refusal>)
    ensures
        match (r, *found) {
            (Ok(a), Some(room)) => shows_room(a, room),
            (Err(e), None) => e.is(404, "room not found"@),
            _ => false,
        },
{
    match found {
        Some(room) => Ok(room_response(room)),
        None => Err(Refusal::new(404, "room not found")),
    }
}

#[derive(Clone, Debug)]
pub struct CreateRoomRequest {
    pub name: Option<String>,
    pub source: Option<String>,
}

/// A request creates this room, under a random identifier.
pub open spec fn creates(req: CreateRoomRequest, agent_id: AgentId, r: Room) -> bool {
    &&& ids::is_v4(r.id.bits as nat)
    &&& r.agent_id == agent_id
    &&& r.source@ == (match req.source {
        Some(s) => s@,
        None => "api"@,
    })
    &&& r.channel_type == ChannelType::Api
    &&& text::opt_text(r.name) == text::opt_text(req.name)
    &&& r.channel_id is None
    &&& r.world_id is None
    &&& r.metadata is None
    &&& r.created_at is Some
    &&& r.created_at.unwrap().valid()
}

/// The room that a request creates, under a random identifier.
pub fn create_room(req: &CreateRoomRequest, agent_id: AgentId) -> (r: Room)
    ensures
        creates(*req, agent_id, r),
{
    let source = match &req.source {
        Some(s) => s.clone(),
        None => "api".to_owned(),
    };
    Room {
        id: Uuid::new_v4(),
        agent_id,
        source,
        channel_type: ChannelType::Api,
        name: req.name.clone(),
        channel_id: None,
        world_id: None,
        metadata: None,
        created_at: Some(time::now()),
    }
}

/// The status that answers the creation of a room.
pub const CREATED: u16 = 201;

/// These memories are shown of a room: at most the last fifty messages.
pub open spec fn looks_into(p: GetMemoriesParams, room_id: Uuid, agent_id: AgentId) -> bool {
    &&& p.room_id == Some(room_id)
    &&& p.agent_id == Some(agent_id)
    &&& p.entity_id is None
    &&& p.memory_type == Some(MemoryType::Message)
    &&& p.unique is None
    &&& p.count == Some(50usize)
}

/// The memories that are shown of a room: at most the last fifty messages.
pub fn memories_params(room_id: Uuid, agent_id: AgentId) -> (r: GetMemoriesParams)
    ensures
        looks_into(r, room_id, agent_id),
{
    GetMemoriesParams {
        room_id: Some(room_id),
        agent_id: Some(agent_id),
        entity_id: None,
        memory_type: Some(MemoryType::Message),
        unique: None,
        count: Some(50),
    }
}

#[derive(Clone, Debug)]
pub struct MemoryResponse {
    pub id: String,
    pub text: Option<String>,
    pub entity_id: String,
    pub memory_type: String,
    pub created_at: Option<String>,
}

/// What is answered for a memory.
pub open spec fn shows_memory(r: MemoryResponse, m: Memory) -> bool {
    &&& r.id@ == m.id.text()
    &&& text::opt_text(r.text) == text::opt_text(m.content.text)
    &&& r.entity_id@ == m.entity_id.text()
    &&& r.memory_type@ == m.memory_type.shown_name()
    &&& text::opt_text(r.created_at) == (match m.created_at {
        Some(t) => Some(t.text()),
        None => None,
    })
}

/// The times of memories are valid.
pub open spec fn times_are_valid(memories: Seq<Memory>) -> bool {
    forall|i: int|
        0 <= i < memories.len() && (#[trigger] memories[i]).created_at is Some
            ==> memories[i].created_at.unwrap().valid()
}

/// What is answered for memories.
pub fn memory_responses(memories: &Vec<Memory>) -> (r: Vec<MemoryResponse>)
    requires
        times_are_valid(memories@),
    ensures
        r@.len() == memories@.len(),
        forall|i: int| 0 <= i < memories@.len() ==> shows_memory(#[trigger] r@[i], memories@[i]),
{
    let mut out: Vec<MemoryResponse> = Vec::new();
    let mut i: usize = 0;
    while i < memories.len()
        invariant
            i <= memories@.len(),
            times_are_valid(memories@),
            out@.len() == i,
            forall|k: int| 0 <= k < i ==> shows_memory(#[trigger] out@[k], memories@[k]),
        decreases memories.len() - i,
    {
        let m = &memories[i];
        assert(memories@[i as int].created_at is Some ==> m.created_at.unwrap().valid());
        let created_at = match &m.created_at {
            Some(t) => Some(t.to_rfc3339()),
            None => None,
        };
        out.push(
            MemoryResponse {
                id: m.id.to_text(),
                text: m.content.text.clone(),
                entity_id: m.entity_id.to_text(),
                memory_type: m.memory_type.label().to_owned(),
                created_at,
            },
        );
        i = i + 1;
    }
    out
}

// ---------------------------------------------------------------------------
// Webhooks
// ---------------------------------------------------------------------------

#[derive(Clone, Debug)]
pub struct WebhookRequest {
    pub text: String,
    pub source: String,
    pub entity_name: Option<String>,
    pub room_name: Option<String>,
    pub metadata: Option<Metadata>,
}

/// What a webhook brings about: a new entity, a new room, and the message.
pub open spec fn webhook_brings(req: WebhookRequest, agent_id: AgentId, r: Incoming) -> bool {
    &&& ids::is_v4(r.entity.id.bits as nat)
    &&& r.entity.agent_id == agent_id
    &&& text::texts(r.entity.names@) == seq![
        match req.entity_name {
            Some(n) => n@,
            None => "webhook"@,
        },
    ]
    &&& r.entity.metadata == req.metadata
    &&& r.entity.created_at is Some
    &&& r.entity.created_at.unwrap().valid()
    &&& ids::is_v4(r.room.id.bits as nat)
    &&& r.room.agent_id == agent_id
    &&& r.room.source@ == req.source@
    &&& r.room.channel_type == ChannelType::Api
    &&& text::opt_text(r.room.name) == Some(
        match req.room_name {
            Some(n) => n@,
            None => "webhook-"@ + req.source@,
        },
    )
    &&& r.room.channel_id is None
    &&& r.room.world_id is None
    &&& r.room.metadata is None
    &&& r.room.created_at is Some
    &&& r.room.created_at.unwrap().valid()
    &&& crate::platforms::is_said(
        r.memory,
        agent_id,
        r.entity.id,
        r.room.id,
        req.text@,
        req.source@,
    )
}

/// What a webhook brings about.
pub fn webhook(req: WebhookRequest, agent_id: AgentId) -> (r: Incoming)
    ensures
        webhook_brings(req, agent_id, r),
{
    let entity_id = Uuid::new_v4();
    let room_id = Uuid::new_v4();
    let name = match req.entity_name {
        Some(n) => n,
        None => "webhook".to_owned(),
    };
    let ghost shown = name@;
    let mut names: Vec<String> = Vec::new();
    names.push(name);
    assert(text::texts(names@) =~= seq![shown]);
    let entity = Entity {
        id: entity_id,
        agent_id,
        names,
        metadata: req.metadata,
        created_at: Some(time::now()),
    };
    let room_name = match req.room_name {
        Some(n) => n,
        None => error::prefixed("webhook-", req.source.as_str()),
    };
    let room = Room {
        id: room_id,
        agent_id,
        source: req.source.clone(),
        channel_type: ChannelType::Api,
        name: Some(room_name),
        channel_id: None,
        world_id: None,
        metadata: None,
        created_at: Some(time::now()),
    };
    let memory = Memory::new_message(
        agent_id,
        entity_id,
        room_id,
        Content::text_from(req.text, req.source.as_str()),
    );
    Incoming { entity, room, memory }
}

// ---------------------------------------------------------------------------
// The project and its tasks
// ---------------------------------------------------------------------------

#[derive(Clone, Debug)]
pub struct TaskRequest {
    pub task: String,
}

#[derive(Clone, Debug)]
pub struct SetProjectRequest {
    pub path: String,
}

#[derive(Clone, Debug)]
pub struct ProjectResponse {
    pub path: Option<String>,
}

#[derive(Clone, Debug)]
pub struct FileEntry {
    pub path: String,
    pub status: Option<String>,
}

#[derive(Clone, Debug)]
pub struct ReadFileQuery {
    pub path: String,
}

/// The directory in which a task runs, or the refusal where none is set.
pub fn task_dir(project_dir: &Option<String>) -> (r: Result<String, Refusal>)
    ensures
        match (r, *project_dir) {
            (Ok(d), Some(p)) => d@ == p@,
            (Err(e), None) => e.is(
                400,
                "no project directory set — use /project <path> first"@,
            ),
            _ => false,
        },
{
    match project_dir {
        Some(p) => Ok(p.clone()),
        None => Err(Refusal::new(400, "no project directory set — use /project <path> first")),
    }
}

/// The project's directory, or the refusal where none is set.
pub fn require_project(project_dir: &Option<String>) -> (r: Result<String, Refusal>)
    ensures
        match (r, *project_dir) {
            (Ok(d), Some(p)) => d@ == p@,
            (Err(e), None) => e.is(400, "no project set"@),
            _ => false,
        },
{
    match project_dir {
        Some(p) => Ok(p.clone()),
        None => Err(Refusal::new(400, "no project set")),
    }
}

/// The JSON text of an object with two texts.
pub open spec fn two_texts(k1: Seq<char>, v1: Seq<char>, k2: Seq<char>, v2: Seq<char>) -> Seq<char> {
    "{\""@ + k1 + "\":"@ + outside::json_string(v1) + ",\""@ + k2 + "\":"@ + outside::json_string(
        v2,
    ) + "}"@
}

/// The JSON text of an object with two texts.
fn two_texts_json(k1: &str, v1: &str, k2: &str, v2: &str) -> (r: String)
    ensures
        r@ == two_texts(k1@, v1@, k2@, v2@),
{
    let mut out = error::prefixed("{\"", k1);
    out.append("\":");
    out.append(outside::json_write_string(v1).as_str());
    out.append(",\"");
    out.append(k2);
    out.append("\":");
    out.append(outside::json_write_string(v2).as_str());
    out.append("}");
    out
}

/// The event tells of a step of a task.
pub open spec fn tells_step(r: NamedEvent, event: CodingEvent) -> bool {
    match event {
        CodingEvent::Status(s) => r.is("status"@, s@),
        CodingEvent::Thinking(s) => r.is("thinking"@, s@),
        CodingEvent::Tool(s) => r.is("tool"@, s@),
        CodingEvent::Output(s) => r.is("output"@, s@),
        CodingEvent::Done(s) => r.is("done"@, s@),
        CodingEvent::Error(s) => r.is("error"@, s@),
        CodingEvent::Workspace { branch, dir } => r.is(
            "workspace"@,
            two_texts("branch"@, branch@, "dir"@, dir@),
        ),
        CodingEvent::FileChanged { path, action } => r.is(
            "file-changed"@,
            two_texts("action"@, action@, "path"@, path@),
        ),
        CodingEvent::Iteration(n) => r.is("iteration"@, number::decimal(n as nat)),
    }
}

/// The event for a step of a task.
pub fn task_event(event: &CodingEvent) -> (r: NamedEvent)
    ensures
        tells_step(r, *event),
{
    match event {
        CodingEvent::Status(s) => NamedEvent::new("status", s.clone()),
        CodingEvent::Thinking(s) => NamedEvent::new("thinking", s.clone()),
        CodingEvent::Tool(s) => NamedEvent::new("tool", s.clone()),
        CodingEvent::Output(s) => NamedEvent::new("output", s.clone()),
        CodingEvent::Done(s) => NamedEvent::new("done", s.clone()),
        CodingEvent::Error(s) => NamedEvent::new("error", s.clone()),
        CodingEvent::Workspace { branch, dir } => NamedEvent::new(
            "workspace",
            two_texts_json("branch", branch.as_str(), "dir", dir.as_str()),
        ),
        CodingEvent::FileChanged { path, action } => NamedEvent::new(
            "file-changed",
            two_texts_json("action", action.as_str(), "path", path.as_str()),
        ),
        CodingEvent::Iteration(n) => NamedEvent::new("iteration", number::decimal_text(*n as u64)),
    }
}

/// A path in which a leading tilde stands for the home directory, where that is
/// known.
pub open spec fn expanded(path: Seq<char>, home: Option<Seq<char>>) -> Seq<char> {
    if path.len() > 0 && path[0] == '~' && home is Some {
        home.unwrap() + path.drop_first()
    } else {
        path
    }
}

/// A path in the home directory leads on from there; any other path stays as it is, and so
/// does every path where the home directory is not known.
pub proof fn homes_are_found(rest: Seq<char>, home: Seq<char>, path: Seq<char>)
    ensures
        expanded(seq!['~'] + rest, Some(home)) == home + rest,
        expanded(path, None) == path,
        path.len() == 0 || path[0] != '~' ==> expanded(path, Some(home)) == path,
{
    assert((seq!['~'] + rest).drop_first() =~= rest);
}

/// A path in which a leading tilde stands for the home directory.
pub fn expand_home(path: &str, home: &Option<String>) -> (r: String)
    ensures
        r@ == expanded(path@, text::opt_text(*home)),
{
    let cs = text::chars_of(path);
    match home {
        Some(h) => if cs.len() > 0 && cs[0] == '~' {
            let rest = text::text_between(&cs, 1, cs.len());
            assert(rest@ =~= path@.drop_first());
            error::prefixed(h.as_str(), rest.as_str())
        } else {
            path.to_owned()
        },
        None => path.to_owned(),
    }
}

/// The project that is set, from what the file system says of the path: its
/// canonical form or why there is none, and whether it is a directory.
pub fn set_project(
    canonical: &Result<String, String>,
    is_dir: bool,
) -> (r: Result<ProjectResponse, Refusal>)
    ensures
        match *canonical {
            Err(why) => r is Err && r->Err_0.is(400, "invalid path: "@ + why@),
            Ok(p) => if is_dir {
                r is Ok && text::opt_text(r->Ok_0.path) == Some(p@)
            } else {
                r is Err && r->Err_0.is(400, "path is not a directory"@)
            },
        },
{
    match canonical {
        Err(why) => Err(Refusal::new(400, error::prefixed("invalid path: ", why.as_str()).as_str())),
        Ok(p) => if is_dir {
            Ok(ProjectResponse { path: Some(p.clone()) })
        } else {
            Err(Refusal::new(400, "path is not a directory"))
        },
    }
}

/// The command that lists the files of a project.
pub const FILES_COMMAND: &'static str =
    "find . -maxdepth 4 -type f -not -path '*/target/*' -not -path '*/.git/*' -not -path '*/node_modules/*' 2>/dev/null | sed 's|^\\./||' | sort | head -300";

/// The command that shows what was changed in a project.
pub const DIFF_COMMAND: &'static str =
    "git diff HEAD 2>/dev/null; git ls-files --others --exclude-standard 2>/dev/null | xargs -I {} sh -c 'echo \"--- /dev/null\"; echo \"+++ b/{}\"; cat {} | head -200'";

/// What a status says was done to a file.
pub open spec fn file_status(status: Seq<char>) -> Seq<char> {
    if status == "M"@ || status == "MM"@ {
        "modified"@
    } else if status == "A"@ || status == "??"@ {
        "added"@
    } else if status == "D"@ {
        "deleted"@
    } else {
        "changed"@
    }
}

/// What a status says was done to a file.
fn status_word(status: &str) -> (r: &'static str)
    ensures
        r@ == file_status(status@),
{
    if text::same(status, "M") || text::same(status, "MM") {
        "modified"
    } else if text::same(status, "A") || text::same(status, "??") {
        "added"
    } else if text::same(status, "D") {
        "deleted"
    } else {
        "changed"
    }
}

/// What the last of the first `n` entries with this path says was done to the
/// file.
pub open spec fn last_status(
    entries: Seq<(Seq<char>, Seq<char>)>,
    path: Seq<char>,
    n: nat,
) -> Option<Seq<char>>
    decreases n,
{
    if n == 0 {
        None
    } else if entries[n - 1].1 == path {
        Some(file_status(entries[n - 1].0))
    } else {
        last_status(entries, path, (n - 1) as nat)
    }
}

/// What the last entry with this path says was done to the file.
fn find_status(entries: &Vec<(String, String)>, path: &str) -> (r: Option<String>)
    ensures
        text::opt_text(r) == last_status(
            coding::pair_views(entries@),
            path@,
            entries@.len(),
        ),
{
    let ghost all = coding::pair_views(entries@);
    let mut n: usize = entries.len();
    while n > 0
        invariant
            n <= entries@.len() == all.len(),
            all == coding::pair_views(entries@),
            last_status(all, path@, all.len()) == last_status(all, path@, n as nat),
        decreases n,
    {
        assert(all[n - 1] == (entries@[n - 1].0@, entries@[n - 1].1@));
        if text::same(entries[n - 1].1.as_str(), path) {
            return Some(status_word(entries[n - 1].0.as_str()).to_owned());
        }
        n = n - 1;
    }
    None
}

/// What is answered for a file.
pub open spec fn shows_file(
    e: FileEntry,
    path: Seq<char>,
    entries: Seq<(Seq<char>, Seq<char>)>,
) -> bool {
    e.path@ == path && text::opt_text(e.status) == last_status(entries, path, entries.len())
}

/// The files of a project and what was done to each, from what the commands
/// printed that list the files and their statuses.
pub fn list_files(listed: &str, statuses: &str) -> (r: Vec<FileEntry>)
    requires
        coding::listing_cuts(lines::lines_of(statuses@)),
    ensures
        r@.len() == lines::lines_of(listed@).len(),
        forall|i: int|
            0 <= i < r@.len() ==> shows_file(
                #[trigger] r@[i],
                lines::lines_of(listed@)[i],
                coding::status_entries(lines::lines_of(statuses@)),
            ),
{
    let entries = coding::read_listing(statuses);
    let paths = lines::lines(listed);
    let ghost all = text::texts(paths@);
    let ghost known = coding::pair_views(entries@);
    assert(known.len() == entries@.len());
    let mut out: Vec<FileEntry> = Vec::new();
    let mut i: usize = 0;
    while i < paths.len()
        invariant
            i <= paths@.len() == all.len(),
            all == text::texts(paths@),
            known == coding::pair_views(entries@),
            known.len() == entries@.len(),
            out@.len() == i,
            forall|k: int| 0 <= k < i ==> shows_file(#[trigger] out@[k], all[k], known),
        decreases paths.len() - i,
    {
        assert(all[i as int] == paths@[i as int]@);
        let status = find_status(&entries, paths[i].as_str());
        out.push(FileEntry { path: paths[i].clone(), status });
        i = i + 1;
    }
    out
}

/// Whether a file may be read: refused where it lies outside the project.
pub fn check_inside(path: &Vec<String>, project: &Vec<String>) -> (r: Result<(), Refusal>)
    ensures
        match r {
            Ok(_) => tools::lies_within(text::texts(path@), text::texts(project@)),
            Err(e) => !tools::lies_within(text::texts(path@), text::texts(project@)) && e.is(
                403,
                "outside project"@,
            ),
        },
{
    if tools::is_within(path, project) {
        Ok(())
    } else {
        Err(Refusal::new(403, "outside project"))
    }
}

// ---------------------------------------------------------------------------
// What comes in and what is shown
// ---------------------------------------------------------------------------

/// A request sends its own text, from the entity and in the room that it names. It is
/// refused exactly when it names one of the two in a way that cannot be read, with the
/// refusal that tells which, the room before the entity.
pub proof fn requests_send_their_text(
    req: SendMessageRequest,
    agent_id: AgentId,
    r: Result<Memory, Refusal>,
)
    requires
        sends(req, agent_id, r),
    ensures
        r is Ok <==> outside::uuid_parsed(req.room_id@) is Some && outside::uuid_parsed(
            req.entity_id@,
        ) is Some,
        r is Ok ==> outside::uuid_parsed(req.room_id@) == Some(r->Ok_0.room_id.bits)
            && outside::uuid_parsed(req.entity_id@) == Some(r->Ok_0.entity_id.bits)
            && r->Ok_0.agent_id == agent_id && text::opt_text(r->Ok_0.content.text) == Some(
            req.text@,
        ),
        r is Err ==> r->Err_0.status == 400,
        r is Err ==> (text::has(r->Err_0.body.error@, "room"@) <==> outside::uuid_parsed(
            req.room_id@,
        ) is None),
{
    if r is Err {
        let said = r->Err_0.body.error@;
        reveal_strlit("invalid room_id");
        reveal_strlit("invalid entity_id");
        reveal_strlit("room");
        if outside::uuid_parsed(req.room_id@) is None {
            assert(said.subrange(8, 12) =~= "room"@);
            assert(text::occurs_at(said, "room"@, 8));
        } else if text::has(said, "room"@) {
            let i = choose|i: int| #[trigger] text::occurs_at(said, "room"@, i);
            let part = said.subrange(i, i + 4);
            assert(part[0] == 'r' && part[0] == said[i]);
            assert(false);
        }
    }
}

/// A message that a request sends is among those that are looked for when the room is
/// shown, and for no other room.
pub proof fn sent_messages_are_looked_for(
    req: SendMessageRequest,
    agent_id: AgentId,
    r: Result<Memory, Refusal>,
    room_id: Uuid,
    p: GetMemoriesParams,
)
    requires
        sends(req, agent_id, r),
        r is Ok,
        looks_into(p, room_id, agent_id),
    ensures
        p.agent_id == Some(r->Ok_0.agent_id),
        p.memory_type == Some(r->Ok_0.memory_type),
        p.entity_id is None,
        p.count is Some && p.count.unwrap() > 0,
        p.room_id == Some(r->Ok_0.room_id) <==> outside::uuid_parsed(req.room_id@) == Some(
            room_id.bits,
        ),
{
}

/// What is shown of a memory and what is answered for a response tell the memory: two
/// memories are shown alike only where they have the same text, and their identifiers,
/// senders and times read the same.
pub proof fn memories_are_shown(
    r: MemoryResponse,
    answer: MessageResponse,
    m: Memory,
    s: MemoryResponse,
    n: Memory,
)
    requires
        shows_memory(r, m),
        answers(answer, m),
        shows_memory(s, n),
    ensures
        r.id@ == answer.id@,
        text::opt_text(r.text) == text::opt_text(answer.text),
        text::opt_text(r.text) == text::opt_text(m.content.text),
        types::opt_texts(answer.actions) == types::opt_texts(m.content.actions),
        r.id@ == s.id@ <==> m.id.text() == n.id.text(),
        r.entity_id@ == s.entity_id@ <==> m.entity_id.text() == n.entity_id.text(),
        m.created_at is Some ==> text::opt_text(r.created_at) == Some(m.created_at.unwrap().text()),
        m.created_at is None <==> r.created_at is None,
{
}

/// The events of a streamed response carry its words, and their names tell a piece, the
/// end and a failure apart.
pub proof fn stream_events_carry_the_words(
    token: Seq<char>,
    whole: Seq<char>,
    why: Seq<char>,
    t: StreamEvent,
    d: StreamEvent,
    e: StreamEvent,
    r: NamedEvent,
    s: NamedEvent,
    u: NamedEvent,
)
    requires
        t is Token && t->Token_0@ == token,
        d is Done && d->full_text@ == whole,
        e is Error && e->Error_0@ == why,
        tells_of(r, t),
        tells_of(s, d),
        tells_of(u, e),
    ensures
        r.data@ == token,
        s.data@ == whole,
        u.data@ == why,
        r.event@ == "token"@,
        r.event@ != s.event@,
        s.event@ != u.event@,
        u.event@ != r.event@,
{
    reveal_strlit("token");
    reveal_strlit("done");
    reveal_strlit("error");
    assert("token"@[0] == 't' && "done"@[0] == 'd' && "error"@[0] == 'e');
}

/// A request creates a room of the agent under the name and source that it gives.
pub proof fn rooms_are_created(req: CreateRoomRequest, agent_id: AgentId, r: Room)
    requires
        creates(req, agent_id, r),
    ensures
        r.agent_id == agent_id,
        r.channel_type == ChannelType::Api,
        text::opt_text(r.name) == text::opt_text(req.name),
        req.source is Some ==> r.source@ == req.source.unwrap()@,
        req.source is None ==> r.source@ == "api"@,
{
}

/// What a webhook brings is kept as what a platform brings is: the message with the text,
/// from the entity and in the room that come with it, under the names that are given.
pub proof fn webhooks_are_kept(req: WebhookRequest, agent_id: AgentId, r: Incoming)
    requires
        webhook_brings(req, agent_id, r),
    ensures
        crate::platforms::belongs_together(r, agent_id),
        text::opt_text(r.memory.content.text) == Some(req.text@),
        r.room.source@ == req.source@,
        req.entity_name is Some ==> text::texts(r.entity.names@).contains(
            req.entity_name.unwrap()@,
        ),
        req.room_name is Some ==> text::opt_text(r.room.name) == text::opt_text(req.room_name),
        req.room_name is None ==> r.room.name is Some && text::has(
            r.room.name.unwrap()@,
            req.source@,
        ),
        r.entity.metadata == req.metadata,
{
    assert(text::texts(r.entity.names@)[0] == text::texts(r.entity.names@).last());
    if req.room_name is None {
        passages::lemma_stands("webhook-"@, req.source@, Seq::empty());
        assert("webhook-"@ + req.source@ + Seq::<char>::empty() =~= r.room.name.unwrap()@);
    }
}

/// The events of a task carry what they tell, and their names tell what kind of step it
/// was: two steps of different kinds never go by one name.
#[verifier::rlimit(50)]
pub proof fn task_events_carry_their_text(
    r: NamedEvent,
    event: CodingEvent,
    s: NamedEvent,
    other: CodingEvent,
)
    requires
        tells_step(r, event),
        tells_step(s, other),
    ensures
        event is Status ==> r.data@ == event->Status_0@,
        event is Thinking ==> r.data@ == event->Thinking_0@,
        event is Tool ==> r.data@ == event->Tool_0@,
        event is Output ==> r.data@ == event->Output_0@,
        event is Done ==> r.data@ == event->Done_0@,
        event is Error ==> r.data@ == event->Error_0@,
        event is Iteration ==> r.data@ == number::decimal(event->Iteration_0 as nat),
        r.event@ == s.event@ ==> (event is Status <==> other is Status) && (event is Thinking
            <==> other is Thinking) && (event is Tool <==> other is Tool) && (event is Output
            <==> other is Output) && (event is Done <==> other is Done) && (event is Error
            <==> other is Error) && (event is Workspace <==> other is Workspace) && (
        event is FileChanged <==> other is FileChanged) && (event is Iteration
            <==> other is Iteration),
        event is Done ==> r.event@ == "done"@,
        event is Error ==> r.event@ == "error"@,
{
    reveal_strlit("status");
    reveal_strlit("thinking");
    reveal_strlit("tool");
    reveal_strlit("output");
    reveal_strlit("done");
    reveal_strlit("error");
    reveal_strlit("workspace");
    reveal_strlit("file-changed");
    reveal_strlit("iteration");
    assert("status"@[0] == 's' && "thinking"@[0] == 't' && "thinking"@[1] == 'h' && "tool"@[0] == 't'
        && "tool"@[1] == 'o' && "output"@[0] == 'o' && "done"@[0] == 'd' && "error"@[0] == 'e'
        && "workspace"@[0] == 'w' && "file-changed"@[0] == 'f' && "iteration"@[0] == 'i');
}

/// The event of a workspace names its branch and its directory, and that of a file what was
/// done to it and its path, each behind its key.
pub proof fn task_events_name_their_texts(r: NamedEvent, event: CodingEvent)
    requires
        tells_step(r, event),
    ensures
        event is Workspace ==> passages::in_order(
            r.data@,
            seq![
                "branch"@,
                outside::json_string(event->branch@),
                "dir"@,
                outside::json_string(event->dir@),
            ],
        ),
        event is FileChanged ==> passages::in_order(
            r.data@,
            seq![
                "action"@,
                outside::json_string(event->action@),
                "path"@,
                outside::json_string(event->path@),
            ],
        ),
{
    if event is Workspace {
        lemma_two_texts("branch"@, event->branch@, "dir"@, event->dir@);
    }
    if event is FileChanged {
        lemma_two_texts("action"@, event->action@, "path"@, event->path@);
    }
}

proof fn lemma_two_texts(k1: Seq<char>, v1: Seq<char>, k2: Seq<char>, v2: Seq<char>)
    ensures
        passages::in_order(
            two_texts(k1, v1, k2, v2),
            seq![k1, outside::json_string(v1), k2, outside::json_string(v2)],
        ),
{
    let e = Seq::<char>::empty();
    let a = outside::json_string(v1);
    let b = outside::json_string(v2);
    let t0 = "{\""@ + k1;
    passages::lemma_single("{\""@, k1, e);
    assert(t0 + e =~= t0);
    passages::lemma_behind(t0, seq![k1], "\":"@, a);
    let t1 = t0 + "\":"@ + a;
    passages::lemma_behind(t1, seq![k1].push(a), ",\""@, k2);
    let t2 = t1 + ",\""@ + k2;
    passages::lemma_behind(t2, seq![k1].push(a).push(k2), "\":"@, b);
    let t3 = t2 + "\":"@ + b;
    let all = seq![k1].push(a).push(k2).push(b);
    passages::lemma_in_order(e, t3, "}"@, all);
    assert(e + t3 + "}"@ =~= two_texts(k1, v1, k2, v2));
    assert(all =~= seq![k1, a, k2, b]);
}

/// A file is shown with what its last entry says was done to it, and without anything where
/// no entry is of it.
pub proof fn files_are_shown_with_their_status(
    e: FileEntry,
    path: Seq<char>,
    entries: Seq<(Seq<char>, Seq<char>)>,
    i: int,
)
    requires
        shows_file(e, path, entries),
    ensures
        e.path@ == path,
        0 <= i < entries.len() && entries[i].1 == path && (forall|j: int|
            i < j < entries.len() ==> (#[trigger] entries[j]).1 != path) ==> text::opt_text(
            e.status,
        ) == Some(file_status(entries[i].0)),
        (forall|j: int| 0 <= j < entries.len() ==> (#[trigger] entries[j]).1 != path)
            <==> e.status is None,
{
    lemma_last_status(entries, path, entries.len());
}

proof fn lemma_last_status(entries: Seq<(Seq<char>, Seq<char>)>, path: Seq<char>, n: nat)
    requires
        n <= entries.len(),
    ensures
        last_status(entries, path, n) is None <==> forall|j: int|
            0 <= j < n ==> (#[trigger] entries[j]).1 != path,
        forall|i: int|
            0 <= i < n && (#[trigger] entries[i]).1 == path && (forall|j: int|
                i < j < n ==> (#[trigger] entries[j]).1 != path) ==> last_status(entries, path, n)
                == Some(file_status(entries[i].0)),
    decreases n,
{
    if n > 0 && entries[n - 1].1 != path {
        lemma_last_status(entries, path, (n - 1) as nat);
    }
}

} // verus!
