//! The data the agent works on: messages and memories, entities and rooms,
//! the parameters of queries and of text generation.
use vstd::prelude::*;
use vstd::hash_map::StringHashMap;

use crate::ids::{AgentId, EntityId, MemoryId, RoomId, Uuid, WorldId};
use crate::number;
use crate::outside;
use crate::passages;
use crate::text;
use crate::time::Timestamp;

verus! {

// ---------------------------------------------------------------------------
// Channel types
// ---------------------------------------------------------------------------

#[derive(Clone, Copy, Debug, PartialEq, Eq, Hash, Structural)]
pub enum ChannelType {
    Itself,
    Dm,
    Group,
    VoiceDm,
    VoiceGroup,
    Feed,
    Thread,
    World,
    Forum,
    Api,
}

impl Default for ChannelType {
    fn default() -> (r: Self)
        ensures
            r == ChannelType::Dm,
    {
        ChannelType::Dm
    }
}

impl ChannelType {
    /// The name under which the channel type is stored.
    pub open spec fn stored_name(self) -> Seq<char> {
        match self {
            ChannelType::Itself => "SELF"@,
            ChannelType::Dm => "DM"@,
            ChannelType::Group => "GROUP"@,
            ChannelType::VoiceDm => "VOICE_DM"@,
            ChannelType::VoiceGroup => "VOICE_GROUP"@,
            ChannelType::Feed => "FEED"@,
            ChannelType::Thread => "THREAD"@,
            ChannelType::World => "WORLD"@,
            ChannelType::Forum => "FORUM"@,
            ChannelType::Api => "API"@,
        }
    }

    /// The name under which the channel type is stored.
    pub fn name(&self) -> (r: &'static str)
        ensures
            r@ == self.stored_name(),
    {
        match self {
            ChannelType::Itself => "SELF",
            ChannelType::Dm => "DM",
            ChannelType::Group => "GROUP",
            ChannelType::VoiceDm => "VOICE_DM",
            ChannelType::VoiceGroup => "VOICE_GROUP",
            ChannelType::Feed => "FEED",
            ChannelType::Thread => "THREAD",
            ChannelType::World => "WORLD",
            ChannelType::Forum => "FORUM",
            ChannelType::Api => "API",
        }
    }

    /// The name that is shown for the channel type.
    pub open spec fn shown_name(self) -> Seq<char> {
        match self {
            ChannelType::Itself => "Itself"@,
            ChannelType::Dm => "Dm"@,
            ChannelType::Group => "Group"@,
            ChannelType::VoiceDm => "VoiceDm"@,
            ChannelType::VoiceGroup => "VoiceGroup"@,
            ChannelType::Feed => "Feed"@,
            ChannelType::Thread => "Thread"@,
            ChannelType::World => "World"@,
            ChannelType::Forum => "Forum"@,
            ChannelType::Api => "Api"@,
        }
    }

    /// The name that is shown for the channel type.
    pub fn label(&self) -> (r: &'static str)
        ensures
            r@ == self.shown_name(),
    {
        match self {
            ChannelType::Itself => "Itself",
            ChannelType::Dm => "Dm",
            ChannelType::Group => "Group",
            ChannelType::VoiceDm => "VoiceDm",
            ChannelType::VoiceGroup => "VoiceGroup",
            ChannelType::Feed => "Feed",
            ChannelType::Thread => "Thread",
            ChannelType::World => "World",
            ChannelType::Forum => "Forum",
            ChannelType::Api => "Api",
        }
    }

    /// The channel type that is stored under `name`.
    pub fn from_name(name: &str) -> (r: Option<Self>)
        ensures
            match r {
                Some(t) => t.stored_name() == name@,
                None => forall|t: ChannelType| #[trigger] t.stored_name() != name@,
            },
    {
        if text::same(name, "SELF") {
            Some(ChannelType::Itself)
        } else if text::same(name, "DM") {
            Some(ChannelType::Dm)
        } else if text::same(name, "GROUP") {
            Some(ChannelType::Group)
        } else if text::same(name, "VOICE_DM") {
            Some(ChannelType::VoiceDm)
        } else if text::same(name, "VOICE_GROUP") {
            Some(ChannelType::VoiceGroup)
        } else if text::same(name, "FEED") {
            Some(ChannelType::Feed)
        } else if text::same(name, "THREAD") {
            Some(ChannelType::Thread)
        } else if text::same(name, "WORLD") {
            Some(ChannelType::World)
        } else if text::same(name, "FORUM") {
            Some(ChannelType::Forum)
        } else if text::same(name, "API") {
            Some(ChannelType::Api)
        } else {
            None
        }
    }
}

/// No two channel types are stored under one name.
pub proof fn channel_names_differ(a: ChannelType, b: ChannelType)
    ensures
        a.stored_name() == b.stored_name() ==> a == b,
{
    reveal_strlit("SELF");
    reveal_strlit("DM");
    reveal_strlit("GROUP");
    reveal_strlit("VOICE_DM");
    reveal_strlit("VOICE_GROUP");
    reveal_strlit("FEED");
    reveal_strlit("THREAD");
    reveal_strlit("WORLD");
    reveal_strlit("FORUM");
    reveal_strlit("API");
    assert("SELF"@.len() == 4 && "FEED"@.len() == 4 && "DM"@.len() == 2 && "API"@.len() == 3);
    assert("GROUP"@.len() == 5 && "WORLD"@.len() == 5 && "FORUM"@.len() == 5);
    assert("VOICE_DM"@.len() == 8 && "VOICE_GROUP"@.len() == 11 && "THREAD"@.len() == 6);
    assert("SELF"@[0] == 'S' && "FEED"@[0] == 'F');
    assert("GROUP"@[0] == 'G' && "WORLD"@[0] == 'W' && "FORUM"@[0] == 'F');
}

// ---------------------------------------------------------------------------
// Memory types
// ---------------------------------------------------------------------------

#[derive(Clone, Copy, Debug, PartialEq, Eq, Hash, Structural)]
pub enum MemoryType {
    Message,
    Document,
    Fragment,
    Description,
    Custom,
}

impl Default for MemoryType {
    fn default() -> (r: Self)
        ensures
            r == MemoryType::Message,
    {
        MemoryType::Message
    }
}

impl MemoryType {
    /// The name under which the memory type is stored.
    pub open spec fn stored_name(self) -> Seq<char> {
        match self {
            MemoryType::Message => "message"@,
            MemoryType::Document => "document"@,
            MemoryType::Fragment => "fragment"@,
            MemoryType::Description => "description"@,
            MemoryType::Custom => "custom"@,
        }
    }

    /// The name under which the memory type is stored.
    pub fn name(&self) -> (r: &'static str)
        ensures
            r@ == self.stored_name(),
    {
        match self {
            MemoryType::Message => "message",
            MemoryType::Document => "document",
            MemoryType::Fragment => "fragment",
            MemoryType::Description => "description",
            MemoryType::Custom => "custom",
        }
    }

    /// The name that is shown for the memory type.
    pub open spec fn shown_name(self) -> Seq<char> {
        match self {
            MemoryType::Message => "Message"@,
            MemoryType::Document => "Document"@,
            MemoryType::Fragment => "Fragment"@,
            MemoryType::Description => "Description"@,
            MemoryType::Custom => "Custom"@,
        }
    }

    /// The name that is shown for the memory type.
    pub fn label(&self) -> (r: &'static str)
        ensures
            r@ == self.shown_name(),
    {
        match self {
            MemoryType::Message => "Message",
            MemoryType::Document => "Document",
            MemoryType::Fragment => "Fragment",
            MemoryType::Description => "Description",
            MemoryType::Custom => "Custom",
        }
    }

    /// The memory type read from a stored name: a name that is none counts as a
    /// message.
    pub open spec fn of_name(name: Seq<char>) -> MemoryType {
        if name == "document"@ {
            MemoryType::Document
        } else if name == "fragment"@ {
            MemoryType::Fragment
        } else if name == "description"@ {
            MemoryType::Description
        } else if name == "custom"@ {
            MemoryType::Custom
        } else {
            MemoryType::Message
        }
    }

    /// The memory type read from a stored name.
    pub fn from_name(name: &str) -> (r: Self)
        ensures
            r == MemoryType::of_name(name@),
    {
        if text::same(name, "document") {
            MemoryType::Document
        } else if text::same(name, "fragment") {
            MemoryType::Fragment
        } else if text::same(name, "description") {
            MemoryType::Description
        } else if text::same(name, "custom") {
            MemoryType::Custom
        } else {
            MemoryType::Message
        }
    }
}

/// A memory type is read back from the name it is stored under.
pub proof fn memory_type_reads_back(t: MemoryType)
    ensures
        MemoryType::of_name(t.stored_name()) == t,
{
    reveal_strlit("message");
    reveal_strlit("document");
    reveal_strlit("fragment");
    reveal_strlit("description");
    reveal_strlit("custom");
    assert("message"@.len() == 7 && "description"@.len() == 11 && "custom"@.len() == 6);
    assert("document"@.len() == 8 && "fragment"@.len() == 8);
    assert("document"@[0] == 'd' && "fragment"@[0] == 'f');
}

// ---------------------------------------------------------------------------
// Metadata
// ---------------------------------------------------------------------------

/// What is noted with a memory, an entity or a room beside its fields.
#[derive(Clone, Debug)]
pub enum Metadata {
    /// Any JSON text.
    Json(String),
    Document { title: String, total_length: usize },
    Fragment { document_id: Uuid, chunk_index: usize, total_chunks: usize },
    Fact { source_message: Uuid },
    Reflection,
    Twitter { twitter_id: String, username: String },
    Discord { discord_id: u64, discriminator: Option<u16> },
    Telegram { telegram_id: i64, chat_id: i64 },
}

impl Metadata {
    /// The JSON text of the metadata, with the keys of an object in
    /// alphabetical order.
    pub open spec fn json(self) -> Seq<char> {
        match self {
            Metadata::Json(s) => s@,
            Metadata::Document { title, total_length } => "{\"title\":"@ + outside::json_string(
                title@,
            ) + ",\"total_length\":"@ + number::decimal(total_length as nat)
                + ",\"type\":\"document\"}"@,
            Metadata::Fragment { document_id, chunk_index, total_chunks } => "{\"chunk_index\":"@
                + number::decimal(chunk_index as nat) + ",\"document_id\":\""@ + document_id.text()
                + "\",\"total_chunks\":"@ + number::decimal(total_chunks as nat)
                + ",\"type\":\"fragment\"}"@,
            Metadata::Fact { source_message } => "{\"source_message\":\""@ + source_message.text()
                + "\",\"type\":\"fact\"}"@,
            Metadata::Reflection => "{\"type\":\"reflection\"}"@,
            Metadata::Twitter { twitter_id, username } => "{\"twitter_id\":"@
                + outside::json_string(twitter_id@) + ",\"username\":"@ + outside::json_string(
                username@,
            ) + "}"@,
            Metadata::Discord { discord_id, discriminator } => "{\"discord_id\":\""@
                + number::decimal(discord_id as nat) + "\",\"discriminator\":"@ + (
            match discriminator {
                Some(d) => number::decimal(d as nat),
                None => "null"@,
            }) + "}"@,
            Metadata::Telegram { telegram_id, chat_id } => "{\"chat_id\":"@
                + number::signed_decimal(chat_id as int) + ",\"telegram_id\":"@
                + number::signed_decimal(telegram_id as int) + "}"@,
        }
    }

    /// The JSON text of the metadata.
    pub fn to_json(&self) -> (r: String)
        ensures
            r@ == self.json(),
    {
        match self {
            Metadata::Json(s) => s.clone(),
            Metadata::Document { title, total_length } => {
                let mut out = "{\"title\":".to_owned();
                out.append(outside::json_write_string(title.as_str()).as_str());
                out.append(",\"total_length\":");
                out.append(number::decimal_text(*total_length as u64).as_str());
                out.append(",\"type\":\"document\"}");
                out
            },
            Metadata::Fragment { document_id, chunk_index, total_chunks } => {
                let mut out = "{\"chunk_index\":".to_owned();
                out.append(number::decimal_text(*chunk_index as u64).as_str());
                out.append(",\"document_id\":\"");
                out.append(document_id.to_text().as_str());
                out.append("\",\"total_chunks\":");
                out.append(number::decimal_text(*total_chunks as u64).as_str());
                out.append(",\"type\":\"fragment\"}");
                out
            },
            Metadata::Fact { source_message } => {
                let mut out = "{\"source_message\":\"".to_owned();
                out.append(source_message.to_text().as_str());
                out.append("\",\"type\":\"fact\"}");
                out
            },
            Metadata::Reflection => "{\"type\":\"reflection\"}".to_owned(),
            Metadata::Twitter { twitter_id, username } => {
                let mut out = "{\"twitter_id\":".to_owned();
                out.append(outside::json_write_string(twitter_id.as_str()).as_str());
                out.append(",\"username\":");
                out.append(outside::json_write_string(username.as_str()).as_str());
                out.append("}");
                out
            },
            Metadata::Discord { discord_id, discriminator } => {
                let mut out = "{\"discord_id\":\"".to_owned();
                out.append(number::decimal_text(*discord_id).as_str());
                out.append("\",\"discriminator\":");
                match discriminator {
                    Some(d) => out.append(number::decimal_text(*d as u64).as_str()),
                    None => out.append("null"),
                }
                out.append("}");
                out
            },
            Metadata::Telegram { telegram_id, chat_id } => {
                let mut out = "{\"chat_id\":".to_owned();
                out.append(number::signed_text(*chat_id).as_str());
                out.append(",\"telegram_id\":");
                out.append(number::signed_text(*telegram_id).as_str());
                out.append("}");
                out
            },
        }
    }
}

// ---------------------------------------------------------------------------
// Content
// ---------------------------------------------------------------------------

#[derive(Clone, Debug)]
pub struct Media {
    pub id: String,
    pub url: String,
    pub title: Option<String>,
    pub source: Option<String>,
    pub description: Option<String>,
    pub text: Option<String>,
    pub content_type: Option<String>,
}

/// The payload of every message and memory.
#[derive(Clone, Debug)]
pub struct Content {
    pub thought: Option<String>,
    pub text: Option<String>,
    pub actions: Option<Vec<String>>,
    pub source: Option<String>,
    pub target: Option<String>,
    pub url: Option<String>,
    pub in_reply_to: Option<Uuid>,
    pub attachments: Option<Vec<Media>>,
    pub channel_type: Option<ChannelType>,
    /// Further fields: the name and the JSON text of each.
    pub extra: Vec<(String, String)>,
}

/// The views of an optional list of strings.
pub open spec fn opt_texts(o: Option<Vec<String>>) -> Option<Seq<Seq<char>>> {
    match o {
        Some(v) => Some(text::texts(v@)),
        None => None,
    }
}

impl Content {
    /// The content holds this text, these actions and this source, and nothing
    /// else.
    pub open spec fn is(
        self,
        text: Option<Seq<char>>,
        actions: Option<Seq<Seq<char>>>,
        source: Option<Seq<char>>,
    ) -> bool {
        &&& text::opt_text(self.text) == text
        &&& opt_texts(self.actions) == actions
        &&& text::opt_text(self.source) == source
        &&& self.thought is None
        &&& self.target is None
        &&& self.url is None
        &&& self.in_reply_to is None
        &&& self.attachments is None
        &&& self.channel_type is None
        &&& self.extra@.len() == 0
    }

    /// Content of a text alone.
    pub fn text(s: &str) -> (r: Self)
        ensures
            r.is(Some(s@), None, None),
    {
        let mut c = Content::default();
        c.text = Some(s.to_owned());
        c
    }

    /// Content of a text and one action.
    pub fn text_with_action(s: &str, action: &str) -> (r: Self)
        ensures
            r.is(Some(s@), Some(seq![action@]), None),
    {
        let mut actions: Vec<String> = Vec::new();
        actions.push(action.to_owned());
        assert(text::texts(actions@) =~= seq![action@]);
        let mut c = Content::default();
        c.text = Some(s.to_owned());
        c.actions = Some(actions);
        c
    }

    /// Content of a text and its source.
    pub fn text_from(s: String, source: &str) -> (r: Self)
        ensures
            r.is(Some(s@), None, Some(source@)),
    {
        let mut c = Content::default();
        c.text = Some(s);
        c.source = Some(source.to_owned());
        c
    }
}

impl Default for Content {
    fn default() -> (r: Self)
        ensures
            r.is(None, None, None),
    {
        Content {
            thought: None,
            text: None,
            actions: None,
            source: None,
            target: None,
            url: None,
            in_reply_to: None,
            attachments: None,
            channel_type: None,
            extra: Vec::new(),
        }
    }
}

// ---------------------------------------------------------------------------
// Memory
// ---------------------------------------------------------------------------

#[derive(Clone, Debug)]
pub struct Memory {
    pub id: MemoryId,
    pub content: Content,
    pub entity_id: EntityId,
    pub agent_id: AgentId,
    pub room_id: RoomId,
    pub world_id: Option<WorldId>,
    pub unique: bool,
    pub created_at: Option<Timestamp>,
    /// The numbers of the embedding, each by its IEEE 754 bit pattern.
    pub embedding: Option<Vec<u32>>,
    pub metadata: Option<Metadata>,
    pub memory_type: MemoryType,
}

impl Memory {
    /// The memory is a message with these identifiers and this time.
    pub open spec fn is_message(
        self,
        id: MemoryId,
        at: Timestamp,
        agent_id: AgentId,
        entity_id: EntityId,
        room_id: RoomId,
    ) -> bool {
        &&& self.id == id
        &&& self.created_at == Some(at)
        &&& self.agent_id == agent_id
        &&& self.entity_id == entity_id
        &&& self.room_id == room_id
        &&& self.world_id is None
        &&& self.unique
        &&& self.embedding is None
        &&& self.metadata is None
        &&& self.memory_type == MemoryType::Message
    }

    /// A message memory with the given identifier and time.
    pub fn message(
        id: MemoryId,
        at: Timestamp,
        agent_id: AgentId,
        entity_id: EntityId,
        room_id: RoomId,
        content: Content,
    ) -> (r: Self)
        ensures
            r.is_message(id, at, agent_id, entity_id, room_id),
            r.content == content,
    {
        Memory {
            id,
            content,
            entity_id,
            agent_id,
            room_id,
            world_id: None,
            unique: true,
            created_at: Some(at),
            embedding: None,
            metadata: None,
            memory_type: MemoryType::Message,
        }
    }

    /// A message memory with a random identifier and the current time.
    pub fn new_message(
        agent_id: AgentId,
        entity_id: EntityId,
        room_id: RoomId,
        content: Content,
    ) -> (r: Self)
        ensures
            r.created_at is Some,
            r.is_message(r.id, r.created_at.unwrap(), agent_id, entity_id, room_id),
            r.content == content,
            crate::ids::is_v4(r.id.bits as nat),
            r.created_at.unwrap().valid(),
    {
        Memory::message(Uuid::new_v4(), crate::time::now(), agent_id, entity_id, room_id, content)
    }
}

// ---------------------------------------------------------------------------
// Entities, rooms, worlds and what ties them together
// ---------------------------------------------------------------------------

#[derive(Clone, Debug)]
pub struct Entity {
    pub id: EntityId,
    pub agent_id: AgentId,
    pub names: Vec<String>,
    pub metadata: Option<Metadata>,
    pub created_at: Option<Timestamp>,
}

impl Entity {
    /// The name that is shown for the entity: its first name.
    pub open spec fn shown_name(self) -> Seq<char> {
        if self.names@.len() > 0 {
            self.names@[0]@
        } else {
            "Unknown"@
        }
    }

    /// The name that is shown for the entity.
    pub fn display_name(&self) -> (r: &str)
        ensures
            r@ == self.shown_name(),
    {
        if self.names.len() > 0 {
            self.names[0].as_str()
        } else {
            "Unknown"
        }
    }
}

#[derive(Clone, Debug)]
pub struct Room {
    pub id: RoomId,
    pub agent_id: AgentId,
    pub source: String,
    pub channel_type: ChannelType,
    pub name: Option<String>,
    pub channel_id: Option<String>,
    pub world_id: Option<WorldId>,
    pub metadata: Option<Metadata>,
    pub created_at: Option<Timestamp>,
}

#[derive(Clone, Debug)]
pub struct World {
    pub id: WorldId,
    pub agent_id: AgentId,
    pub name: String,
    pub metadata: Option<Metadata>,
    pub server_id: Option<String>,
    pub created_at: Option<Timestamp>,
}

#[derive(Clone, Debug)]
pub struct Relationship {
    pub id: Uuid,
    pub source_entity_id: EntityId,
    pub target_entity_id: EntityId,
    pub agent_id: AgentId,
    pub tags: Vec<String>,
    pub metadata: Option<Metadata>,
    pub created_at: Option<Timestamp>,
}

#[derive(Clone, Debug)]
pub struct Component {
    pub id: Uuid,
    pub entity_id: EntityId,
    pub agent_id: AgentId,
    pub room_id: Option<RoomId>,
    pub world_id: Option<WorldId>,
    pub source_entity_id: Option<EntityId>,
    pub component_type: String,
    pub data: Option<Metadata>,
    pub created_at: Option<Timestamp>,
}

#[derive(Clone, Debug)]
pub struct Participant {
    pub id: Uuid,
    pub entity_id: EntityId,
    pub room_id: RoomId,
    pub agent_id: AgentId,
    pub room_state: Option<String>,
    pub created_at: Option<Timestamp>,
}

#[derive(Clone, Copy, Debug, PartialEq, Eq, Structural)]
pub enum TaskStatus {
    Pending,
    InProgress,
    Done,
    Failed,
    Cancelled,
}

impl Default for TaskStatus {
    fn default() -> (r: Self)
        ensures
            r == TaskStatus::Pending,
    {
        TaskStatus::Pending
    }
}

#[derive(Clone, Debug)]
pub struct Task {
    pub id: Uuid,
    pub room_id: Option<RoomId>,
    pub world_id: Option<WorldId>,
    pub entity_id: Option<EntityId>,
    pub agent_id: Option<AgentId>,
    pub name: String,
    pub description: Option<String>,
    pub tags: Vec<String>,
    pub status: TaskStatus,
    pub metadata: Option<Metadata>,
    pub created_at: Option<Timestamp>,
    pub updated_at: Option<Timestamp>,
}

// ---------------------------------------------------------------------------
// State
// ---------------------------------------------------------------------------

/// Values by name.
pub struct Values {
    map: StringHashMap<String>,
}

impl View for Values {
    type V = Map<Seq<char>, Seq<char>>;

    closed spec fn view(&self) -> Map<Seq<char>, Seq<char>> {
        self.map@.map_values(|s: String| s@)
    }
}

/// The value of `name`, or the empty text.
pub open spec fn value_or_empty(m: Map<Seq<char>, Seq<char>>, name: Seq<char>) -> Seq<char> {
    if m.contains_key(name) {
        m[name]
    } else {
        Seq::empty()
    }
}

impl Values {
    /// No values.
    pub fn new() -> (r: Self)
        ensures
            r@ == Map::<Seq<char>, Seq<char>>::empty(),
    {
        let map: StringHashMap<String> = StringHashMap::new();
        let r = Values { map };
        assert(r@ =~= Map::<Seq<char>, Seq<char>>::empty());
        r
    }

    /// Gives `name` the value `value`.
    pub fn insert(&mut self, name: String, value: String)
        ensures
            final(self)@ == old(self)@.insert(name@, value@),
    {
        self.map.insert(name, value);
        assert(self@ =~= old(self)@.insert(name@, value@));
    }

    /// Gives `name` the value `value`.
    pub fn put(&mut self, name: &str, value: String)
        ensures
            final(self)@ == old(self)@.insert(name@, value@),
    {
        self.insert(name.to_owned(), value);
    }

    /// The value of `name`.
    pub fn get(&self, name: &str) -> (r: Option<&String>)
        ensures
            match r {
                Some(v) => self@.contains_key(name@) && v@ == self@[name@],
                None => !self@.contains_key(name@),
            },
    {
        self.map.get(name)
    }

    /// The value of `name`, or the empty text.
    pub fn get_or_empty(&self, name: &str) -> (r: String)
        ensures
            r@ == value_or_empty(self@, name@),
    {
        match self.get(name) {
            Some(v) => v.clone(),
            None => {
                let r = String::new();
                assert(r@ =~= Seq::<char>::empty());
                r
            },
        }
    }

    /// Takes over all of `other`'s values.
    pub fn absorb(&mut self, other: Values)
        ensures
            final(self)@ == old(self)@.union_prefer_right(other@),
    {
        self.map.union_prefer_right(other.map);
        assert(self@ =~= old(self)@.union_prefer_right(other@));
    }
}

/// The context that prompts are made from.
pub struct State {
    pub values: Values,
    pub data: StateData,
}

pub struct StateData {
    pub room: Option<Room>,
    pub world: Option<World>,
    pub entity: Option<Entity>,
    pub recent_messages: Option<Vec<Memory>>,
    /// Further fields: the name and the JSON text of each.
    pub extra: Vec<(String, String)>,
}

impl Default for StateData {
    fn default() -> (r: Self)
        ensures
            r.room is None,
            r.world is None,
            r.entity is None,
            r.recent_messages is None,
            r.extra@.len() == 0,
    {
        StateData { room: None, world: None, entity: None, recent_messages: None, extra: Vec::new() }
    }
}

impl Default for State {
    fn default() -> (r: Self)
        ensures
            r.values@ == Map::<Seq<char>, Seq<char>>::empty(),
            r.data.room is None,
            r.data.world is None,
            r.data.entity is None,
            r.data.recent_messages is None,
            r.data.extra@.len() == 0,
    {
        State { values: Values::new(), data: StateData::default() }
    }
}

// ---------------------------------------------------------------------------
// Actions and evaluators
// ---------------------------------------------------------------------------

#[derive(Clone, Debug)]
pub struct ActionExample {
    pub user: String,
    pub content: Content,
}

/// The outcome of an action.
#[derive(Clone, Debug)]
pub struct ActionResult {
    pub success: bool,
    pub text: Option<String>,
    /// The JSON text of what the action hands on.
    pub data: Option<String>,
    pub error: Option<String>,
    pub continue_chain: bool,
}

impl ActionResult {
    /// The result is a success with this text that ends the chain.
    pub open spec fn is_ok(self, text: Seq<char>) -> bool {
        &&& self.success
        &&& text::opt_text(self.text) == Some(text)
        &&& self.data is None
        &&& self.error is None
        &&& !self.continue_chain
    }

    /// The result is a failure with this error that ends the chain.
    pub open spec fn is_err(self, error: Seq<char>) -> bool {
        &&& !self.success
        &&& self.text is None
        &&& self.data is None
        &&& text::opt_text(self.error) == Some(error)
        &&& !self.continue_chain
    }

    /// The results have the same contents.
    pub open spec fn same_as(self, other: Self) -> bool {
        &&& self.success == other.success
        &&& text::opt_text(self.text) == text::opt_text(other.text)
        &&& text::opt_text(self.data) == text::opt_text(other.data)
        &&& text::opt_text(self.error) == text::opt_text(other.error)
        &&& self.continue_chain == other.continue_chain
    }

    /// A second result with the same contents.
    pub fn copy(&self) -> (r: Self)
        ensures
            r.same_as(*self),
    {
        ActionResult {
            success: self.success,
            text: self.text.clone(),
            data: self.data.clone(),
            error: self.error.clone(),
            continue_chain: self.continue_chain,
        }
    }

    /// A success with a text.
    pub fn ok(text: &str) -> (r: Self)
        ensures
            r.is_ok(text@),
    {
        ActionResult {
            success: true,
            text: Some(text.to_owned()),
            data: None,
            error: None,
            continue_chain: false,
        }
    }

    /// A failure with its error.
    pub fn err(error: &str) -> (r: Self)
        ensures
            r.is_err(error@),
    {
        ActionResult {
            success: false,
            text: None,
            data: None,
            error: Some(error.to_owned()),
            continue_chain: false,
        }
    }
}

#[derive(Clone, Debug)]
pub struct EvaluatorExample {
    pub prompt: String,
    pub messages: Vec<ActionExample>,
    pub outcome: String,
}

// ---------------------------------------------------------------------------
// Text generation
// ---------------------------------------------------------------------------

#[derive(Clone, Copy, Debug, PartialEq, Eq, Hash, Structural)]
pub enum ModelType {
    TextSmall,
    TextLarge,
    TextEmbedding,
    ImageDescription,
}

/// What a model is asked for.
#[derive(Clone, Debug)]
pub struct GenerateTextParams {
    pub model_type: ModelType,
    pub system_prompt: String,
    pub prompt: String,
    pub max_tokens: Option<u32>,
    /// The sampling temperature, by its IEEE 754 bit pattern.
    pub temperature: Option<u32>,
    pub stop_sequences: Vec<String>,
}

impl GenerateTextParams {
    /// These are the parameters, without stop sequences.
    pub open spec fn asks(
        self,
        model_type: ModelType,
        system_prompt: Seq<char>,
        prompt: Seq<char>,
        max_tokens: u32,
        temperature: u32,
    ) -> bool {
        &&& self.model_type == model_type
        &&& self.system_prompt@ == system_prompt
        &&& self.prompt@ == prompt
        &&& self.max_tokens == Some(max_tokens)
        &&& self.temperature == Some(temperature)
        &&& self.stop_sequences@.len() == 0
    }

    /// Parameters without stop sequences.
    pub fn new(
        model_type: ModelType,
        system_prompt: String,
        prompt: String,
        max_tokens: u32,
        temperature: u32,
    ) -> (r: Self)
        ensures
            r.asks(model_type, system_prompt@, prompt@, max_tokens, temperature),
    {
        GenerateTextParams {
            model_type,
            system_prompt,
            prompt,
            max_tokens: Some(max_tokens),
            temperature: Some(temperature),
            stop_sequences: Vec::new(),
        }
    }
}

/// One step of a text that arrives in pieces.
#[derive(Clone, Debug)]
pub enum StreamEvent {
    Token(String),
    Done { full_text: String },
    Error(String),
}

// ---------------------------------------------------------------------------
// Query parameters
// ---------------------------------------------------------------------------

#[derive(Clone, Debug)]
pub struct GetMemoriesParams {
    pub room_id: Option<RoomId>,
    pub agent_id: Option<AgentId>,
    pub entity_id: Option<EntityId>,
    pub memory_type: Option<MemoryType>,
    pub unique: Option<bool>,
    pub count: Option<usize>,
}

impl Default for GetMemoriesParams {
    fn default() -> (r: Self)
        ensures
            r.room_id is None,
            r.agent_id is None,
            r.entity_id is None,
            r.memory_type is None,
            r.unique is None,
            r.count is None,
    {
        GetMemoriesParams {
            room_id: None,
            agent_id: None,
            entity_id: None,
            memory_type: None,
            unique: None,
            count: None,
        }
    }
}

#[derive(Clone, Debug)]
pub struct SearchMemoriesParams {
    /// The numbers of the embedding, each by its IEEE 754 bit pattern.
    pub embedding: Vec<u32>,
    pub room_id: Option<RoomId>,
    pub agent_id: AgentId,
    pub memory_type: Option<MemoryType>,
    /// The least similarity of a match, by its IEEE 754 bit pattern.
    pub match_threshold: u32,
    pub match_count: usize,
    pub unique: Option<bool>,
}

#[derive(Clone, Debug)]
pub struct GetParticipantsParams {
    pub room_id: RoomId,
}

/// The JSON text of metadata tells each thing that the metadata holds behind its own key.
#[verifier::rlimit(50)]
pub proof fn metadata_is_told_by_key(m: Metadata)
    ensures
        m is Document ==> text::has(
            m.json(),
            "\"title\":"@ + outside::json_string(m->title@),
        ) && text::has(
            m.json(),
            "\"total_length\":"@ + number::decimal(m->total_length as nat),
        ),
        m is Fragment ==> text::has(
            m.json(),
            "\"chunk_index\":"@ + number::decimal(m->chunk_index as nat),
        ) && text::has(m.json(), "\"document_id\":\""@ + m->document_id.text()) && text::has(
            m.json(),
            "\"total_chunks\":"@ + number::decimal(m->total_chunks as nat),
        ),
        m is Fact ==> text::has(m.json(), "\"source_message\":\""@ + m->source_message.text()),
        m is Twitter ==> text::has(
            m.json(),
            "\"twitter_id\":"@ + outside::json_string(m->twitter_id@),
        ) && text::has(m.json(), "\"username\":"@ + outside::json_string(m->username@)),
        m is Discord ==> text::has(
            m.json(),
            "\"discord_id\":\""@ + number::decimal(m->discord_id as nat),
        ),
        m is Discord && m->discriminator is Some ==> text::has(
            m.json(),
            "\"discriminator\":"@ + number::decimal(m->discriminator.unwrap() as nat),
        ),
        m is Telegram ==> text::has(
            m.json(),
            "\"chat_id\":"@ + number::signed_decimal(m->chat_id as int),
        ) && text::has(
            m.json(),
            "\"telegram_id\":"@ + number::signed_decimal(m->telegram_id as int),
        ),
{
    match m {
        Metadata::Document { title, total_length } => {
            let a = outside::json_string(title@);
            let b = number::decimal(total_length as nat);
            let end = ",\"type\":\"document\"}"@;
            reveal_strlit("{\"title\":");
            reveal_strlit("\"title\":");
            reveal_strlit(",\"total_length\":");
            reveal_strlit("\"total_length\":");
            assert("{\"title\":"@ =~= seq!['{'] + "\"title\":"@);
            assert(",\"total_length\":"@ =~= seq![','] + "\"total_length\":"@);
            lemma_two_keys(
                m.json(),
                seq!['{'],
                "\"title\":"@,
                a,
                seq![','],
                "\"total_length\":"@,
                b,
                end,
            );
        },
        Metadata::Fragment { document_id, chunk_index, total_chunks } => {
            let a = number::decimal(chunk_index as nat);
            let b = document_id.text();
            let c = number::decimal(total_chunks as nat);
            let end = ",\"type\":\"fragment\"}"@;
            reveal_strlit("{\"chunk_index\":");
            reveal_strlit("\"chunk_index\":");
            reveal_strlit(",\"document_id\":\"");
            reveal_strlit("\"document_id\":\"");
            reveal_strlit("\",\"total_chunks\":");
            reveal_strlit("\"total_chunks\":");
            assert("{\"chunk_index\":"@ =~= seq!['{'] + "\"chunk_index\":"@);
            assert(",\"document_id\":\""@ =~= seq![','] + "\"document_id\":\""@);
            assert("\",\"total_chunks\":"@ =~= seq!['"', ','] + "\"total_chunks\":"@);
            let rest = seq!['"', ','] + "\"total_chunks\":"@ + c + end;
            lemma_two_keys(
                m.json(),
                seq!['{'],
                "\"chunk_index\":"@,
                a,
                seq![','],
                "\"document_id\":\""@,
                b,
                rest,
            );
            let front = "{\"chunk_index\":"@ + a + ",\"document_id\":\""@ + b + seq!['"', ','];
            passages::lemma_stands(front, "\"total_chunks\":"@ + c, end);
            assert(front + ("\"total_chunks\":"@ + c) + end =~= m.json());
        },
        Metadata::Fact { source_message } => {
            let a = source_message.text();
            reveal_strlit("{\"source_message\":\"");
            reveal_strlit("\"source_message\":\"");
            assert("{\"source_message\":\""@ =~= seq!['{'] + "\"source_message\":\""@);
            let end = "\",\"type\":\"fact\"}"@;
            passages::lemma_stands(seq!['{'], "\"source_message\":\""@ + a, end);
            assert(seq!['{'] + ("\"source_message\":\""@ + a) + end =~= m.json());
        },
        Metadata::Twitter { twitter_id, username } => {
            let a = outside::json_string(twitter_id@);
            let b = outside::json_string(username@);
            reveal_strlit("{\"twitter_id\":");
            reveal_strlit("\"twitter_id\":");
            reveal_strlit(",\"username\":");
            reveal_strlit("\"username\":");
            assert("{\"twitter_id\":"@ =~= seq!['{'] + "\"twitter_id\":"@);
            assert(",\"username\":"@ =~= seq![','] + "\"username\":"@);
            lemma_two_keys(
                m.json(),
                seq!['{'],
                "\"twitter_id\":"@,
                a,
                seq![','],
                "\"username\":"@,
                b,
                "}"@,
            );
        },
        Metadata::Discord { discord_id, discriminator } => {
            let a = number::decimal(discord_id as nat);
            let b = match discriminator {
                Some(d) => number::decimal(d as nat),
                None => "null"@,
            };
            reveal_strlit("{\"discord_id\":\"");
            reveal_strlit("\"discord_id\":\"");
            reveal_strlit("\",\"discriminator\":");
            reveal_strlit("\"discriminator\":");
            assert("{\"discord_id\":\""@ =~= seq!['{'] + "\"discord_id\":\""@);
            assert("\",\"discriminator\":"@ =~= seq!['"', ','] + "\"discriminator\":"@);
            lemma_two_keys(
                m.json(),
                seq!['{'],
                "\"discord_id\":\""@,
                a,
                seq!['"', ','],
                "\"discriminator\":"@,
                b,
                "}"@,
            );
        },
        Metadata::Telegram { telegram_id, chat_id } => {
            let a = number::signed_decimal(chat_id as int);
            let b = number::signed_decimal(telegram_id as int);
            reveal_strlit("{\"chat_id\":");
            reveal_strlit("\"chat_id\":");
            reveal_strlit(",\"telegram_id\":");
            reveal_strlit("\"telegram_id\":");
            assert("{\"chat_id\":"@ =~= seq!['{'] + "\"chat_id\":"@);
            assert(",\"telegram_id\":"@ =~= seq![','] + "\"telegram_id\":"@);
            lemma_two_keys(
                m.json(),
                seq!['{'],
                "\"chat_id\":"@,
                a,
                seq![','],
                "\"telegram_id\":"@,
                b,
                "}"@,
            );
        },
        _ => {},
    }
}

/// Two keys, each with its value behind it, stand in a text.
proof fn lemma_two_keys(
    t: Seq<char>,
    a: Seq<char>,
    k: Seq<char>,
    v: Seq<char>,
    b: Seq<char>,
    l: Seq<char>,
    w: Seq<char>,
    c: Seq<char>,
)
    requires
        t =~= a + k + v + (b + l) + w + c,
    ensures
        text::has(t, k + v),
        text::has(t, l + w),
{
    passages::lemma_stands(a, k + v, b + l + w + c);
    assert(a + (k + v) + (b + l + w + c) =~= t);
    passages::lemma_stands(a + k + v + b, l + w, c);
    assert(a + k + v + b + (l + w) + c =~= t);
}

} // verus!
