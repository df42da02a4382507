//! The statements that store the agent's data in a database, and the rows that
//! are read back.
use vstd::prelude::*;

use crate::error;
use crate::error::RustlizaError;
use crate::ids;
use crate::ids::{AgentId, EntityId, MemoryId, RoomId, Uuid, WorldId};
use crate::number;
use crate::octets;
use crate::outside;
use crate::rank;
use crate::readings;
use crate::sql;
use crate::text;
use crate::time;
use crate::time::Timestamp;
use crate::types::{
    ChannelType, Component, Content, Entity, GetMemoriesParams, Memory, MemoryType, Metadata,
    Relationship, Room, SearchMemoriesParams, World,
};

verus! {

/// The tables.
pub const SCHEMA: &'static str = r#"
CREATE TABLE IF NOT EXISTS entities (
    id TEXT PRIMARY KEY,
    agent_id TEXT NOT NULL,
    names TEXT NOT NULL DEFAULT '[]',
    metadata TEXT,
    created_at TEXT NOT NULL DEFAULT (strftime('%Y-%m-%dT%H:%M:%SZ', 'now'))
);
CREATE INDEX IF NOT EXISTS idx_entities_agent_id ON entities(agent_id);

CREATE TABLE IF NOT EXISTS rooms (
    id TEXT PRIMARY KEY,
    agent_id TEXT NOT NULL,
    source TEXT NOT NULL DEFAULT '',
    channel_type TEXT NOT NULL DEFAULT 'DM',
    name TEXT,
    channel_id TEXT,
    world_id TEXT,
    metadata TEXT,
    created_at TEXT NOT NULL DEFAULT (strftime('%Y-%m-%dT%H:%M:%SZ', 'now'))
);
CREATE INDEX IF NOT EXISTS idx_rooms_agent_id ON rooms(agent_id);
CREATE INDEX IF NOT EXISTS idx_rooms_world_id ON rooms(world_id);

CREATE TABLE IF NOT EXISTS worlds (
    id TEXT PRIMARY KEY,
    agent_id TEXT NOT NULL,
    name TEXT NOT NULL DEFAULT '',
    metadata TEXT,
    server_id TEXT,
    created_at TEXT NOT NULL DEFAULT (strftime('%Y-%m-%dT%H:%M:%SZ', 'now'))
);
CREATE INDEX IF NOT EXISTS idx_worlds_agent_id ON worlds(agent_id);

CREATE TABLE IF NOT EXISTS memories (
    id TEXT PRIMARY KEY,
    type TEXT NOT NULL DEFAULT 'message',
    content TEXT NOT NULL DEFAULT '{}',
    entity_id TEXT NOT NULL,
    agent_id TEXT NOT NULL,
    room_id TEXT NOT NULL,
    world_id TEXT,
    "unique" INTEGER NOT NULL DEFAULT 0,
    metadata TEXT,
    created_at TEXT NOT NULL DEFAULT (strftime('%Y-%m-%dT%H:%M:%SZ', 'now'))
);
CREATE INDEX IF NOT EXISTS idx_memories_agent_id ON memories(agent_id);
CREATE INDEX IF NOT EXISTS idx_memories_room_id ON memories(room_id);
CREATE INDEX IF NOT EXISTS idx_memories_entity_id ON memories(entity_id);
CREATE INDEX IF NOT EXISTS idx_memories_type ON memories(type);
CREATE INDEX IF NOT EXISTS idx_memories_created_at ON memories(created_at);
CREATE INDEX IF NOT EXISTS idx_memories_room_type ON memories(room_id, type, created_at);

CREATE TABLE IF NOT EXISTS embeddings (
    id TEXT PRIMARY KEY,
    memory_id TEXT NOT NULL UNIQUE,
    embedding BLOB,
    created_at TEXT NOT NULL DEFAULT (strftime('%Y-%m-%dT%H:%M:%SZ', 'now')),
    FOREIGN KEY (memory_id) REFERENCES memories(id) ON DELETE CASCADE
);

CREATE TABLE IF NOT EXISTS participants (
    id TEXT PRIMARY KEY,
    entity_id TEXT NOT NULL,
    room_id TEXT NOT NULL,
    agent_id TEXT NOT NULL,
    room_state TEXT,
    created_at TEXT NOT NULL DEFAULT (strftime('%Y-%m-%dT%H:%M:%SZ', 'now')),
    UNIQUE(entity_id, room_id)
);
CREATE INDEX IF NOT EXISTS idx_participants_entity_id ON participants(entity_id);
CREATE INDEX IF NOT EXISTS idx_participants_room_id ON participants(room_id);

CREATE TABLE IF NOT EXISTS relationships (
    id TEXT PRIMARY KEY,
    source_entity_id TEXT NOT NULL,
    target_entity_id TEXT NOT NULL,
    agent_id TEXT NOT NULL,
    tags TEXT NOT NULL DEFAULT '[]',
    metadata TEXT,
    created_at TEXT NOT NULL DEFAULT (strftime('%Y-%m-%dT%H:%M:%SZ', 'now')),
    UNIQUE(source_entity_id, target_entity_id, agent_id)
);
CREATE INDEX IF NOT EXISTS idx_relationships_source ON relationships(source_entity_id);
CREATE INDEX IF NOT EXISTS idx_relationships_target ON relationships(target_entity_id);

CREATE TABLE IF NOT EXISTS components (
    id TEXT PRIMARY KEY,
    entity_id TEXT NOT NULL,
    agent_id TEXT NOT NULL,
    room_id TEXT,
    world_id TEXT,
    source_entity_id TEXT,
    component_type TEXT NOT NULL,
    data TEXT,
    created_at TEXT NOT NULL DEFAULT (strftime('%Y-%m-%dT%H:%M:%SZ', 'now')),
    UNIQUE(entity_id, component_type, world_id, source_entity_id)
);
CREATE INDEX IF NOT EXISTS idx_components_entity ON components(entity_id);
CREATE INDEX IF NOT EXISTS idx_components_type ON components(component_type);

CREATE TABLE IF NOT EXISTS cache (
    key TEXT NOT NULL,
    agent_id TEXT NOT NULL,
    value TEXT NOT NULL DEFAULT '{}',
    expires_at TEXT,
    PRIMARY KEY (key, agent_id)
);
"#;

// ---------------------------------------------------------------------------
// Statements
// ---------------------------------------------------------------------------

/// A value that is bound to a statement.
#[derive(Clone, Debug)]
pub enum Binding {
    Text(String),
    MaybeText(Option<String>),
    Int(i64),
    Blob(Vec<u8>),
}

/// A value that is bound to a statement, over the texts of its strings.
pub enum BindingView {
    Text(Seq<char>),
    MaybeText(Option<Seq<char>>),
    Int(int),
    Blob(Seq<u8>),
}

impl View for Binding {
    type V = BindingView;

    open spec fn view(&self) -> BindingView {
        match *self {
            Binding::Text(s) => BindingView::Text(s@),
            Binding::MaybeText(s) => BindingView::MaybeText(text::opt_text(s)),
            Binding::Int(n) => BindingView::Int(n as int),
            Binding::Blob(b) => BindingView::Blob(b@),
        }
    }
}

/// The views of bindings.
pub open spec fn binding_views(v: Seq<Binding>) -> Seq<BindingView> {
    v.map_values(|b: Binding| b@)
}

/// A statement and the values for its question marks.
#[derive(Clone, Debug)]
pub struct Statement {
    pub sql: String,
    pub bindings: Vec<Binding>,
}

impl Statement {
    /// The statement is this one.
    pub open spec fn is(self, sql: Seq<char>, bindings: Seq<BindingView>) -> bool {
        self.sql@ == sql && binding_views(self.bindings@) == bindings
    }

    /// A statement.
    fn new(sql: &str, bindings: Vec<Binding>) -> (r: Self)
        ensures
            r.is(sql@, binding_views(bindings@)),
    {
        Statement { sql: sql.to_owned(), bindings }
    }

    /// Adds a condition on a value, where there is one.
    fn and(&mut self, clause: &str, value: Option<String>)
        ensures
            final(self).is(
                with_condition(old(self).sql@, clause@, value is Some),
                with_value(binding_views(old(self).bindings@), text::opt_text(value)),
            ),
    {
        match value {
            Some(v) => {
                let ghost before = self.bindings@;
                self.sql.append(clause);
                self.bindings.push(Binding::Text(v));
                assert(binding_views(self.bindings@) =~= binding_views(before).push(
                    BindingView::Text(v@),
                ));
            },
            None => {},
        }
    }
}

/// A statement with one condition more, where there is one.
pub open spec fn with_condition(sql: Seq<char>, clause: Seq<char>, given: bool) -> Seq<char> {
    if given {
        sql + clause
    } else {
        sql
    }
}

/// Values with one more, where there is one.
pub open spec fn with_value(
    values: Seq<BindingView>,
    value: Option<Seq<char>>,
) -> Seq<BindingView> {
    match value {
        Some(v) => values.push(BindingView::Text(v)),
        None => values,
    }
}

/// The text that is stored for an identifier.
pub fn uuid_to_str(u: &Uuid) -> (r: String)
    ensures
        r@ == u.text(),
        stored_id(r@) == *u,
{
    u.to_text()
}

/// The identifier that a stored text stands for; one that is none stands for the
/// identifier of all zeros.
pub open spec fn stored_id(s: Seq<char>) -> Uuid {
    match outside::uuid_parsed(s) {
        Some(bits) => Uuid { bits },
        None => Uuid { bits: 0 },
    }
}

/// The identifier that a stored text stands for, where there is a text and it
/// stands for one.
pub open spec fn stored_opt_id(s: Option<Seq<char>>) -> Option<Uuid> {
    match s {
        Some(t) => match outside::uuid_parsed(t) {
            Some(bits) => Some(Uuid { bits }),
            None => None,
        },
        None => None,
    }
}

/// The text for an identifier, where there is one.
pub open spec fn opt_id_text(id: Option<Uuid>) -> Option<Seq<char>> {
    match id {
        Some(u) => Some(u.text()),
        None => None,
    }
}

/// The text for an identifier, where there is one.
fn opt_uuid_to_str(id: &Option<Uuid>) -> (r: Option<String>)
    ensures
        text::opt_text(r) == opt_id_text(*id),
        stored_opt_id(text::opt_text(r)) == *id,
{
    match id {
        Some(u) => Some(u.to_text()),
        None => None,
    }
}

/// The JSON text of metadata, where there is any.
pub open spec fn metadata_text(m: Option<Metadata>) -> Option<Seq<char>> {
    match m {
        Some(d) => Some(d.json()),
        None => None,
    }
}

/// The JSON text of metadata, where there is any.
fn metadata_to_str(m: &Option<Metadata>) -> (r: Option<String>)
    ensures
        text::opt_text(r) == metadata_text(*m),
{
    match m {
        Some(d) => Some(d.to_json()),
        None => None,
    }
}

/// A flag as a number.
pub open spec fn flag(b: bool) -> int {
    if b {
        1
    } else {
        0
    }
}

/// A flag as a number.
fn flag_number(b: bool) -> (r: i64)
    ensures
        r == flag(b),
{
    if b {
        1
    } else {
        0
    }
}

/// The identifier that a text writes, or the error for one that writes none.
pub open spec fn id_error(s: Seq<char>, why: Seq<char>) -> Seq<char> {
    "invalid uuid '"@ + s + "': "@ + why
}

/// The identifier that a text writes.
pub fn str_to_uuid(s: &str) -> (r: Result<Uuid, RustlizaError>)
    ensures
        match r {
            Ok(u) => outside::uuid_read(s@) == Ok::<u128, Seq<char>>(u.bits),
            Err(e) => outside::uuid_read(s@) is Err && e is Database && e->Database_0@ == id_error(
                s@,
                outside::uuid_read(s@)->Err_0,
            ),
        },
{
    match Uuid::read(s) {
        Ok(u) => Ok(u),
        Err(why) => {
            let mut out = error::prefixed("invalid uuid '", s);
            out.append("': ");
            out.append(why.as_str());
            Err(RustlizaError::Database(out))
        },
    }
}

/// The first text at or after `from` that writes no identifier.
pub open spec fn first_bad_id(v: Seq<Seq<char>>, from: int) -> int
    decreases v.len() - from,
{
    if from < 0 || from >= v.len() {
        v.len() as int
    } else if outside::uuid_read(v[from]) is Err {
        from
    } else {
        first_bad_id(v, from + 1)
    }
}

/// The identifiers that texts write; the first that writes none is an error.
pub fn read_ids(v: &Vec<String>) -> (r: Result<Vec<Uuid>, RustlizaError>)
    ensures
        ({
            let all = text::texts(v@);
            let bad = first_bad_id(all, 0);
            match r {
                Ok(ids) => bad == all.len() && ids@.len() == all.len() && forall|i: int|
                    0 <= i < all.len() ==> outside::uuid_read(#[trigger] all[i]) == Ok::<
                        u128,
                        Seq<char>,
                    >(ids@[i].bits),
                Err(e) => 0 <= bad < all.len() && e is Database && e->Database_0@ == id_error(
                    all[bad],
                    outside::uuid_read(all[bad])->Err_0,
                ),
            }
        }),
{
    let ghost all = text::texts(v@);
    let mut out: Vec<Uuid> = Vec::new();
    let mut i: usize = 0;
    while i < v.len()
        invariant
            i <= v@.len() == all.len(),
            all == text::texts(v@),
            out@.len() == i,
            first_bad_id(all, 0) == first_bad_id(all, i as int),
            forall|k: int|
                0 <= k < i ==> outside::uuid_read(#[trigger] all[k]) == Ok::<u128, Seq<char>>(
                    out@[k].bits,
                ),
        decreases v.len() - i,
    {
        assert(all[i as int] == v@[i as int]@);
        match str_to_uuid(v[i].as_str()) {
            Ok(u) => out.push(u),
            Err(e) => {
                return Err(e);
            },
        }
        i = i + 1;
    }
    Ok(out)
}

// ---------------------------------------------------------------------------
// Entities
// ---------------------------------------------------------------------------

/// The statement looks for an entity.
pub open spec fn gets_entity(r: Statement, id: EntityId) -> bool {
    &&& r.is(
        "SELECT * FROM entities WHERE id = ?"@,
        seq![
            BindingView::Text(id.text()),
        ],
    )
    &&& stored_id(id.text()) == id
}

/// Looks for an entity.
pub fn get_entity(id: &EntityId) -> (r: Statement)
    ensures
        gets_entity(r, *id),
{
    let bindings = vec![
        Binding::Text(uuid_to_str(&id)),
    ];
    assert(binding_views(bindings@) =~= seq![
        BindingView::Text(id.text()),
    ]);
    Statement::new("SELECT * FROM entities WHERE id = ?", bindings)
}

/// Stores an entity, unless one with its identifier is stored. The identifiers and
/// the names are read back from what is stored.
pub fn create_entity(entity: &Entity) -> (r: Statement)
    ensures
        stores_entity(r, *entity),
{
    let bindings = vec![
        Binding::Text(uuid_to_str(&entity.id)),
        Binding::Text(uuid_to_str(&entity.agent_id)),
        Binding::Text(outside::json_write_list(&entity.names)),
        Binding::MaybeText(metadata_to_str(&entity.metadata)),
    ];
    assert(binding_views(bindings@) =~= seq![
        BindingView::Text(entity.id.text()),
        BindingView::Text(entity.agent_id.text()),
        BindingView::Text(outside::json_list(text::texts(entity.names@))),
        BindingView::MaybeText(metadata_text(entity.metadata)),
    ]);
    Statement::new("INSERT OR IGNORE INTO entities (id, agent_id, names, metadata) VALUES (?, ?, ?, ?)", bindings)
}

/// The statement replaces the names and the metadata of an entity.
pub open spec fn updates_entity(r: Statement, entity: Entity) -> bool {
    &&& r.is(
        "UPDATE entities SET names = ?, metadata = ? WHERE id = ?"@,
        seq![
            BindingView::Text(outside::json_list(text::texts(entity.names@))),
            BindingView::MaybeText(metadata_text(entity.metadata)),
            BindingView::Text(entity.id.text()),
        ],
    )
    &&& stored_id(entity.id.text()) == entity.id
}

/// Replaces the names and the metadata of an entity.
pub fn update_entity(entity: &Entity) -> (r: Statement)
    ensures
        updates_entity(r, *entity),
{
    let bindings = vec![
        Binding::Text(outside::json_write_list(&entity.names)),
        Binding::MaybeText(metadata_to_str(&entity.metadata)),
        Binding::Text(uuid_to_str(&entity.id)),
    ];
    assert(binding_views(bindings@) =~= seq![
        BindingView::Text(outside::json_list(text::texts(entity.names@))),
        BindingView::MaybeText(metadata_text(entity.metadata)),
        BindingView::Text(entity.id.text()),
    ]);
    Statement::new("UPDATE entities SET names = ?, metadata = ? WHERE id = ?", bindings)
}

// ---------------------------------------------------------------------------
// Memories
// ---------------------------------------------------------------------------

/// Stores a memory, whose content is given as JSON text. The identifiers are read
/// back from what is stored.
pub fn create_memory(memory: &Memory, content_json: &str) -> (r: Statement)
    ensures
        stores_memory(r, *memory, content_json@),
{
    let bindings = vec![
        Binding::Text(uuid_to_str(&memory.id)),
        Binding::Text(memory.memory_type.name().to_owned()),
        Binding::Text(content_json.to_owned()),
        Binding::Text(uuid_to_str(&memory.entity_id)),
        Binding::Text(uuid_to_str(&memory.agent_id)),
        Binding::Text(uuid_to_str(&memory.room_id)),
        Binding::MaybeText(opt_uuid_to_str(&memory.world_id)),
        Binding::Int(flag_number(memory.unique)),
        Binding::MaybeText(metadata_to_str(&memory.metadata)),
    ];
    assert(binding_views(bindings@) =~= seq![
        BindingView::Text(memory.id.text()),
        BindingView::Text(memory.memory_type.stored_name()),
        BindingView::Text(content_json@),
        BindingView::Text(memory.entity_id.text()),
        BindingView::Text(memory.agent_id.text()),
        BindingView::Text(memory.room_id.text()),
        BindingView::MaybeText(opt_id_text(memory.world_id)),
        BindingView::Int(flag(memory.unique)),
        BindingView::MaybeText(metadata_text(memory.metadata)),
    ]);
    Statement::new("INSERT OR REPLACE INTO memories (id, type, content, entity_id, agent_id, room_id, world_id, \"unique\", metadata) VALUES (?, ?, ?, ?, ?, ?, ?, ?, ?)", bindings)
}

/// The statement looks for a memory.
pub open spec fn gets_memory(r: Statement, id: MemoryId) -> bool {
    &&& r.is(
        "SELECT * FROM memories WHERE id = ?"@,
        seq![
            BindingView::Text(id.text()),
        ],
    )
    &&& stored_id(id.text()) == id
}

/// Looks for a memory.
pub fn get_memory_by_id(id: &MemoryId) -> (r: Statement)
    ensures
        gets_memory(r, *id),
{
    let bindings = vec![
        Binding::Text(uuid_to_str(&id)),
    ];
    assert(binding_views(bindings@) =~= seq![
        BindingView::Text(id.text()),
    ]);
    Statement::new("SELECT * FROM memories WHERE id = ?", bindings)
}

/// The statement drops a memory.
pub open spec fn deletes_memory(r: Statement, id: MemoryId) -> bool {
    &&& r.is(
        "DELETE FROM memories WHERE id = ?"@,
        seq![
            BindingView::Text(id.text()),
        ],
    )
    &&& stored_id(id.text()) == id
}

/// Drops a memory.
pub fn delete_memory(id: &MemoryId) -> (r: Statement)
    ensures
        deletes_memory(r, *id),
{
    let bindings = vec![
        Binding::Text(uuid_to_str(&id)),
    ];
    assert(binding_views(bindings@) =~= seq![
        BindingView::Text(id.text()),
    ]);
    Statement::new("DELETE FROM memories WHERE id = ?", bindings)
}

/// The statement counts the memories of a kind in a room.
pub open spec fn counts_memories(r: Statement, room_id: RoomId, unique: bool, memory_type: MemoryType) -> bool {
    &&& r.is(
        "SELECT COUNT(*) as cnt FROM memories WHERE room_id = ? AND \"unique\" = ? AND type = ?"@,
        seq![
            BindingView::Text(room_id.text()),
            BindingView::Int(flag(unique)),
            BindingView::Text(memory_type.stored_name()),
        ],
    )
    &&& stored_id(room_id.text()) == room_id
}

/// Counts the memories of a kind in a room.
pub fn count_memories(room_id: &RoomId, unique: bool, memory_type: MemoryType) -> (r: Statement)
    ensures
        counts_memories(r, *room_id, unique, memory_type),
{
    let bindings = vec![
        Binding::Text(uuid_to_str(&room_id)),
        Binding::Int(flag_number(unique)),
        Binding::Text(memory_type.name().to_owned()),
    ];
    assert(binding_views(bindings@) =~= seq![
        BindingView::Text(room_id.text()),
        BindingView::Int(flag(unique)),
        BindingView::Text(memory_type.stored_name()),
    ]);
    Statement::new("SELECT COUNT(*) as cnt FROM memories WHERE room_id = ? AND \"unique\" = ? AND type = ?", bindings)
}

/// The statement stores the embedding of a memory under an identifier.
pub open spec fn stores_embedding(
    r: Statement,
    id: Uuid,
    memory_id: MemoryId,
    embedding: Seq<u32>,
) -> bool {
    &&& r.is(
        "INSERT OR REPLACE INTO embeddings (id, memory_id, embedding) VALUES (?, ?, ?)"@,
        seq![
            BindingView::Text(id.text()),
            BindingView::Text(memory_id.text()),
            BindingView::Blob(embedding_octets(embedding)),
        ],
    )
    &&& stored_id(memory_id.text()) == memory_id
}

/// Stores the embedding of a memory, under a random identifier.
pub fn create_embedding(memory_id: &MemoryId, embedding: &Vec<u32>) -> (r: (Statement, Uuid))
    ensures
        ids::is_v4(r.1.bits as nat),
        stores_embedding(r.0, r.1, *memory_id, embedding@),
{
    let id = Uuid::new_v4();
    let bindings = vec![
        Binding::Text(uuid_to_str(&id)),
        Binding::Text(uuid_to_str(memory_id)),
        Binding::Blob(embedding_to_bytes(embedding)),
    ];
    assert(binding_views(bindings@) =~= seq![
        BindingView::Text(id.text()),
        BindingView::Text(memory_id.text()),
        BindingView::Blob(embedding_octets(embedding@)),
    ]);
    (
        Statement::new(
            "INSERT OR REPLACE INTO embeddings (id, memory_id, embedding) VALUES (?, ?, ?)",
            bindings,
        ),
        id,
    )
}

/// A flag as the text of a number, where it is given.
pub open spec fn flag_text(b: Option<bool>) -> Option<Seq<char>> {
    match b {
        Some(true) => Some("1"@),
        Some(false) => Some("0"@),
        None => None,
    }
}

/// A flag as the text of a number, where it is given.
fn flag_to_str(b: Option<bool>) -> (r: Option<String>)
    ensures
        text::opt_text(r) == flag_text(b),
{
    match b {
        Some(true) => Some("1".to_owned()),
        Some(false) => Some("0".to_owned()),
        None => None,
    }
}

/// The name of a memory type, where one is given.
pub open spec fn type_text(t: Option<MemoryType>) -> Option<Seq<char>> {
    match t {
        Some(m) => Some(m.stored_name()),
        None => None,
    }
}

/// The name of a memory type, where one is given.
fn type_to_str(t: &Option<MemoryType>) -> (r: Option<String>)
    ensures
        text::opt_text(r) == type_text(*t),
{
    match t {
        Some(m) => Some(m.name().to_owned()),
        None => None,
    }
}

/// The conditions on memories, the newest first, at most so many.
pub open spec fn memories_sql(p: GetMemoriesParams) -> Seq<char> {
    let s = "SELECT * FROM memories WHERE 1=1"@;
    let s = with_condition(s, " AND room_id = ?"@, p.room_id is Some);
    let s = with_condition(s, " AND agent_id = ?"@, p.agent_id is Some);
    let s = with_condition(s, " AND entity_id = ?"@, p.entity_id is Some);
    let s = with_condition(s, " AND type = ?"@, p.memory_type is Some);
    let s = with_condition(s, " AND \"unique\" = ?"@, p.unique is Some);
    let s = s + " ORDER BY created_at DESC"@;
    match p.count {
        Some(n) => s + " LIMIT "@ + number::decimal(n as nat),
        None => s,
    }
}

/// The values of the conditions on memories.
pub open spec fn memories_values(p: GetMemoriesParams) -> Seq<BindingView> {
    let v = with_value(Seq::empty(), opt_id_text(p.room_id));
    let v = with_value(v, opt_id_text(p.agent_id));
    let v = with_value(v, opt_id_text(p.entity_id));
    let v = with_value(v, type_text(p.memory_type));
    with_value(v, flag_text(p.unique))
}

/// The statement looks for memories.
pub open spec fn finds_memories(r: Statement, p: GetMemoriesParams) -> bool {
    &&& r.is(memories_sql(p), memories_values(p))
    &&& stored_opt_id(opt_id_text(p.room_id)) == p.room_id
    &&& stored_opt_id(opt_id_text(p.agent_id)) == p.agent_id
    &&& stored_opt_id(opt_id_text(p.entity_id)) == p.entity_id
}

/// Looks for memories: each condition that is given must hold, the newest come
/// first, and at most so many as are asked for come at all.
pub fn get_memories(params: &GetMemoriesParams) -> (r: Statement)
    ensures
        finds_memories(r, *params),
{
    let bindings: Vec<Binding> = Vec::new();
    assert(binding_views(bindings@) =~= Seq::empty());
    let mut s = Statement::new("SELECT * FROM memories WHERE 1=1", bindings);
    s.and(" AND room_id = ?", opt_uuid_to_str(&params.room_id));
    s.and(" AND agent_id = ?", opt_uuid_to_str(&params.agent_id));
    s.and(" AND entity_id = ?", opt_uuid_to_str(&params.entity_id));
    s.and(" AND type = ?", type_to_str(&params.memory_type));
    s.and(" AND \"unique\" = ?", flag_to_str(params.unique));
    s.sql.append(" ORDER BY created_at DESC");
    match params.count {
        Some(n) => {
            s.sql.append(" LIMIT ");
            s.sql.append(number::decimal_text(n as u64).as_str());
        },
        None => {},
    }
    s
}

/// The conditions on memories with an embedding.
pub open spec fn search_sql(p: SearchMemoriesParams) -> Seq<char> {
    let s =
        "SELECT m.*, e.embedding FROM memories m INNER JOIN embeddings e ON e.memory_id = m.id WHERE m.agent_id = ?"@;
    let s = with_condition(s, " AND m.room_id = ?"@, p.room_id is Some);
    let s = with_condition(s, " AND m.type = ?"@, p.memory_type is Some);
    with_condition(s, " AND m.\"unique\" = ?"@, p.unique is Some)
}

/// The values of the conditions on memories with an embedding.
pub open spec fn search_values(p: SearchMemoriesParams) -> Seq<BindingView> {
    let v = seq![BindingView::Text(p.agent_id.text())];
    let v = with_value(v, opt_id_text(p.room_id));
    let v = with_value(v, type_text(p.memory_type));
    with_value(v, flag_text(p.unique))
}

/// The statement looks for memories with an embedding.
pub open spec fn finds_embedded(r: Statement, p: SearchMemoriesParams) -> bool {
    &&& r.is(search_sql(p), search_values(p))
    &&& stored_id(p.agent_id.text()) == p.agent_id
    &&& stored_opt_id(opt_id_text(p.room_id)) == p.room_id
}

/// Looks for the memories with an embedding that a search compares.
pub fn search_memories(params: &SearchMemoriesParams) -> (r: Statement)
    ensures
        finds_embedded(r, *params),
{
    let bindings = vec![Binding::Text(uuid_to_str(&params.agent_id))];
    assert(binding_views(bindings@) =~= seq![BindingView::Text(params.agent_id.text())]);
    let mut s = Statement::new(
        "SELECT m.*, e.embedding FROM memories m INNER JOIN embeddings e ON e.memory_id = m.id WHERE m.agent_id = ?",
        bindings,
    );
    s.and(" AND m.room_id = ?", opt_uuid_to_str(&params.room_id));
    s.and(" AND m.type = ?", type_to_str(&params.memory_type));
    s.and(" AND m.\"unique\" = ?", flag_to_str(params.unique));
    s
}

/// The bit pattern is that of no number.
pub open spec fn is_nan(bits: u64) -> bool {
    bits % 0x8000_0000_0000_0000 > 0x7ff0_0000_0000_0000
}

/// The key by which a similarity is ranked; one that is missing or no number
/// ranks below all others.
pub open spec fn similarity_key(bits: Option<u64>) -> i64 {
    match bits {
        Some(b) => if is_nan(b) {
            i64::MIN
        } else {
            rank::float_order(b) as i64
        },
        None => i64::MIN,
    }
}

/// The keys by which similarities are ranked.
pub open spec fn similarity_keys(v: Seq<Option<u64>>) -> Seq<i64> {
    v.map_values(|b: Option<u64>| similarity_key(b))
}

/// These are the matches of a search, by position: those with a similarity of at least the
/// threshold, the most similar first, and at most so many; none where the threshold is no
/// number.
pub open spec fn are_similar(
    similarities: Seq<Option<u64>>,
    threshold: u64,
    match_count: nat,
    r: Seq<usize>,
) -> bool {
    if is_nan(threshold) {
        r.len() == 0
    } else {
        rank::is_best(
            similarity_keys(similarities),
            rank::float_order(threshold),
            match_count,
            r,
        )
    }
}

/// No more matches are given than are wanted. Each has a similarity, a number, of at least
/// the threshold; none stands behind a less similar one; and where fewer are given than are
/// wanted, every such similarity is among them. Of similarities and thresholds that are not
/// negative the greater is the one with the greater bit pattern.
pub proof fn similar_memories_are_picked(
    similarities: Seq<Option<u64>>,
    threshold: u64,
    match_count: nat,
    r: Seq<usize>,
)
    requires
        are_similar(similarities, threshold, match_count, r),
        threshold < 0x7ff0_0000_0000_0000,
        similarities.len() <= usize::MAX,
    ensures
        r.len() <= match_count,
        forall|p: int|
            0 <= p < r.len() ==> (#[trigger] r[p]) < similarities.len()
                && similarities[r[p] as int] is Some && !is_nan(
                similarities[r[p] as int].unwrap(),
            ) && (similarities[r[p] as int].unwrap() >= threshold),
        forall|p: int, q: int|
            0 <= p < q < r.len() && similarities[r[q] as int].unwrap() < 0x8000_0000_0000_0000
                ==> similarities[#[trigger] r[p] as int].unwrap()
                >= similarities[#[trigger] r[q] as int].unwrap(),
        r.len() < match_count ==> forall|i: int|
            0 <= i < similarities.len() && (#[trigger] similarities[i]) is Some && threshold
                <= similarities[i].unwrap() <= 0x7ff0_0000_0000_0000 ==> r.contains(i as usize),
{
    let keys = similarity_keys(similarities);
    assert forall|p: int| 0 <= p < r.len() implies (#[trigger] r[p]) < similarities.len()
        && similarities[r[p] as int] is Some && !is_nan(similarities[r[p] as int].unwrap()) && (
    similarities[r[p] as int].unwrap() >= threshold) by {
        assert(keys[r[p] as int] == similarity_key(similarities[r[p] as int]));
    }
    assert forall|p: int, q: int|
        0 <= p < q < r.len() && similarities[r[q] as int].unwrap()
            < 0x8000_0000_0000_0000 implies similarities[#[trigger] r[p] as int].unwrap()
        >= similarities[#[trigger] r[q] as int].unwrap() by {
        assert(rank::outranks(keys, r[p] as int, r[q] as int));
        assert(keys[r[p] as int] == similarity_key(similarities[r[p] as int]));
        assert(keys[r[q] as int] == similarity_key(similarities[r[q] as int]));
    }
    if r.len() < match_count {
        assert forall|i: int|
            0 <= i < similarities.len() && (#[trigger] similarities[i]) is Some && threshold
                <= similarities[i].unwrap() <= 0x7ff0_0000_0000_0000 implies r.contains(
            i as usize,
        ) by {
            assert(keys[i] == similarity_key(similarities[i]));
        }
    }
}

/// The matches of a search, by position: those with a similarity of at least the
/// threshold, the most similar first, and at most so many. The similarities and
/// the threshold are given by the bit patterns of doubles.
pub fn pick_similar(
    similarities: &Vec<Option<u64>>,
    threshold: u64,
    match_count: usize,
) -> (r: Vec<usize>)
    ensures
        are_similar(similarities@, threshold, match_count as nat, r@),
{
    if threshold % 0x8000_0000_0000_0000 > 0x7ff0_0000_0000_0000 {
        return Vec::new();
    }
    let ghost all = similarity_keys(similarities@);
    let mut keys: Vec<i64> = Vec::new();
    let mut i: usize = 0;
    while i < similarities.len()
        invariant
            i <= similarities@.len() == all.len(),
            all == similarity_keys(similarities@),
            keys@ == all.take(i as int),
        decreases similarities.len() - i,
    {
        let key: i64 = match similarities[i] {
            Some(b) => if b % 0x8000_0000_0000_0000 > 0x7ff0_0000_0000_0000 {
                i64::MIN
            } else {
                rank::float_key(b)
            },
            None => i64::MIN,
        };
        keys.push(key);
        i = i + 1;
        assert(keys@ =~= all.take(i as int));
    }
    assert(all.take(all.len() as int) =~= all);
    rank::best(&keys, rank::float_key(threshold), match_count)
}

// ---------------------------------------------------------------------------
// Rooms and their participants
// ---------------------------------------------------------------------------

/// The statement looks for a room.
pub open spec fn gets_room(r: Statement, id: RoomId) -> bool {
    &&& r.is(
        "SELECT * FROM rooms WHERE id = ?"@,
        seq![
            BindingView::Text(id.text()),
        ],
    )
    &&& stored_id(id.text()) == id
}

/// Looks for a room.
pub fn get_room(id: &RoomId) -> (r: Statement)
    ensures
        gets_room(r, *id),
{
    let bindings = vec![
        Binding::Text(uuid_to_str(&id)),
    ];
    assert(binding_views(bindings@) =~= seq![
        BindingView::Text(id.text()),
    ]);
    Statement::new("SELECT * FROM rooms WHERE id = ?", bindings)
}

/// Stores a room, unless one with its identifier is stored. The identifiers are
/// read back from what is stored.
pub fn create_room(room: &Room) -> (r: Statement)
    ensures
        stores_room(r, *room),
{
    let bindings = vec![
        Binding::Text(uuid_to_str(&room.id)),
        Binding::Text(uuid_to_str(&room.agent_id)),
        Binding::Text(room.source.clone()),
        Binding::Text(room.channel_type.name().to_owned()),
        Binding::MaybeText(room.name.clone()),
        Binding::MaybeText(room.channel_id.clone()),
        Binding::MaybeText(opt_uuid_to_str(&room.world_id)),
        Binding::MaybeText(metadata_to_str(&room.metadata)),
    ];
    assert(binding_views(bindings@) =~= seq![
        BindingView::Text(room.id.text()),
        BindingView::Text(room.agent_id.text()),
        BindingView::Text(room.source@),
        BindingView::Text(room.channel_type.stored_name()),
        BindingView::MaybeText(text::opt_text(room.name)),
        BindingView::MaybeText(text::opt_text(room.channel_id)),
        BindingView::MaybeText(opt_id_text(room.world_id)),
        BindingView::MaybeText(metadata_text(room.metadata)),
    ]);
    Statement::new("INSERT OR IGNORE INTO rooms (id, agent_id, source, channel_type, name, channel_id, world_id, metadata) VALUES (?, ?, ?, ?, ?, ?, ?, ?)", bindings)
}

/// The statement looks for the rooms of a participant.
pub open spec fn gets_rooms(r: Statement, entity_id: EntityId) -> bool {
    &&& r.is(
        "SELECT room_id FROM participants WHERE entity_id = ?"@,
        seq![
            BindingView::Text(entity_id.text()),
        ],
    )
    &&& stored_id(entity_id.text()) == entity_id
}

/// Looks for the rooms of a participant.
pub fn get_rooms_for_participant(entity_id: &EntityId) -> (r: Statement)
    ensures
        gets_rooms(r, *entity_id),
{
    let bindings = vec![
        Binding::Text(uuid_to_str(&entity_id)),
    ];
    assert(binding_views(bindings@) =~= seq![
        BindingView::Text(entity_id.text()),
    ]);
    Statement::new("SELECT room_id FROM participants WHERE entity_id = ?", bindings)
}

/// The statement looks for the participants of a room.
pub open spec fn gets_participants(r: Statement, room_id: RoomId) -> bool {
    &&& r.is(
        "SELECT entity_id FROM participants WHERE room_id = ?"@,
        seq![
            BindingView::Text(room_id.text()),
        ],
    )
    &&& stored_id(room_id.text()) == room_id
}

/// Looks for the participants of a room.
pub fn get_participants_for_room(room_id: &RoomId) -> (r: Statement)
    ensures
        gets_participants(r, *room_id),
{
    let bindings = vec![
        Binding::Text(uuid_to_str(&room_id)),
    ];
    assert(binding_views(bindings@) =~= seq![
        BindingView::Text(room_id.text()),
    ]);
    Statement::new("SELECT entity_id FROM participants WHERE room_id = ?", bindings)
}

/// The statement adds a participant to a room under an identifier.
pub open spec fn adds_participant(
    r: Statement,
    id: Uuid,
    entity_id: EntityId,
    room_id: RoomId,
    agent_id: AgentId,
) -> bool {
    &&& r.is(
        "INSERT OR IGNORE INTO participants (id, entity_id, room_id, agent_id) VALUES (?, ?, ?, ?)"@,
        seq![
            BindingView::Text(id.text()),
            BindingView::Text(entity_id.text()),
            BindingView::Text(room_id.text()),
            BindingView::Text(agent_id.text()),
        ],
    )
    &&& stored_id(entity_id.text()) == entity_id
    &&& stored_id(room_id.text()) == room_id
    &&& stored_id(agent_id.text()) == agent_id
}

/// Adds a participant to a room, under a random identifier, unless it is one.
pub fn add_participant(entity_id: &EntityId, room_id: &RoomId, agent_id: &AgentId) -> (r: (
    Statement,
    Uuid,
))
    ensures
        ids::is_v4(r.1.bits as nat),
        adds_participant(r.0, r.1, *entity_id, *room_id, *agent_id),
{
    let id = Uuid::new_v4();
    let bindings = vec![
        Binding::Text(uuid_to_str(&id)),
        Binding::Text(uuid_to_str(entity_id)),
        Binding::Text(uuid_to_str(room_id)),
        Binding::Text(uuid_to_str(agent_id)),
    ];
    assert(binding_views(bindings@) =~= seq![
        BindingView::Text(id.text()),
        BindingView::Text(entity_id.text()),
        BindingView::Text(room_id.text()),
        BindingView::Text(agent_id.text()),
    ]);
    (
        Statement::new(
            "INSERT OR IGNORE INTO participants (id, entity_id, room_id, agent_id) VALUES (?, ?, ?, ?)",
            bindings,
        ),
        id,
    )
}

/// The statement removes a participant from a room.
pub open spec fn removes_participant(r: Statement, entity_id: EntityId, room_id: RoomId) -> bool {
    &&& r.is(
        "DELETE FROM participants WHERE entity_id = ? AND room_id = ?"@,
        seq![
            BindingView::Text(entity_id.text()),
            BindingView::Text(room_id.text()),
        ],
    )
    &&& stored_id(entity_id.text()) == entity_id
    &&& stored_id(room_id.text()) == room_id
}

/// Removes a participant from a room.
pub fn remove_participant(entity_id: &EntityId, room_id: &RoomId) -> (r: Statement)
    ensures
        removes_participant(r, *entity_id, *room_id),
{
    let bindings = vec![
        Binding::Text(uuid_to_str(&entity_id)),
        Binding::Text(uuid_to_str(&room_id)),
    ];
    assert(binding_views(bindings@) =~= seq![
        BindingView::Text(entity_id.text()),
        BindingView::Text(room_id.text()),
    ]);
    Statement::new("DELETE FROM participants WHERE entity_id = ? AND room_id = ?", bindings)
}

// ---------------------------------------------------------------------------
// Relationships
// ---------------------------------------------------------------------------

/// The statement looks for the relationship of two entities.
pub open spec fn gets_relationship(r: Statement, source: EntityId, target: EntityId, agent_id: AgentId) -> bool {
    &&& r.is(
        "SELECT * FROM relationships WHERE source_entity_id = ? AND target_entity_id = ? AND agent_id = ?"@,
        seq![
            BindingView::Text(source.text()),
            BindingView::Text(target.text()),
            BindingView::Text(agent_id.text()),
        ],
    )
    &&& stored_id(source.text()) == source
    &&& stored_id(target.text()) == target
    &&& stored_id(agent_id.text()) == agent_id
}

/// Looks for the relationship of two entities.
pub fn get_relationship(source: &EntityId, target: &EntityId, agent_id: &AgentId) -> (r: Statement)
    ensures
        gets_relationship(r, *source, *target, *agent_id),
{
    let bindings = vec![
        Binding::Text(uuid_to_str(&source)),
        Binding::Text(uuid_to_str(&target)),
        Binding::Text(uuid_to_str(&agent_id)),
    ];
    assert(binding_views(bindings@) =~= seq![
        BindingView::Text(source.text()),
        BindingView::Text(target.text()),
        BindingView::Text(agent_id.text()),
    ]);
    Statement::new("SELECT * FROM relationships WHERE source_entity_id = ? AND target_entity_id = ? AND agent_id = ?", bindings)
}

/// The statement looks for the relationships of an entity, on either side.
pub open spec fn gets_relationships(r: Statement, entity_id: EntityId) -> bool {
    &&& r.is(
        "SELECT * FROM relationships WHERE source_entity_id = ? OR target_entity_id = ?"@,
        seq![
            BindingView::Text(entity_id.text()),
            BindingView::Text(entity_id.text()),
        ],
    )
    &&& stored_id(entity_id.text()) == entity_id
}

/// Looks for the relationships of an entity, on either side.
pub fn get_relationships(entity_id: &EntityId) -> (r: Statement)
    ensures
        gets_relationships(r, *entity_id),
{
    let bindings = vec![
        Binding::Text(uuid_to_str(&entity_id)),
        Binding::Text(uuid_to_str(&entity_id)),
    ];
    assert(binding_views(bindings@) =~= seq![
        BindingView::Text(entity_id.text()),
        BindingView::Text(entity_id.text()),
    ]);
    Statement::new("SELECT * FROM relationships WHERE source_entity_id = ? OR target_entity_id = ?", bindings)
}

/// Stores a relationship, unless it is stored. The identifiers and the tags are
/// read back from what is stored.
pub fn create_relationship(rel: &Relationship) -> (r: Statement)
    ensures
        stores_relationship(r, *rel),
{
    let bindings = vec![
        Binding::Text(uuid_to_str(&rel.id)),
        Binding::Text(uuid_to_str(&rel.source_entity_id)),
        Binding::Text(uuid_to_str(&rel.target_entity_id)),
        Binding::Text(uuid_to_str(&rel.agent_id)),
        Binding::Text(outside::json_write_list(&rel.tags)),
        Binding::MaybeText(metadata_to_str(&rel.metadata)),
    ];
    assert(binding_views(bindings@) =~= seq![
        BindingView::Text(rel.id.text()),
        BindingView::Text(rel.source_entity_id.text()),
        BindingView::Text(rel.target_entity_id.text()),
        BindingView::Text(rel.agent_id.text()),
        BindingView::Text(outside::json_list(text::texts(rel.tags@))),
        BindingView::MaybeText(metadata_text(rel.metadata)),
    ]);
    Statement::new("INSERT OR IGNORE INTO relationships (id, source_entity_id, target_entity_id, agent_id, tags, metadata) VALUES (?, ?, ?, ?, ?, ?)", bindings)
}

// ---------------------------------------------------------------------------
// Components
// ---------------------------------------------------------------------------

/// The statement looks for the components of an entity, all of them or those of one
/// type.
pub open spec fn gets_components(
    r: Statement,
    entity_id: EntityId,
    component_type: Option<Seq<char>>,
) -> bool {
    &&& r.is(
        with_condition(
            "SELECT * FROM components WHERE entity_id = ?"@,
            " AND component_type = ?"@,
            component_type is Some,
        ),
        with_value(seq![BindingView::Text(entity_id.text())], component_type),
    )
    &&& stored_id(entity_id.text()) == entity_id
}

/// Looks for the components of an entity, all of them or those of one type.
pub fn get_components(entity_id: &EntityId, component_type: &Option<String>) -> (r: Statement)
    ensures
        gets_components(r, *entity_id, text::opt_text(*component_type)),
{
    let bindings = vec![Binding::Text(uuid_to_str(entity_id))];
    assert(binding_views(bindings@) =~= seq![BindingView::Text(entity_id.text())]);
    let mut s = Statement::new("SELECT * FROM components WHERE entity_id = ?", bindings);
    s.and(" AND component_type = ?", component_type.clone());
    s
}

/// Stores a component, unless it is stored. The identifiers are read back from what
/// is stored.
pub fn create_component(component: &Component) -> (r: Statement)
    ensures
        stores_component(r, *component),
{
    let bindings = vec![
        Binding::Text(uuid_to_str(&component.id)),
        Binding::Text(uuid_to_str(&component.entity_id)),
        Binding::Text(uuid_to_str(&component.agent_id)),
        Binding::MaybeText(opt_uuid_to_str(&component.room_id)),
        Binding::MaybeText(opt_uuid_to_str(&component.world_id)),
        Binding::MaybeText(opt_uuid_to_str(&component.source_entity_id)),
        Binding::Text(component.component_type.clone()),
        Binding::MaybeText(metadata_to_str(&component.data)),
    ];
    assert(binding_views(bindings@) =~= seq![
        BindingView::Text(component.id.text()),
        BindingView::Text(component.entity_id.text()),
        BindingView::Text(component.agent_id.text()),
        BindingView::MaybeText(opt_id_text(component.room_id)),
        BindingView::MaybeText(opt_id_text(component.world_id)),
        BindingView::MaybeText(opt_id_text(component.source_entity_id)),
        BindingView::Text(component.component_type@),
        BindingView::MaybeText(metadata_text(component.data)),
    ]);
    Statement::new("INSERT OR IGNORE INTO components (id, entity_id, agent_id, room_id, world_id, source_entity_id, component_type, data) VALUES (?, ?, ?, ?, ?, ?, ?, ?)", bindings)
}

/// The statement replaces the data of a component.
pub open spec fn updates_component(r: Statement, component: Component) -> bool {
    &&& r.is(
        "UPDATE components SET data = ? WHERE id = ?"@,
        seq![
            BindingView::MaybeText(metadata_text(component.data)),
            BindingView::Text(component.id.text()),
        ],
    )
    &&& stored_id(component.id.text()) == component.id
}

/// Replaces the data of a component.
pub fn update_component(component: &Component) -> (r: Statement)
    ensures
        updates_component(r, *component),
{
    let bindings = vec![
        Binding::MaybeText(metadata_to_str(&component.data)),
        Binding::Text(uuid_to_str(&component.id)),
    ];
    assert(binding_views(bindings@) =~= seq![
        BindingView::MaybeText(metadata_text(component.data)),
        BindingView::Text(component.id.text()),
    ]);
    Statement::new("UPDATE components SET data = ? WHERE id = ?", bindings)
}

/// The statement drops a component.
pub open spec fn deletes_component(r: Statement, id: Uuid) -> bool {
    &&& r.is(
        "DELETE FROM components WHERE id = ?"@,
        seq![
            BindingView::Text(id.text()),
        ],
    )
    &&& stored_id(id.text()) == id
}

/// Drops a component.
pub fn delete_component(id: &Uuid) -> (r: Statement)
    ensures
        deletes_component(r, *id),
{
    let bindings = vec![
        Binding::Text(uuid_to_str(&id)),
    ];
    assert(binding_views(bindings@) =~= seq![
        BindingView::Text(id.text()),
    ]);
    Statement::new("DELETE FROM components WHERE id = ?", bindings)
}

// ---------------------------------------------------------------------------
// Worlds
// ---------------------------------------------------------------------------

/// The statement looks for a world.
pub open spec fn gets_world(r: Statement, id: WorldId) -> bool {
    &&& r.is(
        "SELECT * FROM worlds WHERE id = ?"@,
        seq![
            BindingView::Text(id.text()),
        ],
    )
    &&& stored_id(id.text()) == id
}

/// Looks for a world.
pub fn get_world(id: &WorldId) -> (r: Statement)
    ensures
        gets_world(r, *id),
{
    let bindings = vec![
        Binding::Text(uuid_to_str(&id)),
    ];
    assert(binding_views(bindings@) =~= seq![
        BindingView::Text(id.text()),
    ]);
    Statement::new("SELECT * FROM worlds WHERE id = ?", bindings)
}

/// Stores a world, unless one with its identifier is stored. The identifiers are
/// read back from what is stored.
pub fn create_world(world: &World) -> (r: Statement)
    ensures
        stores_world(r, *world),
{
    let bindings = vec![
        Binding::Text(uuid_to_str(&world.id)),
        Binding::Text(uuid_to_str(&world.agent_id)),
        Binding::Text(world.name.clone()),
        Binding::MaybeText(metadata_to_str(&world.metadata)),
        Binding::MaybeText(world.server_id.clone()),
    ];
    assert(binding_views(bindings@) =~= seq![
        BindingView::Text(world.id.text()),
        BindingView::Text(world.agent_id.text()),
        BindingView::Text(world.name@),
        BindingView::MaybeText(metadata_text(world.metadata)),
        BindingView::MaybeText(text::opt_text(world.server_id)),
    ]);
    Statement::new("INSERT OR IGNORE INTO worlds (id, agent_id, name, metadata, server_id) VALUES (?, ?, ?, ?, ?)", bindings)
}

// ---------------------------------------------------------------------------
// The cache
// ---------------------------------------------------------------------------

/// The statement looks for a value.
pub open spec fn gets_cache(r: Statement, key: Seq<char>, agent_id: AgentId) -> bool {
    &&& r.is(
        "SELECT value, expires_at FROM cache WHERE key = ? AND agent_id = ?"@,
        seq![
            BindingView::Text(key),
            BindingView::Text(agent_id.text()),
        ],
    )
    &&& stored_id(agent_id.text()) == agent_id
}

/// Looks for a value.
pub fn get_cache(key: &str, agent_id: &AgentId) -> (r: Statement)
    ensures
        gets_cache(r, key@, *agent_id),
{
    let bindings = vec![
        Binding::Text(key.to_owned()),
        Binding::Text(uuid_to_str(&agent_id)),
    ];
    assert(binding_views(bindings@) =~= seq![
        BindingView::Text(key@),
        BindingView::Text(agent_id.text()),
    ]);
    Statement::new("SELECT value, expires_at FROM cache WHERE key = ? AND agent_id = ?", bindings)
}

/// The statement drops a value.
pub open spec fn deletes_cache(r: Statement, key: Seq<char>, agent_id: AgentId) -> bool {
    &&& r.is(
        "DELETE FROM cache WHERE key = ? AND agent_id = ?"@,
        seq![
            BindingView::Text(key),
            BindingView::Text(agent_id.text()),
        ],
    )
    &&& stored_id(agent_id.text()) == agent_id
}

/// Drops a value.
pub fn delete_cache(key: &str, agent_id: &AgentId) -> (r: Statement)
    ensures
        deletes_cache(r, key@, *agent_id),
{
    let bindings = vec![
        Binding::Text(key.to_owned()),
        Binding::Text(uuid_to_str(&agent_id)),
    ];
    assert(binding_views(bindings@) =~= seq![
        BindingView::Text(key@),
        BindingView::Text(agent_id.text()),
    ]);
    Statement::new("DELETE FROM cache WHERE key = ? AND agent_id = ?", bindings)
}

/// The text for a point in time, where there is one.
pub open spec fn opt_time_text(t: Option<Timestamp>) -> Option<Seq<char>> {
    match t {
        Some(at) => Some(at.text()),
        None => None,
    }
}

/// A value with this expiry is no longer valid.
pub open spec fn expired(expires_at: Option<Seq<char>>, now: Timestamp) -> bool {
    match expires_at {
        Some(s) => match time::parsed_time(s) {
            Some(t) => t.before(now),
            None => false,
        },
        None => false,
    }
}

/// A value without an expiry never expires. One with an expiry is valid up to it, and no
/// longer at any later time; and once it has expired it stays so.
pub proof fn values_expire(s: Seq<char>, at: Timestamp, now: Timestamp, later: Timestamp)
    requires
        time::parsed_time(s) == Some(at),
        now.before(later),
    ensures
        !expired(None, now),
        !expired(Some(s), at),
        at.before(now) ==> expired(Some(s), now),
        now.before(at) ==> !expired(Some(s), now),
        expired(Some(s), now) ==> expired(Some(s), later),
{
}

/// The statement notes a value with the text of its expiry.
pub open spec fn sets_cache(
    r: Statement,
    key: Seq<char>,
    agent_id: AgentId,
    value: Seq<char>,
    expires_at: Option<Seq<char>>,
) -> bool {
    &&& r.is(
        "INSERT OR REPLACE INTO cache (key, agent_id, value, expires_at) VALUES (?, ?, ?, ?)"@,
        seq![
            BindingView::Text(key),
            BindingView::Text(agent_id.text()),
            BindingView::Text(value),
            BindingView::MaybeText(expires_at),
        ],
    )
    &&& stored_id(agent_id.text()) == agent_id
}

/// Notes a value, given as JSON text, until it expires. What is stored of the
/// expiry lets the value expire exactly then.
pub fn set_cache(
    key: &str,
    agent_id: &AgentId,
    value: &str,
    expires_at: &Option<Timestamp>,
) -> (r: Statement)
    requires
        expires_at is Some ==> expires_at.unwrap().valid(),
    ensures
        sets_cache(r, key@, *agent_id, value@, opt_time_text(*expires_at)),
        expires_at is None ==> forall|now: Timestamp|
            !#[trigger] expired(opt_time_text(*expires_at), now),
        expires_at is Some && time::in_rfc3339_range(expires_at.unwrap().secs as int) ==> forall|
            now: Timestamp,
        | #[trigger]
            expired(opt_time_text(*expires_at), now) == expires_at.unwrap().before(now),
{
    let expires = match expires_at {
        Some(t) => Some(t.to_rfc3339()),
        None => None,
    };
    let bindings = vec![
        Binding::Text(key.to_owned()),
        Binding::Text(uuid_to_str(agent_id)),
        Binding::Text(value.to_owned()),
        Binding::MaybeText(expires),
    ];
    assert(binding_views(bindings@) =~= seq![
        BindingView::Text(key@),
        BindingView::Text(agent_id.text()),
        BindingView::Text(value@),
        BindingView::MaybeText(opt_time_text(*expires_at)),
    ]);
    Statement::new(
        "INSERT OR REPLACE INTO cache (key, agent_id, value, expires_at) VALUES (?, ?, ?, ?)",
        bindings,
    )
}

/// Whether a value is no longer valid. An expiry that is no point in time never
/// comes.
pub fn has_expired(expires_at: &Option<String>, now: &Timestamp) -> (r: bool)
    ensures
        r == expired(text::opt_text(*expires_at), *now),
{
    match expires_at {
        Some(s) => match time::parse_datetime(s.as_str()) {
            Some(t) => t.is_before(now),
            None => false,
        },
        None => false,
    }
}

// ---------------------------------------------------------------------------
// Embeddings as bytes
// ---------------------------------------------------------------------------

/// The bytes of an embedding: those of each number, the least significant
/// first.
pub open spec fn embedding_octets(e: Seq<u32>) -> Seq<u8>
    decreases e.len(),
{
    if e.len() == 0 {
        Seq::empty()
    } else {
        embedding_octets(e.drop_last()) + octets::little_endian(e.last() as nat, 4)
    }
}

/// The numbers that bytes hold, four bytes each; what is left over does not
/// count.
pub open spec fn octets_embedding(b: Seq<u8>) -> Seq<u32> {
    Seq::new(
        b.len() / 4,
        |i: int| octets::little_value(b.subrange(4 * i, 4 * i + 4)) as u32,
    )
}

/// The bytes of an embedding.
pub fn embedding_to_bytes(embedding: &Vec<u32>) -> (r: Vec<u8>)
    ensures
        r@ == embedding_octets(embedding@),
{
    let mut out: Vec<u8> = Vec::new();
    let mut i: usize = 0;
    assert(out@ =~= embedding_octets(embedding@.take(0)));
    while i < embedding.len()
        invariant
            i <= embedding@.len(),
            out@ == embedding_octets(embedding@.take(i as int)),
        decreases embedding.len() - i,
    {
        assert(embedding@.take(i + 1).drop_last() =~= embedding@.take(i as int));
        octets::push_little_endian(&mut out, embedding[i] as u64, 4);
        i = i + 1;
    }
    assert(embedding@.take(embedding@.len() as int) =~= embedding@);
    out
}

/// The value of four bytes.
proof fn lemma_four_octets(b: Seq<u8>)
    requires
        b.len() == 4,
    ensures
        octets::little_value(b) == b[0] as nat + 256 * b[1] as nat + 65536 * b[2] as nat + 16777216
            * b[3] as nat,
        octets::little_value(b) <= 0xffff_ffff,
{
    reveal_with_fuel(octets::little_value, 5);
    assert(b.drop_first()[0] == b[1]);
    assert(b.drop_first().drop_first()[0] == b[2]);
    assert(b.drop_first().drop_first().drop_first()[0] == b[3]);
}

/// The numbers that bytes hold.
pub fn bytes_to_embedding(b: &Vec<u8>) -> (r: Vec<u32>)
    ensures
        r@ == octets_embedding(b@),
{
    let ghost all = octets_embedding(b@);
    let n = b.len() / 4;
    let mut out: Vec<u32> = Vec::new();
    let mut i: usize = 0;
    while i < n
        invariant
            i <= n,
            n == b.len() / 4,
            all == octets_embedding(b@),
            out@ == all.take(i as int),
        decreases n - i,
    {
        let k = 4 * i;
        let ghost four = b@.subrange(k as int, k + 4);
        proof {
            lemma_four_octets(four);
        }
        let x: u32 = b[k] as u32 + 256 * (b[k + 1] as u32) + 65536 * (b[k + 2] as u32) + 16777216 * (
        b[k + 3] as u32);
        out.push(x);
        i = i + 1;
        assert(out@ =~= all.take(i as int));
    }
    assert(all.take(n as int) =~= all);
    out
}

/// An embedding is read back from its bytes.
#[verifier::rlimit(50)]
pub proof fn embedding_reads_back(e: Seq<u32>)
    ensures
        embedding_octets(e).len() == 4 * e.len(),
        octets_embedding(embedding_octets(e)) == e,
    decreases e.len(),
{
    let b = embedding_octets(e);
    if e.len() > 0 {
        let front = e.drop_last();
        embedding_reads_back(front);
        let fb = embedding_octets(front);
        let last = octets::little_endian(e.last() as nat, 4);
        octets::lemma_little_endian_len(e.last() as nat, 4);
        reveal_with_fuel(octets::pow256, 5);
        octets::little_endian_reads_back(e.last() as nat, 4);
        assert forall|i: int| 0 <= i < e.len() implies octets_embedding(b)[i] == e[i] by {
            if i < front.len() {
                assert(b.subrange(4 * i, 4 * i + 4) =~= fb.subrange(4 * i, 4 * i + 4));
                assert(octets_embedding(fb)[i] == front[i]);
            } else {
                assert(b.subrange(4 * i, 4 * i + 4) =~= last);
            }
        }
        assert(octets_embedding(b) =~= e);
    } else {
        assert(octets_embedding(b) =~= e);
    }
}

// ---------------------------------------------------------------------------
// Rows
// ---------------------------------------------------------------------------

/// The identifier that a stored text stands for.
fn read_id(s: &str) -> (r: Uuid)
    ensures
        r == stored_id(s@),
{
    match Uuid::parse_str(s) {
        Some(u) => u,
        None => Uuid::nil(),
    }
}

/// The identifier that a stored text stands for, where there is one.
fn read_opt_id(s: &Option<String>) -> (r: Option<Uuid>)
    ensures
        r == stored_opt_id(text::opt_text(*s)),
{
    match s {
        Some(t) => Uuid::parse_str(t.as_str()),
        None => None,
    }
}

/// The point in time that a stored text stands for, where there is one.
pub open spec fn stored_time(s: Option<Seq<char>>) -> Option<Timestamp> {
    match s {
        Some(t) => time::parsed_time(t),
        None => None,
    }
}

/// The point in time that a stored text stands for, where there is one.
fn read_time(s: &Option<String>) -> (r: Option<Timestamp>)
    ensures
        r == stored_time(text::opt_text(*s)),
{
    match s {
        Some(t) => time::parse_datetime(t.as_str()),
        None => None,
    }
}

/// The metadata that a stored text stands for: the text, where it is JSON.
pub open spec fn is_stored_metadata(m: Option<Metadata>, s: Option<Seq<char>>) -> bool {
    match s {
        Some(t) => if outside::json_valid(t) {
            m is Some && m.unwrap() is Json && m.unwrap()->Json_0@ == t
        } else {
            m is None
        },
        None => m is None,
    }
}

/// The metadata that a stored text stands for.
fn read_metadata(s: &Option<String>) -> (r: Option<Metadata>)
    ensures
        is_stored_metadata(r, text::opt_text(*s)),
{
    match s {
        Some(t) => if outside::json_is_valid(t.as_str()) {
            Some(Metadata::Json(t.clone()))
        } else {
            None
        },
        None => None,
    }
}

/// The texts that a stored list stands for; one that is no list stands for none.
pub open spec fn stored_list(s: Seq<char>) -> Seq<Seq<char>> {
    match outside::json_list_parsed(s) {
        Some(v) => v,
        None => Seq::empty(),
    }
}

/// The texts that a stored list stands for.
fn read_list(s: &str) -> (r: Vec<String>)
    ensures
        text::texts(r@) == stored_list(s@),
{
    match outside::json_parse_list(s) {
        Some(v) => v,
        None => {
            let v: Vec<String> = Vec::new();
            assert(text::texts(v@) =~= Seq::empty());
            v
        },
    }
}

/// The row of an entity.
pub struct EntityRow {
    pub id: String,
    pub agent_id: String,
    pub names: String,
    pub metadata: Option<String>,
    pub created_at: Option<String>,
}

/// The entity that a row holds.
pub open spec fn row_holds_entity(row: EntityRow, e: Entity) -> bool {
    &&& e.id == stored_id(row.id@)
    &&& e.agent_id == stored_id(row.agent_id@)
    &&& text::texts(e.names@) == stored_list(row.names@)
    &&& is_stored_metadata(e.metadata, text::opt_text(row.metadata))
    &&& e.created_at == stored_time(text::opt_text(row.created_at))
}

/// The entity that a row holds.
pub fn parse_entity_row(row: &EntityRow) -> (r: Entity)
    ensures
        row_holds_entity(*row, r),
{
    Entity {
        id: read_id(row.id.as_str()),
        agent_id: read_id(row.agent_id.as_str()),
        names: read_list(row.names.as_str()),
        metadata: read_metadata(&row.metadata),
        created_at: read_time(&row.created_at),
    }
}

/// The row of a memory. Its content is what was read in the stored text, if that
/// could be read.
pub struct MemoryRow {
    pub id: String,
    pub memory_type: String,
    pub content: Option<Content>,
    pub entity_id: String,
    pub agent_id: String,
    pub room_id: String,
    pub world_id: Option<String>,
    pub unique: i32,
    pub metadata: Option<String>,
    pub created_at: Option<String>,
}

/// The memory that a row holds.
pub open spec fn row_holds_memory(row: MemoryRow, m: Memory) -> bool {
    &&& m.id == stored_id(row.id@)
    &&& match row.content {
        Some(c) => m.content == c,
        None => m.content.is(None, None, None),
    }
    &&& m.entity_id == stored_id(row.entity_id@)
    &&& m.agent_id == stored_id(row.agent_id@)
    &&& m.room_id == stored_id(row.room_id@)
    &&& m.world_id == stored_opt_id(text::opt_text(row.world_id))
    &&& m.unique == (row.unique != 0)
    &&& m.created_at == stored_time(text::opt_text(row.created_at))
    &&& m.embedding is None
    &&& is_stored_metadata(m.metadata, text::opt_text(row.metadata))
    &&& m.memory_type == MemoryType::of_name(row.memory_type@)
}

/// The memory that a row holds.
pub fn parse_memory_row(row: MemoryRow) -> (r: Memory)
    ensures
        row_holds_memory(row, r),
{
    let content = match row.content {
        Some(c) => c,
        None => Content::default(),
    };
    Memory {
        id: read_id(row.id.as_str()),
        content,
        entity_id: read_id(row.entity_id.as_str()),
        agent_id: read_id(row.agent_id.as_str()),
        room_id: read_id(row.room_id.as_str()),
        world_id: read_opt_id(&row.world_id),
        unique: row.unique != 0,
        created_at: read_time(&row.created_at),
        embedding: None,
        metadata: read_metadata(&row.metadata),
        memory_type: MemoryType::from_name(row.memory_type.as_str()),
    }
}

/// The row of a room.
pub struct RoomRow {
    pub id: String,
    pub agent_id: String,
    pub source: String,
    pub channel_type: String,
    pub name: Option<String>,
    pub channel_id: Option<String>,
    pub world_id: Option<String>,
    pub metadata: Option<String>,
    pub created_at: Option<String>,
}

/// No character of the text needs an escape in a JSON string.
pub open spec fn is_plain(s: Seq<char>) -> bool {
    forall|i: int| 0 <= i < s.len() ==> outside::json_plain(#[trigger] s[i])
}

/// The name of a channel type that a stored text stands for: what a JSON string
/// with this text between its quotes writes.
pub open spec fn stored_channel_name(s: Seq<char>) -> Option<Seq<char>> {
    if is_plain(s) {
        Some(s)
    } else {
        outside::json_string_parsed("\""@ + s + "\""@)
    }
}

/// The channel type that a stored text stands for: one that is none stands for a
/// direct message.
pub open spec fn is_stored_channel(t: ChannelType, s: Seq<char>) -> bool {
    match stored_channel_name(s) {
        Some(name) => t.stored_name() == name || (t == ChannelType::Dm && forall|u: ChannelType|
            #[trigger] u.stored_name() != name),
        None => t == ChannelType::Dm,
    }
}

/// The channel type with this name: no name, and one that is none, stand for a
/// direct message.
pub fn channel_of_name(name: &Option<String>) -> (r: ChannelType)
    ensures
        match *name {
            Some(n) => r.stored_name() == n@ || (r == ChannelType::Dm && forall|u: ChannelType|
                #[trigger] u.stored_name() != n@),
            None => r == ChannelType::Dm,
        },
{
    match name {
        Some(n) => match ChannelType::from_name(n.as_str()) {
            Some(t) => t,
            None => ChannelType::Dm,
        },
        None => ChannelType::Dm,
    }
}

/// The channel type that a stored text stands for.
fn read_channel(s: &str) -> (r: ChannelType)
    ensures
        is_stored_channel(r, s@),
{
    let mut quoted = error::prefixed("\"", s);
    quoted.append("\"");
    let name = outside::json_parse_string(quoted.as_str());
    proof {
        reveal_strlit("\"");
        let q = quoted@;
        assert(q.subrange(1, q.len() - 1) =~= s@);
        if is_plain(s@) {
            assert forall|i: int| 0 < i < q.len() - 1 implies outside::json_plain(#[trigger] q[i]) by {
                assert(q[i] == s@[i - 1]);
            }
        }
    }
    channel_of_name(&name)
}

/// The room that a row holds.
pub open spec fn row_holds_room(row: RoomRow, r: Room) -> bool {
    &&& r.id == stored_id(row.id@)
    &&& r.agent_id == stored_id(row.agent_id@)
    &&& r.source@ == row.source@
    &&& is_stored_channel(r.channel_type, row.channel_type@)
    &&& text::opt_text(r.name) == text::opt_text(row.name)
    &&& text::opt_text(r.channel_id) == text::opt_text(row.channel_id)
    &&& r.world_id == stored_opt_id(text::opt_text(row.world_id))
    &&& is_stored_metadata(r.metadata, text::opt_text(row.metadata))
    &&& r.created_at == stored_time(text::opt_text(row.created_at))
}

/// The room that a row holds.
pub fn parse_room_row(row: &RoomRow) -> (r: Room)
    ensures
        row_holds_room(*row, r),
{
    Room {
        id: read_id(row.id.as_str()),
        agent_id: read_id(row.agent_id.as_str()),
        source: row.source.clone(),
        channel_type: read_channel(row.channel_type.as_str()),
        name: row.name.clone(),
        channel_id: row.channel_id.clone(),
        world_id: read_opt_id(&row.world_id),
        metadata: read_metadata(&row.metadata),
        created_at: read_time(&row.created_at),
    }
}

/// The row of a relationship.
pub struct RelationshipRow {
    pub id: String,
    pub source_entity_id: String,
    pub target_entity_id: String,
    pub agent_id: String,
    pub tags: String,
    pub metadata: Option<String>,
    pub created_at: Option<String>,
}

/// The relationship that a row holds.
pub open spec fn row_holds_relationship(row: RelationshipRow, r: Relationship) -> bool {
    &&& r.id == stored_id(row.id@)
    &&& r.source_entity_id == stored_id(row.source_entity_id@)
    &&& r.target_entity_id == stored_id(row.target_entity_id@)
    &&& r.agent_id == stored_id(row.agent_id@)
    &&& text::texts(r.tags@) == stored_list(row.tags@)
    &&& is_stored_metadata(r.metadata, text::opt_text(row.metadata))
    &&& r.created_at == stored_time(text::opt_text(row.created_at))
}

/// The relationship that a row holds.
pub fn parse_relationship_row(row: &RelationshipRow) -> (r: Relationship)
    ensures
        row_holds_relationship(*row, r),
{
    Relationship {
        id: read_id(row.id.as_str()),
        source_entity_id: read_id(row.source_entity_id.as_str()),
        target_entity_id: read_id(row.target_entity_id.as_str()),
        agent_id: read_id(row.agent_id.as_str()),
        tags: read_list(row.tags.as_str()),
        metadata: read_metadata(&row.metadata),
        created_at: read_time(&row.created_at),
    }
}

/// The row of a component.
pub struct ComponentRow {
    pub id: String,
    pub entity_id: String,
    pub agent_id: String,
    pub room_id: Option<String>,
    pub world_id: Option<String>,
    pub source_entity_id: Option<String>,
    pub component_type: String,
    pub data: Option<String>,
    pub created_at: Option<String>,
}

/// The component that a row holds.
pub open spec fn row_holds_component(row: ComponentRow, c: Component) -> bool {
    &&& c.id == stored_id(row.id@)
    &&& c.entity_id == stored_id(row.entity_id@)
    &&& c.agent_id == stored_id(row.agent_id@)
    &&& c.room_id == stored_opt_id(text::opt_text(row.room_id))
    &&& c.world_id == stored_opt_id(text::opt_text(row.world_id))
    &&& c.source_entity_id == stored_opt_id(text::opt_text(row.source_entity_id))
    &&& c.component_type@ == row.component_type@
    &&& is_stored_metadata(c.data, text::opt_text(row.data))
    &&& c.created_at == stored_time(text::opt_text(row.created_at))
}

/// The component that a row holds.
pub fn parse_component_row(row: &ComponentRow) -> (r: Component)
    ensures
        row_holds_component(*row, r),
{
    Component {
        id: read_id(row.id.as_str()),
        entity_id: read_id(row.entity_id.as_str()),
        agent_id: read_id(row.agent_id.as_str()),
        room_id: read_opt_id(&row.room_id),
        world_id: read_opt_id(&row.world_id),
        source_entity_id: read_opt_id(&row.source_entity_id),
        component_type: row.component_type.clone(),
        data: read_metadata(&row.data),
        created_at: read_time(&row.created_at),
    }
}

/// The row of a world.
pub struct WorldRow {
    pub id: String,
    pub agent_id: String,
    pub name: String,
    pub metadata: Option<String>,
    pub server_id: Option<String>,
    pub created_at: Option<String>,
}

/// The world that a row holds.
pub open spec fn row_holds_world(row: WorldRow, w: World) -> bool {
    &&& w.id == stored_id(row.id@)
    &&& w.agent_id == stored_id(row.agent_id@)
    &&& w.name@ == row.name@
    &&& is_stored_metadata(w.metadata, text::opt_text(row.metadata))
    &&& text::opt_text(w.server_id) == text::opt_text(row.server_id)
    &&& w.created_at == stored_time(text::opt_text(row.created_at))
}

/// The world that a row holds.
pub fn parse_world_row(row: &WorldRow) -> (r: World)
    ensures
        row_holds_world(*row, r),
{
    World {
        id: read_id(row.id.as_str()),
        agent_id: read_id(row.agent_id.as_str()),
        name: row.name.clone(),
        metadata: read_metadata(&row.metadata),
        server_id: row.server_id.clone(),
        created_at: read_time(&row.created_at),
    }
}

// ---------------------------------------------------------------------------
// What is written is read back
// ---------------------------------------------------------------------------

/// The row that the statement makes holds this text in a column.
pub open spec fn column(s: Statement, name: Seq<char>, text: Seq<char>) -> bool {
    sql::row_has(sql::row_of(s), name, BindingView::Text(text))
}

/// The row that the statement makes holds this text, or none, in a column.
pub open spec fn opt_column(s: Statement, name: Seq<char>, text: Option<Seq<char>>) -> bool {
    sql::row_has(sql::row_of(s), name, BindingView::MaybeText(text))
}

/// The statement stores an entity.
pub open spec fn stores_entity(r: Statement, entity: Entity) -> bool {
    &&& r.is(
        "INSERT OR IGNORE INTO entities (id, agent_id, names, metadata) VALUES (?, ?, ?, ?)"@,
        seq![
            BindingView::Text(entity.id.text()),
            BindingView::Text(entity.agent_id.text()),
            BindingView::Text(outside::json_list(text::texts(entity.names@))),
            BindingView::MaybeText(metadata_text(entity.metadata)),
        ],
    )
    &&& stored_id(entity.id.text()) == entity.id
    &&& stored_id(entity.agent_id.text()) == entity.agent_id
    &&& outside::json_list_parsed(outside::json_list(text::texts(entity.names@))) == Some(text::texts(entity.names@))
}

/// The row is the one that is made by the statement that stores an entity.
pub open spec fn entity_row_of(s: Statement, row: EntityRow) -> bool {
    &&& column(s, "id"@, row.id@)
    &&& column(s, "agent_id"@, row.agent_id@)
    &&& column(s, "names"@, row.names@)
    &&& opt_column(s, "metadata"@, text::opt_text(row.metadata))
}

/// The metadata that is read is that which was stored, as JSON text; what is no
/// JSON is not read.
pub open spec fn same_metadata(stored: Option<Metadata>, read: Option<Metadata>) -> bool {
    metadata_text(read) == match metadata_text(stored) {
        Some(t) => if outside::json_valid(t) {
            Some(t)
        } else {
            None
        },
        None => None,
    }
}

/// What is stored of an entity is read back from its row.
#[verifier::rlimit(50)]
pub proof fn entity_reads_back(s: Statement, entity: Entity, row: EntityRow, read: Entity)
    requires
        stores_entity(s, entity),
        entity_row_of(s, row),
        row_holds_entity(row, read),
    ensures
        read.id == entity.id,
        read.agent_id == entity.agent_id,
        text::texts(read.names@) == text::texts(entity.names@),
        same_metadata(entity.metadata, read.metadata),
{
    readings::create_entity();
    sql::lemma_row(s, 0);
    sql::lemma_row(s, 1);
    sql::lemma_row(s, 2);
    sql::lemma_row(s, 3);
}

/// The statement stores a memory.
pub open spec fn stores_memory(r: Statement, memory: Memory, content_json: Seq<char>) -> bool {
    &&& r.is(
        "INSERT OR REPLACE INTO memories (id, type, content, entity_id, agent_id, room_id, world_id, \"unique\", metadata) VALUES (?, ?, ?, ?, ?, ?, ?, ?, ?)"@,
        seq![
            BindingView::Text(memory.id.text()),
            BindingView::Text(memory.memory_type.stored_name()),
            BindingView::Text(content_json),
            BindingView::Text(memory.entity_id.text()),
            BindingView::Text(memory.agent_id.text()),
            BindingView::Text(memory.room_id.text()),
            BindingView::MaybeText(opt_id_text(memory.world_id)),
            BindingView::Int(flag(memory.unique)),
            BindingView::MaybeText(metadata_text(memory.metadata)),
        ],
    )
    &&& stored_id(memory.id.text()) == memory.id
    &&& stored_id(memory.entity_id.text()) == memory.entity_id
    &&& stored_id(memory.agent_id.text()) == memory.agent_id
    &&& stored_id(memory.room_id.text()) == memory.room_id
    &&& stored_opt_id(opt_id_text(memory.world_id)) == memory.world_id
}

/// The row is the one that is made by the statement that stores a memory.
pub open spec fn memory_row_of(s: Statement, row: MemoryRow) -> bool {
    &&& column(s, "id"@, row.id@)
    &&& column(s, "type"@, row.memory_type@)
    &&& column(s, "entity_id"@, row.entity_id@)
    &&& column(s, "agent_id"@, row.agent_id@)
    &&& column(s, "room_id"@, row.room_id@)
    &&& opt_column(s, "world_id"@, text::opt_text(row.world_id))
    &&& sql::row_has(sql::row_of(s), "\"unique\""@, BindingView::Int(row.unique as int))
    &&& opt_column(s, "metadata"@, text::opt_text(row.metadata))
}

/// What is stored of a memory is read back from its row.
#[verifier::rlimit(50)]
pub proof fn memory_reads_back(s: Statement, memory: Memory, content_json: Seq<char>, row: MemoryRow, read: Memory)
    requires
        stores_memory(s, memory, content_json),
        memory_row_of(s, row),
        row_holds_memory(row, read),
    ensures
        read.id == memory.id,
        read.memory_type == memory.memory_type,
        read.entity_id == memory.entity_id,
        read.agent_id == memory.agent_id,
        read.room_id == memory.room_id,
        read.world_id == memory.world_id,
        read.unique == memory.unique,
        same_metadata(memory.metadata, read.metadata),
{
    readings::create_memory();
    sql::lemma_row(s, 0);
    sql::lemma_row(s, 1);
    sql::lemma_row(s, 2);
    sql::lemma_row(s, 3);
    sql::lemma_row(s, 4);
    sql::lemma_row(s, 5);
    sql::lemma_row(s, 6);
    sql::lemma_row(s, 7);
    sql::lemma_row(s, 8);
    crate::types::memory_type_reads_back(memory.memory_type);
}

/// The statement stores a room.
pub open spec fn stores_room(r: Statement, room: Room) -> bool {
    &&& r.is(
        "INSERT OR IGNORE INTO rooms (id, agent_id, source, channel_type, name, channel_id, world_id, metadata) VALUES (?, ?, ?, ?, ?, ?, ?, ?)"@,
        seq![
            BindingView::Text(room.id.text()),
            BindingView::Text(room.agent_id.text()),
            BindingView::Text(room.source@),
            BindingView::Text(room.channel_type.stored_name()),
            BindingView::MaybeText(text::opt_text(room.name)),
            BindingView::MaybeText(text::opt_text(room.channel_id)),
            BindingView::MaybeText(opt_id_text(room.world_id)),
            BindingView::MaybeText(metadata_text(room.metadata)),
        ],
    )
    &&& stored_id(room.id.text()) == room.id
    &&& stored_id(room.agent_id.text()) == room.agent_id
    &&& stored_opt_id(opt_id_text(room.world_id)) == room.world_id
}

/// The row is the one that is made by the statement that stores a room.
pub open spec fn room_row_of(s: Statement, row: RoomRow) -> bool {
    &&& column(s, "id"@, row.id@)
    &&& column(s, "agent_id"@, row.agent_id@)
    &&& column(s, "source"@, row.source@)
    &&& column(s, "channel_type"@, row.channel_type@)
    &&& opt_column(s, "name"@, text::opt_text(row.name))
    &&& opt_column(s, "channel_id"@, text::opt_text(row.channel_id))
    &&& opt_column(s, "world_id"@, text::opt_text(row.world_id))
    &&& opt_column(s, "metadata"@, text::opt_text(row.metadata))
}

/// What is stored of a room is read back from its row.
#[verifier::rlimit(50)]
pub proof fn room_reads_back(s: Statement, room: Room, row: RoomRow, read: Room)
    requires
        stores_room(s, room),
        room_row_of(s, row),
        row_holds_room(row, read),
    ensures
        read.id == room.id,
        read.agent_id == room.agent_id,
        read.source@ == room.source@,
        read.channel_type == room.channel_type,
        text::opt_text(read.name) == text::opt_text(room.name),
        text::opt_text(read.channel_id) == text::opt_text(room.channel_id),
        read.world_id == room.world_id,
        same_metadata(room.metadata, read.metadata),
{
    readings::create_room();
    sql::lemma_row(s, 0);
    sql::lemma_row(s, 1);
    sql::lemma_row(s, 2);
    sql::lemma_row(s, 3);
    sql::lemma_row(s, 4);
    sql::lemma_row(s, 5);
    sql::lemma_row(s, 6);
    sql::lemma_row(s, 7);
    lemma_channel_names_are_plain(room.channel_type);
    crate::types::channel_names_differ(read.channel_type, room.channel_type);
}

/// The statement stores a relationship.
pub open spec fn stores_relationship(r: Statement, rel: Relationship) -> bool {
    &&& r.is(
        "INSERT OR IGNORE INTO relationships (id, source_entity_id, target_entity_id, agent_id, tags, metadata) VALUES (?, ?, ?, ?, ?, ?)"@,
        seq![
            BindingView::Text(rel.id.text()),
            BindingView::Text(rel.source_entity_id.text()),
            BindingView::Text(rel.target_entity_id.text()),
            BindingView::Text(rel.agent_id.text()),
            BindingView::Text(outside::json_list(text::texts(rel.tags@))),
            BindingView::MaybeText(metadata_text(rel.metadata)),
        ],
    )
    &&& stored_id(rel.id.text()) == rel.id
    &&& stored_id(rel.source_entity_id.text()) == rel.source_entity_id
    &&& stored_id(rel.target_entity_id.text()) == rel.target_entity_id
    &&& stored_id(rel.agent_id.text()) == rel.agent_id
    &&& outside::json_list_parsed(outside::json_list(text::texts(rel.tags@))) == Some(text::texts(rel.tags@))
}

/// The row is the one that is made by the statement that stores a relationship.
pub open spec fn relationship_row_of(s: Statement, row: RelationshipRow) -> bool {
    &&& column(s, "id"@, row.id@)
    &&& column(s, "source_entity_id"@, row.source_entity_id@)
    &&& column(s, "target_entity_id"@, row.target_entity_id@)
    &&& column(s, "agent_id"@, row.agent_id@)
    &&& column(s, "tags"@, row.tags@)
    &&& opt_column(s, "metadata"@, text::opt_text(row.metadata))
}

/// What is stored of a relationship is read back from its row.
#[verifier::rlimit(50)]
pub proof fn relationship_reads_back(s: Statement, rel: Relationship, row: RelationshipRow, read: Relationship)
    requires
        stores_relationship(s, rel),
        relationship_row_of(s, row),
        row_holds_relationship(row, read),
    ensures
        read.id == rel.id,
        read.source_entity_id == rel.source_entity_id,
        read.target_entity_id == rel.target_entity_id,
        read.agent_id == rel.agent_id,
        text::texts(read.tags@) == text::texts(rel.tags@),
        same_metadata(rel.metadata, read.metadata),
{
    readings::create_relationship();
    sql::lemma_row(s, 0);
    sql::lemma_row(s, 1);
    sql::lemma_row(s, 2);
    sql::lemma_row(s, 3);
    sql::lemma_row(s, 4);
    sql::lemma_row(s, 5);
}

/// The statement stores a component.
pub open spec fn stores_component(r: Statement, component: Component) -> bool {
    &&& r.is(
        "INSERT OR IGNORE INTO components (id, entity_id, agent_id, room_id, world_id, source_entity_id, component_type, data) VALUES (?, ?, ?, ?, ?, ?, ?, ?)"@,
        seq![
            BindingView::Text(component.id.text()),
            BindingView::Text(component.entity_id.text()),
            BindingView::Text(component.agent_id.text()),
            BindingView::MaybeText(opt_id_text(component.room_id)),
            BindingView::MaybeText(opt_id_text(component.world_id)),
            BindingView::MaybeText(opt_id_text(component.source_entity_id)),
            BindingView::Text(component.component_type@),
            BindingView::MaybeText(metadata_text(component.data)),
        ],
    )
    &&& stored_id(component.id.text()) == component.id
    &&& stored_id(component.entity_id.text()) == component.entity_id
    &&& stored_id(component.agent_id.text()) == component.agent_id
    &&& stored_opt_id(opt_id_text(component.room_id)) == component.room_id
    &&& stored_opt_id(opt_id_text(component.world_id)) == component.world_id
    &&& stored_opt_id(opt_id_text(component.source_entity_id)) == component.source_entity_id
}

/// The row is the one that is made by the statement that stores a component.
pub open spec fn component_row_of(s: Statement, row: ComponentRow) -> bool {
    &&& column(s, "id"@, row.id@)
    &&& column(s, "entity_id"@, row.entity_id@)
    &&& column(s, "agent_id"@, row.agent_id@)
    &&& opt_column(s, "room_id"@, text::opt_text(row.room_id))
    &&& opt_column(s, "world_id"@, text::opt_text(row.world_id))
    &&& opt_column(s, "source_entity_id"@, text::opt_text(row.source_entity_id))
    &&& column(s, "component_type"@, row.component_type@)
    &&& opt_column(s, "data"@, text::opt_text(row.data))
}

/// What is stored of a component is read back from its row.
#[verifier::rlimit(50)]
pub proof fn component_reads_back(s: Statement, component: Component, row: ComponentRow, read: Component)
    requires
        stores_component(s, component),
        component_row_of(s, row),
        row_holds_component(row, read),
    ensures
        read.id == component.id,
        read.entity_id == component.entity_id,
        read.agent_id == component.agent_id,
        read.room_id == component.room_id,
        read.world_id == component.world_id,
        read.source_entity_id == component.source_entity_id,
        read.component_type@ == component.component_type@,
        same_metadata(component.data, read.data),
{
    readings::create_component();
    sql::lemma_row(s, 0);
    sql::lemma_row(s, 1);
    sql::lemma_row(s, 2);
    sql::lemma_row(s, 3);
    sql::lemma_row(s, 4);
    sql::lemma_row(s, 5);
    sql::lemma_row(s, 6);
    sql::lemma_row(s, 7);
}

/// The statement stores a world.
pub open spec fn stores_world(r: Statement, world: World) -> bool {
    &&& r.is(
        "INSERT OR IGNORE INTO worlds (id, agent_id, name, metadata, server_id) VALUES (?, ?, ?, ?, ?)"@,
        seq![
            BindingView::Text(world.id.text()),
            BindingView::Text(world.agent_id.text()),
            BindingView::Text(world.name@),
            BindingView::MaybeText(metadata_text(world.metadata)),
            BindingView::MaybeText(text::opt_text(world.server_id)),
        ],
    )
    &&& stored_id(world.id.text()) == world.id
    &&& stored_id(world.agent_id.text()) == world.agent_id
}

/// The row is the one that is made by the statement that stores a world.
pub open spec fn world_row_of(s: Statement, row: WorldRow) -> bool {
    &&& column(s, "id"@, row.id@)
    &&& column(s, "agent_id"@, row.agent_id@)
    &&& column(s, "name"@, row.name@)
    &&& opt_column(s, "metadata"@, text::opt_text(row.metadata))
    &&& opt_column(s, "server_id"@, text::opt_text(row.server_id))
}

/// What is stored of a world is read back from its row.
#[verifier::rlimit(50)]
pub proof fn world_reads_back(s: Statement, world: World, row: WorldRow, read: World)
    requires
        stores_world(s, world),
        world_row_of(s, row),
        row_holds_world(row, read),
    ensures
        read.id == world.id,
        read.agent_id == world.agent_id,
        read.name@ == world.name@,
        text::opt_text(read.server_id) == text::opt_text(world.server_id),
        same_metadata(world.metadata, read.metadata),
{
    readings::create_world();
    sql::lemma_row(s, 0);
    sql::lemma_row(s, 1);
    sql::lemma_row(s, 2);
    sql::lemma_row(s, 3);
    sql::lemma_row(s, 4);
}

/// The names of channel types need no escapes.
proof fn lemma_channel_names_are_plain(t: ChannelType)
    ensures
        is_plain(t.stored_name()),
{
    reveal_strlit("SELF");
    reveal_strlit("DM");
    reveal_strlit("GROUP");
    reveal_strlit("VOICE_DM");
    reveal_strlit("VOICE_GROUP");
    reveal_strlit("FEED");
    reveal_strlit("THREAD");
    reveal_strlit("WORLD");
    reveal_strlit("FORUM");
    reveal_strlit("API");
}

} // verus!
