//! What is stored is found: which rows the statements look for, change and drop.
use vstd::prelude::*;

use crate::ids::{AgentId, EntityId, MemoryId, RoomId, Uuid, WorldId};
use crate::lines;
use crate::number;
use crate::readings;
use crate::sql;
use crate::storage;
use crate::storage::{BindingView, Statement};
use crate::types;
use crate::types::{
    Component, Entity, GetMemoriesParams, Memory, MemoryType, Relationship, Room,
    SearchMemoriesParams, World,
};

verus! {

/// The statement looks for rows of the table that `stored` fills.
pub open spec fn looks_up(s: Statement, stored: Statement) -> bool {
    sql::read(s.sql@).verb == "SELECT"@ && sql::read(s.sql@).table == sql::read(stored.sql@).table
}

/// The statement changes rows of the table that `stored` fills.
pub open spec fn changes(s: Statement, stored: Statement) -> bool {
    sql::read(s.sql@).verb == "UPDATE"@ && sql::read(s.sql@).table == sql::read(stored.sql@).table
}

/// The statement drops rows of the table that `stored` fills.
pub open spec fn drops(s: Statement, stored: Statement) -> bool {
    sql::read(s.sql@).verb == "DELETE"@ && sql::read(s.sql@).table == sql::read(stored.sql@).table
}

/// The statement gives whole rows.
pub open spec fn gives_all(s: Statement) -> bool {
    sql::read(s.sql@).columns == seq!["*"@]
}

/// Texts of identifiers are equal where the identifiers are.
#[verifier::rlimit(50)]
proof fn lemma_same_id(a: Uuid, b: Uuid)
    requires
        storage::stored_id(a.text()) == a,
        storage::stored_id(b.text()) == b,
    ensures
        sql::same(BindingView::Text(a.text()), BindingView::Text(b.text())) == (a == b),
{
}

/// An entity that is stored is found by its identifier, and by no other.
#[verifier::rlimit(50)]
pub proof fn entities_are_found(
    s: Statement,
    entity: Entity,
    g: Statement,
    id: EntityId,
)
    requires
        storage::stores_entity(s, entity),
        storage::gets_entity(g, id),
    ensures
        looks_up(g, s),
        gives_all(g),
        sql::finds(g, sql::row_of(s)) <==> id == entity.id,
{
    readings::create_entity();
    readings::get_entity();
    sql::lemma_row(s, 0);
    lemma_same_id(entity.id, id);
    if sql::holds(g, sql::row_of(s), 0) {
        assert(sql::finds(g, sql::row_of(s)));
    }
}

/// A room that is stored is found by its identifier, and by no other.
#[verifier::rlimit(50)]
pub proof fn rooms_are_found(
    s: Statement,
    room: Room,
    g: Statement,
    id: RoomId,
)
    requires
        storage::stores_room(s, room),
        storage::gets_room(g, id),
    ensures
        looks_up(g, s),
        gives_all(g),
        sql::finds(g, sql::row_of(s)) <==> id == room.id,
{
    readings::create_room();
    readings::get_room();
    sql::lemma_row(s, 0);
    lemma_same_id(room.id, id);
    if sql::holds(g, sql::row_of(s), 0) {
        assert(sql::finds(g, sql::row_of(s)));
    }
}

/// A world that is stored is found by its identifier, and by no other.
#[verifier::rlimit(50)]
pub proof fn worlds_are_found(
    s: Statement,
    world: World,
    g: Statement,
    id: WorldId,
)
    requires
        storage::stores_world(s, world),
        storage::gets_world(g, id),
    ensures
        looks_up(g, s),
        gives_all(g),
        sql::finds(g, sql::row_of(s)) <==> id == world.id,
{
    readings::create_world();
    readings::get_world();
    sql::lemma_row(s, 0);
    lemma_same_id(world.id, id);
    if sql::holds(g, sql::row_of(s), 0) {
        assert(sql::finds(g, sql::row_of(s)));
    }
}

/// A memory that is stored is found by its identifier, and by no other.
#[verifier::rlimit(50)]
pub proof fn memories_are_found(
    s: Statement,
    memory: Memory,
    content_json: Seq<char>,
    g: Statement,
    id: MemoryId,
)
    requires
        storage::stores_memory(s, memory, content_json),
        storage::gets_memory(g, id),
    ensures
        looks_up(g, s),
        gives_all(g),
        sql::finds(g, sql::row_of(s)) <==> id == memory.id,
{
    readings::create_memory();
    readings::get_memory();
    sql::lemma_row(s, 0);
    lemma_same_id(memory.id, id);
    if sql::holds(g, sql::row_of(s), 0) {
        assert(sql::finds(g, sql::row_of(s)));
    }
}

/// The memory that is dropped is the one with the identifier, and no other.
#[verifier::rlimit(50)]
pub proof fn memories_are_dropped(
    s: Statement,
    memory: Memory,
    content_json: Seq<char>,
    g: Statement,
    id: MemoryId,
)
    requires
        storage::stores_memory(s, memory, content_json),
        storage::deletes_memory(g, id),
    ensures
        drops(g, s),
        sql::finds(g, sql::row_of(s)) <==> id == memory.id,
{
    readings::create_memory();
    readings::delete_memory();
    sql::lemma_row(s, 0);
    lemma_same_id(memory.id, id);
    if sql::holds(g, sql::row_of(s), 0) {
        assert(sql::finds(g, sql::row_of(s)));
    }
}

/// The component that is dropped is the one with the identifier, and no other.
#[verifier::rlimit(50)]
pub proof fn components_are_dropped(
    s: Statement,
    component: Component,
    g: Statement,
    id: Uuid,
)
    requires
        storage::stores_component(s, component),
        storage::deletes_component(g, id),
    ensures
        drops(g, s),
        sql::finds(g, sql::row_of(s)) <==> id == component.id,
{
    readings::create_component();
    readings::delete_component();
    sql::lemma_row(s, 0);
    lemma_same_id(component.id, id);
    if sql::holds(g, sql::row_of(s), 0) {
        assert(sql::finds(g, sql::row_of(s)));
    }
}

/// A change to an entity concerns the one with its identifier, and makes its row the
/// one that the changed entity would be stored as.
#[verifier::rlimit(50)]
pub proof fn entities_are_changed(
    s: Statement,
    entity: Entity,
    u: Statement,
    changed: Entity,
    s2: Statement,
)
    requires
        storage::stores_entity(s, entity),
        storage::updates_entity(u, changed),
        storage::stores_entity(s2, changed),
        entity.agent_id == changed.agent_id,
    ensures
        changes(u, s),
        sql::finds(u, sql::row_of(s)) <==> changed.id == entity.id,
        changed.id == entity.id ==> sql::changed(u, sql::row_of(s)) =~= sql::row_of(s2),
{
    readings::create_entity();
    readings::update_entity();
    sql::lemma_row(s, 0);
    sql::lemma_row(s, 1);
    sql::lemma_row(s, 2);
    sql::lemma_row(s, 3);
    sql::lemma_row(s2, 0);
    sql::lemma_row(s2, 1);
    sql::lemma_row(s2, 2);
    sql::lemma_row(s2, 3);
    lemma_same_id(entity.id, changed.id);
    let row = sql::row_of(s);
    if sql::holds(u, row, 0) {
        assert(sql::finds(u, row));
    }
    let sets = sql::read(u.sql@).sets;
    sql::lemma_place(sets, 0, 0);
    sql::lemma_place(sets, 1, 0);
    if changed.id == entity.id {
        let cs = sql::read(s.sql@).columns;
        assert forall|c: Seq<char>| #[trigger]
            sql::changed(u, row).contains_key(c) == sql::row_of(s2).contains_key(c) by {
            if sets.contains(c) {
                let k = choose|k: int| 0 <= k < sets.len() && sets[k] == c;
                assert(cs.contains(cs[k + 2]));
            }
        }
        assert forall|c: Seq<char>| sql::changed(u, row).contains_key(c) implies #[trigger]
            sql::changed(u, row)[c] == sql::row_of(s2)[c] by {
            assert(sql::row_of(s2).contains_key(c));
            let k = choose|k: int| 0 <= k < cs.len() && cs[k] == c;
            sql::lemma_place(cs, k, 0);
            if k >= 2 {
                assert(sets[k - 2] == c);
                sql::lemma_place(sets, k - 2, 0);
            } else if sets.contains(c) {
                let j = choose|j: int| 0 <= j < sets.len() && sets[j] == c;
                assert(cs[j + 2] == cs[k]);
            }
        }
    }
}

/// A change to a component concerns the one with its identifier, and puts its data in
/// the place of those that are stored.
#[verifier::rlimit(50)]
pub proof fn components_are_changed(
    s: Statement,
    component: Component,
    u: Statement,
    changed: Component,
)
    requires
        storage::stores_component(s, component),
        storage::updates_component(u, changed),
    ensures
        changes(u, s),
        sql::finds(u, sql::row_of(s)) <==> changed.id == component.id,
        sql::row_has(
            sql::changed(u, sql::row_of(s)),
            "data"@,
            BindingView::MaybeText(storage::metadata_text(changed.data)),
        ),
        forall|c: Seq<char>|
            c != "data"@ && sql::row_of(s).contains_key(c) ==> #[trigger] sql::row_has(
                sql::changed(u, sql::row_of(s)),
                c,
                sql::row_of(s)[c],
            ),
{
    readings::create_component();
    readings::update_component();
    sql::lemma_row(s, 0);
    lemma_same_id(component.id, changed.id);
    let row = sql::row_of(s);
    if sql::holds(u, row, 0) {
        assert(sql::finds(u, row));
    }
    sql::lemma_changed(u, row);
    assert(sql::read(u.sql@).sets[0] == "data"@);
}

/// The components of an entity are found by the entity, and by their type where one is
/// given.
#[verifier::rlimit(50)]
pub proof fn components_are_found(
    s: Statement,
    component: Component,
    g: Statement,
    entity_id: EntityId,
    component_type: Option<Seq<char>>,
)
    requires
        storage::stores_component(s, component),
        storage::gets_components(g, entity_id, component_type),
    ensures
        looks_up(g, s),
        gives_all(g),
        sql::finds(g, sql::row_of(s)) <==> entity_id == component.entity_id && (
        component_type is None || component_type == Some(component.component_type@)),
{
    readings::create_component();
    readings::get_components();
    sql::lemma_row(s, 1);
    sql::lemma_row(s, 6);
    lemma_same_id(component.entity_id, entity_id);
    let row = sql::row_of(s);
    if component_type is Some {
        readings::get_components_of_type();
        reveal_strlit("SELECT * FROM components WHERE entity_id = ?");
        reveal_strlit(" AND component_type = ?");
        reveal_strlit("SELECT * FROM components WHERE entity_id = ? AND component_type = ?");
        assert(g.sql@ =~= "SELECT * FROM components WHERE entity_id = ? AND component_type = ?"@);
        assert(sql::finds(g, row) == (sql::holds(g, row, 0) && sql::holds(g, row, 1)));
    } else {
        assert(sql::finds(g, row) == sql::holds(g, row, 0));
    }
}

/// A participant that is added to a room is found among those of the room, and the
/// room among those of the participant; removed is the one participant from the one
/// room.
#[verifier::rlimit(50)]
pub proof fn participants_are_found(
    s: Statement,
    id: Uuid,
    entity_id: EntityId,
    room_id: RoomId,
    agent_id: AgentId,
    of_entity: Statement,
    of_room: Statement,
    out: Statement,
    entity: EntityId,
    room: RoomId,
)
    requires
        storage::adds_participant(s, id, entity_id, room_id, agent_id),
        storage::gets_rooms(of_entity, entity),
        storage::gets_participants(of_room, room),
        storage::removes_participant(out, entity, room),
    ensures
        looks_up(of_entity, s),
        sql::finds(of_entity, sql::row_of(s)) <==> entity == entity_id,
        sql::read(of_entity.sql@).columns.len() == 1,
        sql::row_has(
            sql::row_of(s),
            sql::read(of_entity.sql@).columns[0],
            BindingView::Text(room_id.text()),
        ),
        looks_up(of_room, s),
        sql::finds(of_room, sql::row_of(s)) <==> room == room_id,
        sql::read(of_room.sql@).columns.len() == 1,
        sql::row_has(
            sql::row_of(s),
            sql::read(of_room.sql@).columns[0],
            BindingView::Text(entity_id.text()),
        ),
        drops(out, s),
        sql::finds(out, sql::row_of(s)) <==> entity == entity_id && room == room_id,
        sql::row_has(sql::row_of(s), "agent_id"@, BindingView::Text(agent_id.text())),
{
    readings::add_participant();
    readings::get_rooms();
    readings::get_participants();
    readings::remove_participant();
    sql::lemma_row(s, 1);
    sql::lemma_row(s, 2);
    sql::lemma_row(s, 3);
    lemma_same_id(entity_id, entity);
    lemma_same_id(room_id, room);
    let row = sql::row_of(s);
    assert(sql::finds(of_entity, row) == sql::holds(of_entity, row, 0));
    assert(sql::finds(of_room, row) == sql::holds(of_room, row, 0));
    assert(sql::finds(out, row) == (sql::holds(out, row, 0) && sql::holds(out, row, 1)));
}

/// A relationship is found by its two sides and the agent, and among those of the
/// entity on either side.
#[verifier::rlimit(50)]
pub proof fn relationships_are_found(
    s: Statement,
    rel: Relationship,
    one: Statement,
    source: EntityId,
    target: EntityId,
    agent_id: AgentId,
    all: Statement,
    entity: EntityId,
)
    requires
        storage::stores_relationship(s, rel),
        storage::gets_relationship(one, source, target, agent_id),
        storage::gets_relationships(all, entity),
    ensures
        looks_up(one, s),
        gives_all(one),
        sql::finds(one, sql::row_of(s)) <==> source == rel.source_entity_id && target
            == rel.target_entity_id && agent_id == rel.agent_id,
        looks_up(all, s),
        gives_all(all),
        sql::finds(all, sql::row_of(s)) <==> entity == rel.source_entity_id || entity
            == rel.target_entity_id,
{
    readings::create_relationship();
    readings::get_relationship();
    readings::get_relationships();
    sql::lemma_row(s, 1);
    sql::lemma_row(s, 2);
    sql::lemma_row(s, 3);
    lemma_same_id(rel.source_entity_id, source);
    lemma_same_id(rel.target_entity_id, target);
    lemma_same_id(rel.agent_id, agent_id);
    lemma_same_id(rel.source_entity_id, entity);
    lemma_same_id(rel.target_entity_id, entity);
    let row = sql::row_of(s);
    assert(sql::finds(one, row) == (sql::holds(one, row, 0) && sql::holds(one, row, 1)
        && sql::holds(one, row, 2)));
    assert(sql::finds(all, row) == (sql::holds(all, row, 0) || sql::holds(all, row, 1)));
}

/// A value that is noted is found, and dropped, by its key and its agent; what is found
/// is the value and its expiry. A value that is noted anew takes the place of the one
/// before.
#[verifier::rlimit(50)]
pub proof fn values_are_found(
    s: Statement,
    key: Seq<char>,
    agent_id: AgentId,
    value: Seq<char>,
    expires_at: Option<Seq<char>>,
    g: Statement,
    d: Statement,
    other_key: Seq<char>,
    other_agent: AgentId,
)
    requires
        storage::sets_cache(s, key, agent_id, value, expires_at),
        storage::gets_cache(g, other_key, other_agent),
        storage::deletes_cache(d, other_key, other_agent),
    ensures
        sql::read(s.sql@).replaces,
        looks_up(g, s),
        sql::finds(g, sql::row_of(s)) <==> other_key == key && other_agent == agent_id,
        sql::read(g.sql@).columns.len() == 2,
        sql::row_has(
            sql::row_of(s),
            sql::read(g.sql@).columns[0],
            BindingView::Text(value),
        ),
        sql::row_has(
            sql::row_of(s),
            sql::read(g.sql@).columns[1],
            BindingView::MaybeText(expires_at),
        ),
        drops(d, s),
        sql::finds(d, sql::row_of(s)) <==> other_key == key && other_agent == agent_id,
{
    readings::set_cache();
    readings::get_cache();
    readings::delete_cache();
    sql::lemma_row(s, 0);
    sql::lemma_row(s, 1);
    sql::lemma_row(s, 2);
    sql::lemma_row(s, 3);
    lemma_same_id(agent_id, other_agent);
    let row = sql::row_of(s);
    assert(sql::finds(g, row) == (sql::holds(g, row, 0) && sql::holds(g, row, 1)));
    assert(sql::finds(d, row) == (sql::holds(d, row, 0) && sql::holds(d, row, 1)));
}

/// The names of memory types differ.
#[verifier::rlimit(50)]
proof fn lemma_types_differ(a: MemoryType, b: MemoryType)
    ensures
        a.stored_name() == b.stored_name() <==> a == b,
{
    types::memory_type_reads_back(a);
    types::memory_type_reads_back(b);
}

/// Flags are equal where their numbers are, as numbers and as texts.
#[verifier::rlimit(50)]
proof fn lemma_flags(a: bool, b: bool)
    ensures
        sql::same(
            BindingView::Int(storage::flag(a)),
            BindingView::Int(storage::flag(b)),
        ) == (a == b),
        sql::same(
            BindingView::Int(storage::flag(a)),
            BindingView::Text(storage::flag_text(Some(b)).unwrap()),
        ) == (a == b),
{
    reveal_strlit("0");
    reveal_strlit("1");
    reveal_with_fuel(number::decimal, 2);
    assert(number::signed_decimal(0) =~= "0"@);
    assert(number::signed_decimal(1) =~= "1"@);
    assert("0"@[0] == '0' && "1"@[0] == '1');
}

/// A memory is counted among those of its kind in its room, and among no others.
#[verifier::rlimit(50)]
pub proof fn memories_are_counted(
    s: Statement,
    memory: Memory,
    content_json: Seq<char>,
    c: Statement,
    room_id: RoomId,
    unique: bool,
    memory_type: MemoryType,
)
    requires
        storage::stores_memory(s, memory, content_json),
        storage::counts_memories(c, room_id, unique, memory_type),
    ensures
        looks_up(c, s),
        sql::finds(c, sql::row_of(s)) <==> room_id == memory.room_id && unique == memory.unique
            && memory_type == memory.memory_type,
{
    readings::create_memory();
    readings::count_memories();
    sql::lemma_row(s, 1);
    sql::lemma_row(s, 5);
    sql::lemma_row(s, 7);
    lemma_same_id(memory.room_id, room_id);
    lemma_types_differ(memory.memory_type, memory_type);
    lemma_flags(memory.unique, unique);
    let row = sql::row_of(s);
    assert(sql::finds(c, row) == (sql::holds(c, row, 0) && sql::holds(c, row, 1) && sql::holds(
        c,
        row,
        2,
    )));
}

/// A memory that is stored takes the place of one with the same identifier, and its
/// content is what is stored of it.
#[verifier::rlimit(50)]
pub proof fn memories_hold_their_content(s: Statement, memory: Memory, content_json: Seq<char>)
    requires
        storage::stores_memory(s, memory, content_json),
    ensures
        sql::read(s.sql@).replaces,
        sql::row_has(sql::row_of(s), "content"@, BindingView::Text(content_json)),
{
    readings::create_memory();
    sql::lemma_row(s, 2);
}

/// An embedding is stored with the memory that it is of, and takes the place of the
/// one before.
#[verifier::rlimit(50)]
pub proof fn embeddings_belong_to_memories(
    s: Statement,
    memory: Memory,
    content_json: Seq<char>,
    e: Statement,
    id: Uuid,
    memory_id: MemoryId,
    embedding: Seq<u32>,
)
    requires
        storage::stores_memory(s, memory, content_json),
        storage::stores_embedding(e, id, memory_id, embedding),
    ensures
        sql::read(e.sql@).replaces,
        sql::same(sql::row_of(e)["memory_id"@], sql::row_of(s)["id"@]) <==> memory_id == memory.id,
        sql::row_of(e).contains_key("embedding"@),
        sql::row_of(e)["embedding"@] is Blob,
        storage::octets_embedding(sql::row_of(e)["embedding"@]->Blob_0) == embedding,
{
    readings::create_memory();
    readings::create_embedding();
    sql::lemma_row(s, 0);
    sql::lemma_row(e, 1);
    sql::lemma_row(e, 2);
    lemma_same_id(memory_id, memory.id);
    storage::embedding_reads_back(embedding);
}

// ---------------------------------------------------------------------------
// Memories by any conditions
// ---------------------------------------------------------------------------

/// The row holds a value that equals this one.
pub open spec fn row_is(row: sql::Row, c: Seq<char>, v: BindingView) -> bool {
    row.contains_key(c) && sql::same(row[c], v)
}

/// The row holds what each of the columns is compared with.
pub open spec fn all_hold(row: sql::Row, cs: Seq<Seq<char>>, vs: Seq<BindingView>) -> bool {
    forall|k: int| 0 <= k < cs.len() ==> row_is(row, #[trigger] cs[k], vs[k])
}

/// Columns with one more, where it is compared.
pub open spec fn with_column(cs: Seq<Seq<char>>, c: Seq<char>, given: bool) -> Seq<Seq<char>> {
    if given {
        cs.push(c)
    } else {
        cs
    }
}

/// One comparison more must hold where it is made.
#[verifier::rlimit(50)]
proof fn lemma_with_value(
    row: sql::Row,
    cs: Seq<Seq<char>>,
    vs: Seq<BindingView>,
    c: Seq<char>,
    value: Option<Seq<char>>,
)
    requires
        cs.len() == vs.len(),
    ensures
        with_column(cs, c, value is Some).len() == storage::with_value(vs, value).len(),
        all_hold(row, with_column(cs, c, value is Some), storage::with_value(vs, value)) == (
        all_hold(row, cs, vs) && (value is Some ==> row_is(
            row,
            c,
            BindingView::Text(value.unwrap()),
        ))),
{
    if value is Some {
        let v = BindingView::Text(value.unwrap());
        let more = cs.push(c);
        if all_hold(row, more, vs.push(v)) {
            assert(row_is(row, more[cs.len() as int], vs.push(v)[cs.len() as int]));
            assert forall|k: int| 0 <= k < cs.len() implies row_is(row, #[trigger] cs[k], vs[k]) by {
                assert(row_is(row, more[k], vs.push(v)[k]));
            }
        }
    }
}

/// The words of a statement with one condition more, where it is given.
#[verifier::rlimit(50)]
proof fn lemma_with_words(
    sql: Seq<char>,
    a: Seq<Seq<char>>,
    cs: Seq<Seq<char>>,
    clause: Seq<char>,
    c: Seq<char>,
    given: bool,
)
    requires
        lines::words_of(sql) == a + sql::more(cs),
        is_clause(clause, c),
    ensures
        lines::words_of(storage::with_condition(sql, clause, given)) == a + sql::more(
            with_column(cs, c, given),
        ),
{
    if given {
        let rest = clause.drop_first();
        assert(sql + clause =~= sql + seq![' '] + rest);
        lines::lemma_words_at_space(sql, rest);
        assert(cs.push(c).drop_last() =~= cs);
        assert(a + sql::more(cs) + sql::one_more(c) =~= a + sql::more(cs.push(c)));
    }
}

/// The text is a condition on a column, behind a space.
pub open spec fn is_clause(clause: Seq<char>, c: Seq<char>) -> bool {
    clause.len() > 0 && clause[0] == ' ' && lines::words_of(clause.drop_first()) == sql::one_more(c)
}

/// The conditions on memories are conditions on their columns.
#[verifier::rlimit(50)]
proof fn lemma_clauses()
    ensures
        is_clause(" AND room_id = ?"@, "room_id"@),
        is_clause(" AND agent_id = ?"@, "agent_id"@),
        is_clause(" AND entity_id = ?"@, "entity_id"@),
        is_clause(" AND type = ?"@, "type"@),
        is_clause(" AND \"unique\" = ?"@, "\"unique\""@),
        is_clause(" AND m.room_id = ?"@, "m.room_id"@),
        is_clause(" AND m.type = ?"@, "m.type"@),
        is_clause(" AND m.\"unique\" = ?"@, "m.\"unique\""@),
{
    lemma_clause_room_id();
    lemma_clause_agent_id();
    lemma_clause_entity_id();
    lemma_clause_type();
    lemma_clause_unique();
    lemma_clause_m_room_id();
    lemma_clause_m_type();
    lemma_clause_m_unique();
}

#[verifier::rlimit(50)]
proof fn lemma_clause_room_id()
    ensures
        is_clause(" AND room_id = ?"@, "room_id"@),
{
    reveal_strlit(" AND room_id = ?");
    reveal_strlit("AND");
    reveal_strlit("room_id");
    reveal_strlit("=");
    reveal_strlit("?");
    let ws = sql::one_more("room_id"@);
    reveal_with_fuel(lines::joined, 5);
    assert(" AND room_id = ?"@.drop_first() =~= lines::joined(ws, seq![' ']));
    lines::lemma_words_joined(ws);
}

#[verifier::rlimit(50)]
proof fn lemma_clause_agent_id()
    ensures
        is_clause(" AND agent_id = ?"@, "agent_id"@),
{
    reveal_strlit(" AND agent_id = ?");
    reveal_strlit("AND");
    reveal_strlit("agent_id");
    reveal_strlit("=");
    reveal_strlit("?");
    let ws = sql::one_more("agent_id"@);
    reveal_with_fuel(lines::joined, 5);
    assert(" AND agent_id = ?"@.drop_first() =~= lines::joined(ws, seq![' ']));
    lines::lemma_words_joined(ws);
}

#[verifier::rlimit(50)]
proof fn lemma_clause_entity_id()
    ensures
        is_clause(" AND entity_id = ?"@, "entity_id"@),
{
    reveal_strlit(" AND entity_id = ?");
    reveal_strlit("AND");
    reveal_strlit("entity_id");
    reveal_strlit("=");
    reveal_strlit("?");
    let ws = sql::one_more("entity_id"@);
    reveal_with_fuel(lines::joined, 5);
    assert(" AND entity_id = ?"@.drop_first() =~= lines::joined(ws, seq![' ']));
    lines::lemma_words_joined(ws);
}

#[verifier::rlimit(50)]
proof fn lemma_clause_type()
    ensures
        is_clause(" AND type = ?"@, "type"@),
{
    reveal_strlit(" AND type = ?");
    reveal_strlit("AND");
    reveal_strlit("type");
    reveal_strlit("=");
    reveal_strlit("?");
    let ws = sql::one_more("type"@);
    reveal_with_fuel(lines::joined, 5);
    assert(" AND type = ?"@.drop_first() =~= lines::joined(ws, seq![' ']));
    lines::lemma_words_joined(ws);
}

#[verifier::rlimit(50)]
proof fn lemma_clause_unique()
    ensures
        is_clause(" AND \"unique\" = ?"@, "\"unique\""@),
{
    reveal_strlit(" AND \"unique\" = ?");
    reveal_strlit("AND");
    reveal_strlit("\"unique\"");
    reveal_strlit("=");
    reveal_strlit("?");
    let ws = sql::one_more("\"unique\""@);
    reveal_with_fuel(lines::joined, 5);
    assert(" AND \"unique\" = ?"@.drop_first() =~= lines::joined(ws, seq![' ']));
    lines::lemma_words_joined(ws);
}

#[verifier::rlimit(50)]
proof fn lemma_clause_m_room_id()
    ensures
        is_clause(" AND m.room_id = ?"@, "m.room_id"@),
{
    reveal_strlit(" AND m.room_id = ?");
    reveal_strlit("AND");
    reveal_strlit("m.room_id");
    reveal_strlit("=");
    reveal_strlit("?");
    let ws = sql::one_more("m.room_id"@);
    reveal_with_fuel(lines::joined, 5);
    assert(" AND m.room_id = ?"@.drop_first() =~= lines::joined(ws, seq![' ']));
    lines::lemma_words_joined(ws);
}

#[verifier::rlimit(50)]
proof fn lemma_clause_m_type()
    ensures
        is_clause(" AND m.type = ?"@, "m.type"@),
{
    reveal_strlit(" AND m.type = ?");
    reveal_strlit("AND");
    reveal_strlit("m.type");
    reveal_strlit("=");
    reveal_strlit("?");
    let ws = sql::one_more("m.type"@);
    reveal_with_fuel(lines::joined, 5);
    assert(" AND m.type = ?"@.drop_first() =~= lines::joined(ws, seq![' ']));
    lines::lemma_words_joined(ws);
}

#[verifier::rlimit(50)]
proof fn lemma_clause_m_unique()
    ensures
        is_clause(" AND m.\"unique\" = ?"@, "m.\"unique\""@),
{
    reveal_strlit(" AND m.\"unique\" = ?");
    reveal_strlit("AND");
    reveal_strlit("m.\"unique\"");
    reveal_strlit("=");
    reveal_strlit("?");
    let ws = sql::one_more("m.\"unique\""@);
    reveal_with_fuel(lines::joined, 5);
    assert(" AND m.\"unique\" = ?"@.drop_first() =~= lines::joined(ws, seq![' ']));
    lines::lemma_words_joined(ws);
}

/// The columns that memories are compared by.
pub open spec fn memory_conditions(p: GetMemoriesParams) -> Seq<Seq<char>> {
    let cs = with_column(Seq::empty(), "room_id"@, p.room_id is Some);
    let cs = with_column(cs, "agent_id"@, p.agent_id is Some);
    let cs = with_column(cs, "entity_id"@, p.entity_id is Some);
    let cs = with_column(cs, "type"@, p.memory_type is Some);
    with_column(cs, "\"unique\""@, p.unique is Some)
}

/// The words that put the newest first, and at most so many.
pub open spec fn newest(count: Option<usize>) -> Seq<Seq<char>> {
    seq!["ORDER"@, "BY"@, "created_at"@, "DESC"@] + match count {
        Some(n) => seq!["LIMIT"@, number::decimal(n as nat)],
        None => Seq::empty(),
    }
}

/// Decimal numbers are digits.
#[verifier::rlimit(50)]
proof fn lemma_digits(n: nat)
    ensures
        number::decimal(n).len() > 0,
        forall|i: int| 0 <= i < number::decimal(n).len() ==> '0' <= #[trigger] number::decimal(n)[i] <= '9',
    decreases n,
{
    if n >= 10 {
        lemma_digits(n / 10);
    }
}

/// The words before the conditions on memories.
pub open spec fn memories_front() -> Seq<Seq<char>> {
    seq!["SELECT"@, "*"@, "FROM"@, "memories"@, "WHERE"@, "1=1"@]
}

#[verifier::rlimit(50)]
proof fn lemma_memories_front()
    ensures
        lines::words_of("SELECT * FROM memories WHERE 1=1"@) == memories_front(),
{
    reveal_strlit("SELECT * FROM memories WHERE 1=1");
    reveal_strlit("SELECT");
    reveal_strlit("*");
    reveal_strlit("FROM");
    reveal_strlit("memories");
    reveal_strlit("WHERE");
    reveal_strlit("1=1");
    reveal_with_fuel(lines::joined, 7);
    assert("SELECT * FROM memories WHERE 1=1"@ =~= lines::joined(memories_front(), seq![' ']));
    lines::lemma_words_joined(memories_front());
}

/// The statement that looks for memories, without the order.
spec fn conditions_sql(p: GetMemoriesParams) -> Seq<char> {
    let s = "SELECT * FROM memories WHERE 1=1"@;
    let s = storage::with_condition(s, " AND room_id = ?"@, p.room_id is Some);
    let s = storage::with_condition(s, " AND agent_id = ?"@, p.agent_id is Some);
    let s = storage::with_condition(s, " AND entity_id = ?"@, p.entity_id is Some);
    let s = storage::with_condition(s, " AND type = ?"@, p.memory_type is Some);
    storage::with_condition(s, " AND \"unique\" = ?"@, p.unique is Some)
}

#[verifier::rlimit(50)]
proof fn lemma_conditions_words(p: GetMemoriesParams)
    ensures
        lines::words_of(conditions_sql(p)) == memories_front() + sql::more(memory_conditions(p)),
{
    let a = memories_front();
    let s0 = "SELECT * FROM memories WHERE 1=1"@;
    lemma_memories_front();
    lemma_clauses();
    let c0 = Seq::<Seq<char>>::empty();
    assert(a + sql::more(c0) =~= a);
    lemma_with_words(s0, a, c0, " AND room_id = ?"@, "room_id"@, p.room_id is Some);
    let s1 = storage::with_condition(s0, " AND room_id = ?"@, p.room_id is Some);
    let c1 = with_column(c0, "room_id"@, p.room_id is Some);
    lemma_with_words(s1, a, c1, " AND agent_id = ?"@, "agent_id"@, p.agent_id is Some);
    let s2 = storage::with_condition(s1, " AND agent_id = ?"@, p.agent_id is Some);
    let c2 = with_column(c1, "agent_id"@, p.agent_id is Some);
    lemma_with_words(s2, a, c2, " AND entity_id = ?"@, "entity_id"@, p.entity_id is Some);
    let s3 = storage::with_condition(s2, " AND entity_id = ?"@, p.entity_id is Some);
    let c3 = with_column(c2, "entity_id"@, p.entity_id is Some);
    lemma_with_words(s3, a, c3, " AND type = ?"@, "type"@, p.memory_type is Some);
    let s4 = storage::with_condition(s3, " AND type = ?"@, p.memory_type is Some);
    let c4 = with_column(c3, "type"@, p.memory_type is Some);
    lemma_with_words(s4, a, c4, " AND \"unique\" = ?"@, "\"unique\""@, p.unique is Some);
}

#[verifier::rlimit(50)]
proof fn lemma_order_words()
    ensures
        " ORDER BY created_at DESC"@.len() > 0 && " ORDER BY created_at DESC"@[0] == ' ',
        lines::words_of(" ORDER BY created_at DESC"@.drop_first()) == newest(None),
{
    let order = seq!["ORDER"@, "BY"@, "created_at"@, "DESC"@];
    reveal_strlit(" ORDER BY created_at DESC");
    reveal_strlit("ORDER");
    reveal_strlit("BY");
    reveal_strlit("created_at");
    reveal_strlit("DESC");
    reveal_with_fuel(lines::joined, 5);
    assert(" ORDER BY created_at DESC"@.drop_first() =~= lines::joined(order, seq![' ']));
    lines::lemma_words_joined(order);
    assert(newest(None) =~= order);
}

#[verifier::rlimit(50)]
proof fn lemma_limit_words(n: nat)
    ensures
        " LIMIT "@ + number::decimal(n) == seq![' '] + ("LIMIT"@ + seq![' '] + number::decimal(n)),
        lines::words_of("LIMIT"@ + seq![' '] + number::decimal(n)) == seq![
            "LIMIT"@,
            number::decimal(n),
        ],
{
    let d = number::decimal(n);
    let last = seq!["LIMIT"@, d];
    lemma_digits(n);
    reveal_strlit(" LIMIT ");
    reveal_strlit("LIMIT");
    assert(" LIMIT "@ =~= seq![' '] + "LIMIT"@ + seq![' ']);
    assert(" LIMIT "@ + d =~= seq![' '] + ("LIMIT"@ + seq![' '] + d));
    reveal_with_fuel(lines::joined, 3);
    assert(lines::joined(last, seq![' ']) =~= "LIMIT"@ + seq![' '] + d);
    lines::lemma_words_joined(last);
}

/// The words of the statement that looks for memories.
#[verifier::rlimit(50)]
proof fn lemma_memories_words(p: GetMemoriesParams)
    ensures
        lines::words_of(storage::memories_sql(p)) == memories_front() + sql::more(
            memory_conditions(p),
        ) + newest(p.count),
{
    let s5 = conditions_sql(p);
    let by = " ORDER BY created_at DESC"@;
    lemma_conditions_words(p);
    lemma_order_words();
    let s6 = s5 + by;
    assert(s6 =~= s5 + seq![' '] + by.drop_first());
    lines::lemma_words_at_space(s5, by.drop_first());
    let front = memories_front() + sql::more(memory_conditions(p));
    match p.count {
        Some(n) => {
            let d = number::decimal(n as nat);
            lemma_limit_words(n as nat);
            let rest = "LIMIT"@ + seq![' '] + d;
            assert(s6 + " LIMIT "@ + d =~= s6 + (" LIMIT "@ + d));
            assert(s6 + (" LIMIT "@ + d) =~= s6 + seq![' '] + rest);
            lines::lemma_words_at_space(s6, rest);
            assert(front + newest(None) + seq!["LIMIT"@, d] =~= front + newest(p.count));
        },
        None => {},
    }
}

/// How the words begin and how long they are that a search for memories is made of.
#[verifier::rlimit(50)]
proof fn lemma_search_words()
    ensures
        "SELECT"@.len() == 6 && "SELECT"@[0] == 'S' && "SELECT"@.last() == 'T',
        "*"@.len() == 1 && "*"@[0] == '*' && "*"@.last() == '*',
        "FROM"@.len() == 4 && "FROM"@[0] == 'F' && "FROM"@.last() == 'M',
        "memories"@.len() == 8 && "memories"@[0] == 'm' && "memories"@.last() == 's',
        "WHERE"@.len() == 5 && "WHERE"@[0] == 'W' && "WHERE"@.last() == 'E',
        "1=1"@.len() == 3 && "1=1"@[0] == '1' && "1=1"@.last() == '1',
        "OR"@.len() == 2 && "OR"@[0] == 'O' && "OR"@.last() == 'R',
        "INSERT"@.len() == 6 && "INSERT"@[0] == 'I' && "INSERT"@.last() == 'T',
        "UPDATE"@.len() == 6 && "UPDATE"@[0] == 'U' && "UPDATE"@.last() == 'E',
        "room_id"@.len() == 7 && "room_id"@[0] == 'r' && "room_id"@.last() == 'd',
        "agent_id"@.len() == 8 && "agent_id"@[0] == 'a' && "agent_id"@.last() == 'd',
        "entity_id"@.len() == 9 && "entity_id"@[0] == 'e' && "entity_id"@.last() == 'd',
        "type"@.len() == 4 && "type"@[0] == 't' && "type"@.last() == 'e',
        "\"unique\""@.len() == 8 && "\"unique\""@[0] == '"' && "\"unique\""@.last() == '"',
        "ORDER"@.len() == 5 && "ORDER"@[0] == 'O' && "ORDER"@.last() == 'R',
        "BY"@.len() == 2 && "BY"@[0] == 'B' && "BY"@.last() == 'Y',
        "created_at"@.len() == 10 && "created_at"@[0] == 'c' && "created_at"@.last() == 't',
        "DESC"@.len() == 4 && "DESC"@[0] == 'D' && "DESC"@.last() == 'C',
        "LIMIT"@.len() == 5 && "LIMIT"@[0] == 'L' && "LIMIT"@.last() == 'T',
        "="@.len() == 1 && "="@[0] == '=' && "="@.last() == '=',
        "?"@.len() == 1 && "?"@[0] == '?' && "?"@.last() == '?',
        "m.*,"@.len() == 4 && "m.*,"@[0] == 'm' && "m.*,"@.last() == ',',
        "m.*"@.len() == 3 && "m.*"@[0] == 'm' && "m.*"@.last() == '*',
        "e.embedding"@.len() == 11 && "e.embedding"@[0] == 'e' && "e.embedding"@.last() == 'g',
        "m"@.len() == 1 && "m"@[0] == 'm' && "m"@.last() == 'm',
        "INNER"@.len() == 5 && "INNER"@[0] == 'I' && "INNER"@.last() == 'R',
        "JOIN"@.len() == 4 && "JOIN"@[0] == 'J' && "JOIN"@.last() == 'N',
        "embeddings"@.len() == 10 && "embeddings"@[0] == 'e' && "embeddings"@.last() == 's',
        "e"@.len() == 1 && "e"@[0] == 'e' && "e"@.last() == 'e',
        "ON"@.len() == 2 && "ON"@[0] == 'O' && "ON"@.last() == 'N',
        "e.memory_id"@.len() == 11 && "e.memory_id"@[0] == 'e' && "e.memory_id"@.last() == 'd',
        "m.id"@.len() == 4 && "m.id"@[0] == 'm' && "m.id"@.last() == 'd',
        "m.agent_id"@.len() == 10 && "m.agent_id"@[0] == 'm' && "m.agent_id"@.last() == 'd',
        "m.room_id"@.len() == 9 && "m.room_id"@[0] == 'm' && "m.room_id"@.last() == 'd',
        "m.type"@.len() == 6 && "m.type"@[0] == 'm' && "m.type"@.last() == 'e',
        "m.\"unique\""@.len() == 10 && "m.\"unique\""@[0] == 'm' && "m.\"unique\""@.last() == '"',
{
    reveal_strlit("SELECT");
    reveal_strlit("*");
    reveal_strlit("FROM");
    reveal_strlit("memories");
    reveal_strlit("WHERE");
    reveal_strlit("1=1");
    reveal_strlit("OR");
    reveal_strlit("INSERT");
    reveal_strlit("UPDATE");
    reveal_strlit("room_id");
    reveal_strlit("agent_id");
    reveal_strlit("entity_id");
    reveal_strlit("type");
    reveal_strlit("\"unique\"");
    reveal_strlit("ORDER");
    reveal_strlit("BY");
    reveal_strlit("created_at");
    reveal_strlit("DESC");
    reveal_strlit("LIMIT");
    reveal_strlit("=");
    reveal_strlit("?");
    reveal_strlit("m.*,");
    reveal_strlit("m.*");
    reveal_strlit("e.embedding");
    reveal_strlit("m");
    reveal_strlit("INNER");
    reveal_strlit("JOIN");
    reveal_strlit("embeddings");
    reveal_strlit("e");
    reveal_strlit("ON");
    reveal_strlit("e.memory_id");
    reveal_strlit("m.id");
    reveal_strlit("m.agent_id");
    reveal_strlit("m.room_id");
    reveal_strlit("m.type");
    reveal_strlit("m.\"unique\"");
}

/// The columns of conditions are none of the words between them.
#[verifier::rlimit(50)]
proof fn lemma_conditions_differ(p: GetMemoriesParams)
    ensures
        !memory_conditions(p).contains("OR"@),
        !memory_conditions(p).contains("="@),
        memory_conditions(p).map_values(|c: Seq<char>| sql::unaliased(c)) == memory_conditions(p),
{
    let cs = memory_conditions(p);
    lemma_search_words();
    assert forall|k: int| 0 <= k < cs.len() implies #[trigger] cs[k] != "OR"@ && cs[k] != "="@
        && sql::unaliased(cs[k]) == cs[k] by {
        assert(cs[k] == "room_id"@ || cs[k] == "agent_id"@ || cs[k] == "entity_id"@ || cs[k]
            == "type"@ || cs[k] == "\"unique\""@);
    }
    assert(cs.map_values(|c: Seq<char>| sql::unaliased(c)) =~= cs);
}

/// The words behind the conditions compare nothing.
#[verifier::rlimit(50)]
proof fn lemma_newest_compares_nothing(count: Option<usize>)
    ensures
        !newest(count).contains("OR"@),
        !newest(count).contains("="@),
        forall|i: int| 0 <= i < newest(count).len() ==> sql::bare(#[trigger] newest(count)[i]) != "?"@,
{
    let t = newest(count);
    lemma_search_words();
    if count is Some {
        lemma_digits(count.unwrap() as nat);
    }
    assert forall|i: int| 0 <= i < t.len() implies #[trigger] t[i] != "OR"@ && t[i] != "="@
        && sql::bare(t[i]) != "?"@ by {
        if i == 5 {
            let d = number::decimal(count.unwrap() as nat);
            assert(t[5] == d);
            assert(d[d.len() - 1] != ',' && d[d.len() - 1] != ')');
            assert(d[0] != 'O' && d[0] != '=' && d[0] != '?' && d[0] != '(');
        } else {
            assert(t[i] == "ORDER"@ || t[i] == "BY"@ || t[i] == "created_at"@ || t[i] == "DESC"@
                || t[i] == "LIMIT"@);
        }
    }
}

/// The memory is one of those that are looked for.
pub open spec fn fits(m: Memory, p: GetMemoriesParams) -> bool {
    &&& p.room_id is Some ==> p.room_id == Some(m.room_id)
    &&& p.agent_id is Some ==> p.agent_id == Some(m.agent_id)
    &&& p.entity_id is Some ==> p.entity_id == Some(m.entity_id)
    &&& p.memory_type is Some ==> p.memory_type == Some(m.memory_type)
    &&& p.unique is Some ==> p.unique == Some(m.unique)
}

/// A memory that is stored is found where it fits what is asked for, and only there;
/// the newest come first, and no more than are asked for.
#[verifier::rlimit(50)]
pub proof fn memories_are_looked_for(
    s: Statement,
    memory: Memory,
    content_json: Seq<char>,
    g: Statement,
    p: GetMemoriesParams,
)
    requires
        storage::stores_memory(s, memory, content_json),
        storage::finds_memories(g, p),
    ensures
        looks_up(g, s),
        gives_all(g),
        sql::finds(g, sql::row_of(s)) <==> fits(memory, p),
        exists|front: Seq<Seq<char>>| lines::words_of(g.sql@) == #[trigger] (front + newest(
            p.count,
        )),
{
    let a = memories_front();
    let cs = memory_conditions(p);
    let row = sql::row_of(s);
    lemma_memories_words(p);
    lemma_conditions_differ(p);
    lemma_newest_compares_nothing(p.count);
    lemma_search_words();
    reveal_with_fuel(sql::place, 7);
    reveal_with_fuel(sql::compared, 3);
    assert(sql::place(a, "FROM"@, 0) == 2);
    assert(sql::place(a, "WHERE"@, 0) == 4);
    assert(sql::bare("*"@) == "*"@);
    assert(a.subrange(1, 2).map_values(|c: Seq<char>| sql::bare(c)) =~= seq!["*"@]);
    assert(sql::compared(a.take(4)) =~= Seq::<Seq<char>>::empty());
    assert(sql::compared(a.skip(4)) =~= Seq::<Seq<char>>::empty());
    assert(!a.contains("OR"@));
    sql::lemma_read_more(a, cs, newest(p.count));
    assert(Seq::<Seq<char>>::empty() + cs =~= cs);
    let vs = storage::memories_values(p);
    assert(sql::finds(g, row) == all_hold(row, cs, vs)) by {
        assert(sql::read(g.sql@).conditions == cs);
        assert(sql::read(g.sql@).sets.len() == 0);
        assert forall|k: int| 0 <= k < cs.len() implies #[trigger] sql::holds(g, row, k) == row_is(
            row,
            #[trigger] cs[k],
            vs[k],
        ) by {}
        if sql::finds(g, row) {
            assert forall|k: int| 0 <= k < cs.len() implies row_is(
                row,
                #[trigger] cs[k],
                vs[k],
            ) by {
                assert(sql::holds(g, row, k));
            }
        }
    }
    let c0 = Seq::<Seq<char>>::empty();
    let v0 = Seq::<BindingView>::empty();
    let room = storage::opt_id_text(p.room_id);
    let agent = storage::opt_id_text(p.agent_id);
    let entity = storage::opt_id_text(p.entity_id);
    let kind = storage::type_text(p.memory_type);
    let flag = storage::flag_text(p.unique);
    lemma_with_value(row, c0, v0, "room_id"@, room);
    let c1 = with_column(c0, "room_id"@, room is Some);
    let v1 = storage::with_value(v0, room);
    lemma_with_value(row, c1, v1, "agent_id"@, agent);
    let c2 = with_column(c1, "agent_id"@, agent is Some);
    let v2 = storage::with_value(v1, agent);
    lemma_with_value(row, c2, v2, "entity_id"@, entity);
    let c3 = with_column(c2, "entity_id"@, entity is Some);
    let v3 = storage::with_value(v2, entity);
    lemma_with_value(row, c3, v3, "type"@, kind);
    let c4 = with_column(c3, "type"@, kind is Some);
    let v4 = storage::with_value(v3, kind);
    lemma_with_value(row, c4, v4, "\"unique\""@, flag);
    readings::create_memory();
    sql::lemma_row(s, 1);
    sql::lemma_row(s, 3);
    sql::lemma_row(s, 4);
    sql::lemma_row(s, 5);
    sql::lemma_row(s, 7);
    lemma_fits_id(p.room_id, memory.room_id);
    lemma_fits_id(p.agent_id, memory.agent_id);
    lemma_fits_id(p.entity_id, memory.entity_id);
    if p.memory_type is Some {
        lemma_types_differ(p.memory_type.unwrap(), memory.memory_type);
    }
    if p.unique is Some {
        lemma_flags(memory.unique, p.unique.unwrap());
    }
}

/// The text of an identifier that is asked for is that of another where they are
/// equal.
#[verifier::rlimit(50)]
proof fn lemma_fits_id(asked: Option<Uuid>, id: Uuid)
    requires
        storage::stored_opt_id(storage::opt_id_text(asked)) == asked,
        storage::stored_id(id.text()) == id,
    ensures
        asked is Some ==> (sql::same(
            BindingView::Text(id.text()),
            BindingView::Text(storage::opt_id_text(asked).unwrap()),
        ) == (asked == Some(id))),
{
}

/// The columns that memories with an embedding are compared by, beside the agent.
pub open spec fn search_conditions(p: SearchMemoriesParams) -> Seq<Seq<char>> {
    let cs = with_column(Seq::empty(), "m.room_id"@, p.room_id is Some);
    let cs = with_column(cs, "m.type"@, p.memory_type is Some);
    with_column(cs, "m.\"unique\""@, p.unique is Some)
}

/// How the statement begins that looks for memories with an embedding.
pub open spec fn search_front() -> Seq<Seq<char>> {
    seq![
        "SELECT"@, "m.*,"@, "e.embedding"@, "FROM"@, "memories"@, "m"@, "INNER"@, "JOIN"@,
        "embeddings"@, "e"@, "ON"@, "e.memory_id"@, "="@, "m.id"@, "WHERE"@, "m.agent_id"@, "="@,
        "?"@,
    ]
}

#[verifier::rlimit(50)]
proof fn lemma_search_front()
    ensures
        lines::words_of(
            "SELECT m.*, e.embedding FROM memories m INNER JOIN embeddings e ON e.memory_id = m.id WHERE m.agent_id = ?"@,
        ) == search_front(),
{
    reveal_strlit(
        "SELECT m.*, e.embedding FROM memories m INNER JOIN embeddings e ON e.memory_id = m.id WHERE m.agent_id = ?",
    );
    reveal_strlit("SELECT");
    reveal_strlit("m.*,");
    reveal_strlit("e.embedding");
    reveal_strlit("FROM");
    reveal_strlit("memories");
    reveal_strlit("m");
    reveal_strlit("INNER");
    reveal_strlit("JOIN");
    reveal_strlit("embeddings");
    reveal_strlit("e");
    reveal_strlit("ON");
    reveal_strlit("e.memory_id");
    reveal_strlit("=");
    reveal_strlit("m.id");
    reveal_strlit("WHERE");
    reveal_strlit("m.agent_id");
    reveal_strlit("?");
    reveal_with_fuel(lines::joined, 19);
    assert("SELECT m.*, e.embedding FROM memories m INNER JOIN embeddings e ON e.memory_id = m.id WHERE m.agent_id = ?"@
        =~= lines::joined(search_front(), seq![' ']));
    lines::lemma_words_joined(search_front());
}

/// The words of the statement that looks for memories with an embedding.
#[verifier::rlimit(50)]
proof fn lemma_embedded_words(p: SearchMemoriesParams)
    ensures
        lines::words_of(storage::search_sql(p)) == search_front() + sql::more(search_conditions(p)),
{
    let a = search_front();
    let s0 =
        "SELECT m.*, e.embedding FROM memories m INNER JOIN embeddings e ON e.memory_id = m.id WHERE m.agent_id = ?"@;
    lemma_search_front();
    lemma_clauses();
    let c0 = Seq::<Seq<char>>::empty();
    assert(a + sql::more(c0) =~= a);
    lemma_with_words(s0, a, c0, " AND m.room_id = ?"@, "m.room_id"@, p.room_id is Some);
    let s1 = storage::with_condition(s0, " AND m.room_id = ?"@, p.room_id is Some);
    let c1 = with_column(c0, "m.room_id"@, p.room_id is Some);
    lemma_with_words(s1, a, c1, " AND m.type = ?"@, "m.type"@, p.memory_type is Some);
    let s2 = storage::with_condition(s1, " AND m.type = ?"@, p.memory_type is Some);
    let c2 = with_column(c1, "m.type"@, p.memory_type is Some);
    lemma_with_words(s2, a, c2, " AND m.\"unique\" = ?"@, "m.\"unique\""@, p.unique is Some);
}

/// What a search compares: the columns without the alias of their table.
#[verifier::rlimit(50)]
proof fn lemma_search_columns(p: SearchMemoriesParams)
    ensures
        !search_conditions(p).contains("OR"@),
        !search_conditions(p).contains("="@),
        search_conditions(p).map_values(|c: Seq<char>| sql::unaliased(c)) == with_column(
            with_column(
                with_column(Seq::empty(), "room_id"@, p.room_id is Some),
                "type"@,
                p.memory_type is Some,
            ),
            "\"unique\""@,
            p.unique is Some,
        ),
{
    let cs = search_conditions(p);
    lemma_search_words();
    assert(sql::unaliased("m.room_id"@) == "room_id"@ && sql::unaliased("m.type"@) == "type"@
        && sql::unaliased("m.\"unique\""@) == "\"unique\""@) by {
        reveal_strlit("m.room_id");
        reveal_strlit("room_id");
        reveal_strlit("m.type");
        reveal_strlit("type");
        reveal_strlit("m.\"unique\"");
        reveal_strlit("\"unique\"");
        assert("m.room_id"@.skip(2) =~= "room_id"@);
        assert("m.type"@.skip(2) =~= "type"@);
        assert("m.\"unique\""@.skip(2) =~= "\"unique\""@);
    }
    assert forall|k: int| 0 <= k < cs.len() implies #[trigger] cs[k] != "OR"@ && cs[k] != "="@ by {
        assert(cs[k] == "m.room_id"@ || cs[k] == "m.type"@ || cs[k] == "m.\"unique\""@);
    }
    assert(cs.map_values(|c: Seq<char>| sql::unaliased(c)) =~= with_column(
        with_column(
            with_column(Seq::empty(), "room_id"@, p.room_id is Some),
            "type"@,
            p.memory_type is Some,
        ),
        "\"unique\""@,
        p.unique is Some,
    ));
}

/// A memory with an embedding is compared in a search where it is of the agent and
/// fits what is asked for, and only there; its own embedding comes with it.
#[verifier::rlimit(50)]
pub proof fn memories_are_searched(
    s: Statement,
    memory: Memory,
    content_json: Seq<char>,
    g: Statement,
    p: SearchMemoriesParams,
)
    requires
        storage::stores_memory(s, memory, content_json),
        storage::finds_embedded(g, p),
    ensures
        looks_up(g, s),
        sql::read(g.sql@).columns == seq!["m.*"@, "e.embedding"@],
        sql::finds(g, sql::row_of(s)) <==> {
            &&& p.agent_id == memory.agent_id
            &&& p.room_id is Some ==> p.room_id == Some(memory.room_id)
            &&& p.memory_type is Some ==> p.memory_type == Some(memory.memory_type)
            &&& p.unique is Some ==> p.unique == Some(memory.unique)
        },
        lines::words_of(g.sql@).subrange(7, 14) == seq![
            "JOIN"@, "embeddings"@, "e"@, "ON"@, "e.memory_id"@, "="@, "m.id"@,
        ],
{
    let a = search_front();
    let row = sql::row_of(s);
    let none = Seq::<Seq<char>>::empty();
    let cs = search_conditions(p);
    lemma_embedded_words(p);
    lemma_search_columns(p);
    lemma_search_words();
    reveal_with_fuel(sql::place, 19);
    reveal_with_fuel(sql::compared, 18);
    assert(sql::place(a, "FROM"@, 0) == 3);
    assert(sql::place(a, "WHERE"@, 0) == 14);
    assert(sql::bare("?"@) == "?"@);
    assert(sql::bare("m.*,"@) =~= "m.*"@) by {
        reveal_strlit("m.*,");
        reveal_strlit("m.*");
    }
    assert(sql::bare("e.embedding"@) == "e.embedding"@);
    assert(sql::bare("m.id"@) == "m.id"@);
    assert(a.subrange(1, 3).map_values(|c: Seq<char>| sql::bare(c)) =~= seq![
        "m.*"@,
        "e.embedding"@,
    ]);
    assert(sql::compared(a.take(14)) =~= none);
    assert(sql::unaliased("m.agent_id"@) =~= "agent_id"@) by {
        reveal_strlit("m.agent_id");
        reveal_strlit("agent_id");
    }
    assert(sql::compared(a.skip(14)) =~= seq!["agent_id"@]);
    assert(!a.contains("OR"@));
    sql::lemma_read_more(a, cs, none);
    let ws = lines::words_of(g.sql@);
    assert(a + sql::more(cs) + none =~= ws);
    assert(ws.subrange(7, 14) =~= seq![
        "JOIN"@, "embeddings"@, "e"@, "ON"@, "e.memory_id"@, "="@, "m.id"@,
    ]);
    let room = storage::opt_id_text(p.room_id);
    let kind = storage::type_text(p.memory_type);
    let flag = storage::flag_text(p.unique);
    let c0 = seq!["agent_id"@];
    let v0 = seq![BindingView::Text(p.agent_id.text())];
    lemma_with_value(row, c0, v0, "room_id"@, room);
    let c1 = with_column(c0, "room_id"@, room is Some);
    let v1 = storage::with_value(v0, room);
    lemma_with_value(row, c1, v1, "type"@, kind);
    let c2 = with_column(c1, "type"@, kind is Some);
    let v2 = storage::with_value(v1, kind);
    lemma_with_value(row, c2, v2, "\"unique\""@, flag);
    let c3 = with_column(c2, "\"unique\""@, flag is Some);
    let v3 = storage::with_value(v2, flag);
    assert(sql::read(g.sql@).conditions =~= c3);
    assert(v3 == storage::search_values(p));
    assert(all_hold(row, c0, v0) == row_is(row, c0[0], v0[0]));
    assert(sql::finds(g, row) == all_hold(row, c3, v3)) by {
        assert forall|k: int| 0 <= k < c3.len() implies #[trigger] sql::holds(g, row, k) == row_is(
            row,
            #[trigger] c3[k],
            v3[k],
        ) by {}
        if sql::finds(g, row) {
            assert forall|k: int| 0 <= k < c3.len() implies row_is(
                row,
                #[trigger] c3[k],
                v3[k],
            ) by {
                assert(sql::holds(g, row, k));
            }
        }
    }
    readings::create_memory();
    sql::lemma_row(s, 1);
    sql::lemma_row(s, 4);
    sql::lemma_row(s, 5);
    sql::lemma_row(s, 7);
    lemma_same_id(memory.agent_id, p.agent_id);
    lemma_fits_id(p.room_id, memory.room_id);
    if p.memory_type is Some {
        lemma_types_differ(p.memory_type.unwrap(), memory.memory_type);
    }
    if p.unique is Some {
        lemma_flags(memory.unique, p.unique.unwrap());
    }
}

} // verus!
