//! The statements read word by word.
use vstd::prelude::*;

use crate::lines;
use crate::sql;
use crate::sql::Reading;

verus! {

#[verifier::rlimit(50)]
proof fn lemma_words_create_entity()
    ensures
        lines::words_of(
            "INSERT OR IGNORE INTO entities (id, agent_id, names, metadata) VALUES (?, ?, ?, ?)"@,
        ) == seq![
            "INSERT"@, "OR"@, "IGNORE"@, "INTO"@, "entities"@, "(id,"@, "agent_id,"@, "names,"@,
            "metadata)"@, "VALUES"@, "(?,"@, "?,"@, "?,"@, "?)"@,
        ],
{
    reveal_strlit(
        "INSERT OR IGNORE INTO entities (id, agent_id, names, metadata) VALUES (?, ?, ?, ?)",
    );
    reveal_strlit("INSERT");
    reveal_strlit("OR");
    reveal_strlit("IGNORE");
    reveal_strlit("INTO");
    reveal_strlit("entities");
    reveal_strlit("(id,");
    reveal_strlit("agent_id,");
    reveal_strlit("names,");
    reveal_strlit("metadata)");
    reveal_strlit("VALUES");
    reveal_strlit("(?,");
    reveal_strlit("?,");
    reveal_strlit("?)");
    let ws = seq![
        "INSERT"@, "OR"@, "IGNORE"@, "INTO"@, "entities"@, "(id,"@, "agent_id,"@, "names,"@,
        "metadata)"@, "VALUES"@, "(?,"@, "?,"@, "?,"@, "?)"@,
    ];
    reveal_with_fuel(lines::joined, 15);
    assert("INSERT OR IGNORE INTO entities (id, agent_id, names, metadata) VALUES (?, ?, ?, ?)"@
        =~= lines::joined(ws, seq![' ']));
    lines::lemma_words_joined(ws);
}

/// What the statement says.
#[verifier::rlimit(50)]
pub proof fn create_entity()
    ensures
        sql::read(
            "INSERT OR IGNORE INTO entities (id, agent_id, names, metadata) VALUES (?, ?, ?, ?)"@,
        ) == (Reading {
            verb: "INSERT"@,
            table: "entities"@,
            columns: seq!["id"@, "agent_id"@, "names"@, "metadata"@],
            sets: Seq::empty(),
            conditions: Seq::empty(),
            either: false,
            replaces: false,
        }),
        seq!["id"@, "agent_id"@, "names"@, "metadata"@].no_duplicates(),
{
    lemma_words_create_entity();
    let ws = lines::words_of(
        "INSERT OR IGNORE INTO entities (id, agent_id, names, metadata) VALUES (?, ?, ?, ?)"@,
    );
    reveal_strlit("INSERT");
    reveal_strlit("OR");
    reveal_strlit("IGNORE");
    reveal_strlit("INTO");
    reveal_strlit("entities");
    reveal_strlit("(id,");
    reveal_strlit("agent_id,");
    reveal_strlit("names,");
    reveal_strlit("metadata)");
    reveal_strlit("id");
    reveal_strlit("agent_id");
    reveal_strlit("names");
    reveal_strlit("metadata");
    reveal_strlit("REPLACE");
    assert("INSERT"@.len() == 6 && "INSERT"@[0] == 'I' && "OR"@.len() == 2 && "OR"@[0] == 'O');
    assert("IGNORE"@.len() == 6 && "IGNORE"@[0] == 'I' && "INTO"@.len() == 4 && "INTO"@[0] == 'I');
    assert("entities"@.len() == 8 && "entities"@[0] == 'e');
    assert("(id,"@.len() == 4 && "(id,"@[0] == '(');
    assert("agent_id,"@.len() == 9 && "agent_id,"@[0] == 'a');
    assert("names,"@.len() == 6 && "names,"@[0] == 'n');
    assert("metadata)"@.len() == 9 && "metadata)"@[0] == 'm');
    assert("id"@.len() == 2 && "id"@[0] == 'i' && "agent_id"@.len() == 8 && "agent_id"@[0] == 'a');
    assert("names"@.len() == 5 && "names"@[0] == 'n');
    assert("metadata"@.len() == 8 && "metadata"@[0] == 'm');
    assert("REPLACE"@.len() == 7 && "REPLACE"@[0] == 'R');
    assert(sql::bare("(id,"@) =~= "id"@);
    assert(sql::bare("agent_id,"@) =~= "agent_id"@);
    assert(sql::bare("names,"@) =~= "names"@);
    assert(sql::bare("metadata)"@) =~= "metadata"@);
    assert("(id,"@.last() == ',');
    assert("agent_id,"@.last() == ',');
    assert("names,"@.last() == ',');
    assert("metadata)"@.last() == ')');
    reveal_with_fuel(sql::listed, 5);
    assert(sql::listed(ws.skip(5)) =~= seq!["id"@, "agent_id"@, "names"@, "metadata"@]);
}

#[verifier::rlimit(50)]
proof fn lemma_words_get_entity()
    ensures
        lines::words_of(
            "SELECT * FROM entities WHERE id = ?"@,
        ) == seq!["SELECT"@, "*"@, "FROM"@, "entities"@, "WHERE"@, "id"@, "="@, "?"@],
{
    reveal_strlit(
        "SELECT * FROM entities WHERE id = ?",
    );
    reveal_strlit("SELECT");
    reveal_strlit("*");
    reveal_strlit("FROM");
    reveal_strlit("entities");
    reveal_strlit("WHERE");
    reveal_strlit("id");
    reveal_strlit("=");
    reveal_strlit("?");
    let ws = seq!["SELECT"@, "*"@, "FROM"@, "entities"@, "WHERE"@, "id"@, "="@, "?"@];
    reveal_with_fuel(lines::joined, 9);
    assert("SELECT * FROM entities WHERE id = ?"@
        =~= lines::joined(ws, seq![' ']));
    lines::lemma_words_joined(ws);
}

/// What the statement says.
#[verifier::rlimit(50)]
pub proof fn get_entity()
    ensures
        sql::read(
            "SELECT * FROM entities WHERE id = ?"@,
        ) == (Reading {
            verb: "SELECT"@,
            table: "entities"@,
            columns: seq!["*"@],
            sets: Seq::empty(),
            conditions: seq!["id"@],
            either: false,
            replaces: false,
        }),
{
    lemma_words_get_entity();
    let ws = lines::words_of(
        "SELECT * FROM entities WHERE id = ?"@,
    );
    reveal_strlit("SELECT");
    reveal_strlit("*");
    reveal_strlit("FROM");
    reveal_strlit("entities");
    reveal_strlit("WHERE");
    reveal_strlit("id");
    reveal_strlit("=");
    reveal_strlit("?");
    reveal_strlit("INSERT");
    reveal_strlit("UPDATE");
    reveal_strlit("OR");
    assert("SELECT"@.len() == 6 && "SELECT"@[0] == 'S' && "*"@.len() == 1 && "*"@[0] == '*');
    assert("FROM"@.len() == 4 && "FROM"@[0] == 'F');
    assert("entities"@.len() == 8 && "entities"@[0] == 'e');
    assert("WHERE"@.len() == 5 && "WHERE"@[0] == 'W' && "id"@.len() == 2 && "id"@[0] == 'i');
    assert("="@.len() == 1 && "="@[0] == '=' && "?"@.len() == 1 && "?"@[0] == '?');
    assert("INSERT"@.len() == 6 && "INSERT"@[0] == 'I');
    assert("UPDATE"@.len() == 6 && "UPDATE"@[0] == 'U' && "OR"@.len() == 2 && "OR"@[0] == 'O');
    assert(sql::bare("*"@) =~= "*"@);
    assert(sql::bare("FROM"@) =~= "FROM"@);
    assert(sql::bare("entities"@) =~= "entities"@);
    assert(sql::bare("?"@) =~= "?"@);
    reveal_with_fuel(sql::place, 9);
    reveal_with_fuel(sql::compared, 9);
    assert(sql::place(ws, "WHERE"@, 0) == 4);
    assert(sql::place(ws, "FROM"@, 0) == 2);
    assert(ws.subrange(1, 2).map_values(|c: Seq<char>| sql::bare(c)) =~= seq!["*"@]);
    assert(sql::compared(ws.take(4)) =~= Seq::<Seq<char>>::empty());
    assert(sql::compared(ws.skip(4)) =~= seq!["id"@]);
}

#[verifier::rlimit(50)]
proof fn lemma_words_update_entity()
    ensures
        lines::words_of(
            "UPDATE entities SET names = ?, metadata = ? WHERE id = ?"@,
        ) == seq![
            "UPDATE"@, "entities"@, "SET"@, "names"@, "="@, "?,"@, "metadata"@, "="@, "?"@,
            "WHERE"@, "id"@, "="@, "?"@,
        ],
{
    reveal_strlit(
        "UPDATE entities SET names = ?, metadata = ? WHERE id = ?",
    );
    reveal_strlit("UPDATE");
    reveal_strlit("entities");
    reveal_strlit("SET");
    reveal_strlit("names");
    reveal_strlit("=");
    reveal_strlit("?,");
    reveal_strlit("metadata");
    reveal_strlit("?");
    reveal_strlit("WHERE");
    reveal_strlit("id");
    let ws = seq![
        "UPDATE"@, "entities"@, "SET"@, "names"@, "="@, "?,"@, "metadata"@, "="@, "?"@,
        "WHERE"@, "id"@, "="@, "?"@,
    ];
    reveal_with_fuel(lines::joined, 14);
    assert("UPDATE entities SET names = ?, metadata = ? WHERE id = ?"@
        =~= lines::joined(ws, seq![' ']));
    lines::lemma_words_joined(ws);
}

/// What the statement says.
#[verifier::rlimit(50)]
pub proof fn update_entity()
    ensures
        sql::read(
            "UPDATE entities SET names = ?, metadata = ? WHERE id = ?"@,
        ) == (Reading {
            verb: "UPDATE"@,
            table: "entities"@,
            columns: Seq::empty(),
            sets: seq!["names"@, "metadata"@],
            conditions: seq!["id"@],
            either: false,
            replaces: false,
        }),
        seq!["names"@, "metadata"@].no_duplicates(),
{
    lemma_words_update_entity();
    let ws = lines::words_of(
        "UPDATE entities SET names = ?, metadata = ? WHERE id = ?"@,
    );
    reveal_strlit("UPDATE");
    reveal_strlit("entities");
    reveal_strlit("SET");
    reveal_strlit("names");
    reveal_strlit("=");
    reveal_strlit("?,");
    reveal_strlit("metadata");
    reveal_strlit("?");
    reveal_strlit("WHERE");
    reveal_strlit("id");
    reveal_strlit("INSERT");
    reveal_strlit("FROM");
    reveal_strlit("OR");
    assert("UPDATE"@.len() == 6 && "UPDATE"@[0] == 'U');
    assert("entities"@.len() == 8 && "entities"@[0] == 'e');
    assert("SET"@.len() == 3 && "SET"@[0] == 'S' && "names"@.len() == 5 && "names"@[0] == 'n');
    assert("="@.len() == 1 && "="@[0] == '=' && "?,"@.len() == 2 && "?,"@[0] == '?');
    assert("metadata"@.len() == 8 && "metadata"@[0] == 'm' && "?"@.len() == 1 && "?"@[0] == '?');
    assert("WHERE"@.len() == 5 && "WHERE"@[0] == 'W' && "id"@.len() == 2 && "id"@[0] == 'i');
    assert("INSERT"@.len() == 6 && "INSERT"@[0] == 'I' && "FROM"@.len() == 4 && "FROM"@[0] == 'F');
    assert("OR"@.len() == 2 && "OR"@[0] == 'O');
    assert(sql::bare("entities"@) =~= "entities"@);
    assert(sql::bare("SET"@) =~= "SET"@);
    assert(sql::bare("names"@) =~= "names"@);
    assert(sql::bare("="@) =~= "="@);
    assert(sql::bare("?,"@) =~= "?"@);
    assert(sql::bare("metadata"@) =~= "metadata"@);
    assert(sql::bare("?"@) =~= "?"@);
    reveal_with_fuel(sql::place, 14);
    reveal_with_fuel(sql::compared, 14);
    assert(sql::place(ws, "WHERE"@, 0) == 9);
    assert(sql::compared(ws.take(9)) =~= seq!["names"@, "metadata"@]);
    assert(sql::compared(ws.skip(9)) =~= seq!["id"@]);
}

#[verifier::rlimit(50)]
proof fn lemma_words_create_memory()
    ensures
        lines::words_of(
            "INSERT OR REPLACE INTO memories (id, type, content, entity_id, agent_id, room_id, world_id, \"unique\", metadata) VALUES (?, ?, ?, ?, ?, ?, ?, ?, ?)"@,
        ) == seq![
            "INSERT"@, "OR"@, "REPLACE"@, "INTO"@, "memories"@, "(id,"@, "type,"@, "content,"@,
            "entity_id,"@, "agent_id,"@, "room_id,"@, "world_id,"@, "\"unique\","@,
            "metadata)"@, "VALUES"@, "(?,"@, "?,"@, "?,"@, "?,"@, "?,"@, "?,"@, "?,"@, "?,"@,
            "?)"@,
        ],
{
    reveal_strlit(
        "INSERT OR REPLACE INTO memories (id, type, content, entity_id, agent_id, room_id, world_id, \"unique\", metadata) VALUES (?, ?, ?, ?, ?, ?, ?, ?, ?)",
    );
    reveal_strlit("INSERT");
    reveal_strlit("OR");
    reveal_strlit("REPLACE");
    reveal_strlit("INTO");
    reveal_strlit("memories");
    reveal_strlit("(id,");
    reveal_strlit("type,");
    reveal_strlit("content,");
    reveal_strlit("entity_id,");
    reveal_strlit("agent_id,");
    reveal_strlit("room_id,");
    reveal_strlit("world_id,");
    reveal_strlit("\"unique\",");
    reveal_strlit("metadata)");
    reveal_strlit("VALUES");
    reveal_strlit("(?,");
    reveal_strlit("?,");
    reveal_strlit("?)");
    let ws = seq![
        "INSERT"@, "OR"@, "REPLACE"@, "INTO"@, "memories"@, "(id,"@, "type,"@, "content,"@,
        "entity_id,"@, "agent_id,"@, "room_id,"@, "world_id,"@, "\"unique\","@, "metadata)"@,
        "VALUES"@, "(?,"@, "?,"@, "?,"@, "?,"@, "?,"@, "?,"@, "?,"@, "?,"@, "?)"@,
    ];
    reveal_with_fuel(lines::joined, 25);
    assert("INSERT OR REPLACE INTO memories (id, type, content, entity_id, agent_id, room_id, world_id, \"unique\", metadata) VALUES (?, ?, ?, ?, ?, ?, ?, ?, ?)"@
        =~= lines::joined(ws, seq![' ']));
    lines::lemma_words_joined(ws);
}

/// What the statement says.
#[verifier::rlimit(50)]
pub proof fn create_memory()
    ensures
        sql::read(
            "INSERT OR REPLACE INTO memories (id, type, content, entity_id, agent_id, room_id, world_id, \"unique\", metadata) VALUES (?, ?, ?, ?, ?, ?, ?, ?, ?)"@,
        ) == (Reading {
            verb: "INSERT"@,
            table: "memories"@,
            columns: seq![
                "id"@, "type"@, "content"@, "entity_id"@, "agent_id"@, "room_id"@, "world_id"@,
                "\"unique\""@, "metadata"@,
            ],
            sets: Seq::empty(),
            conditions: Seq::empty(),
            either: false,
            replaces: true,
        }),
        seq![
            "id"@, "type"@, "content"@, "entity_id"@, "agent_id"@, "room_id"@, "world_id"@,
            "\"unique\""@, "metadata"@,
        ].no_duplicates(),
{
    lemma_words_create_memory();
    let ws = lines::words_of(
        "INSERT OR REPLACE INTO memories (id, type, content, entity_id, agent_id, room_id, world_id, \"unique\", metadata) VALUES (?, ?, ?, ?, ?, ?, ?, ?, ?)"@,
    );
    reveal_strlit("INSERT");
    reveal_strlit("OR");
    reveal_strlit("REPLACE");
    reveal_strlit("INTO");
    reveal_strlit("memories");
    reveal_strlit("(id,");
    reveal_strlit("type,");
    reveal_strlit("content,");
    reveal_strlit("entity_id,");
    reveal_strlit("agent_id,");
    reveal_strlit("room_id,");
    reveal_strlit("world_id,");
    reveal_strlit("\"unique\",");
    reveal_strlit("metadata)");
    reveal_strlit("id");
    reveal_strlit("type");
    reveal_strlit("content");
    reveal_strlit("entity_id");
    reveal_strlit("agent_id");
    reveal_strlit("room_id");
    reveal_strlit("world_id");
    reveal_strlit("\"unique\"");
    reveal_strlit("metadata");
    assert("INSERT"@.len() == 6 && "INSERT"@[0] == 'I' && "OR"@.len() == 2 && "OR"@[0] == 'O');
    assert("REPLACE"@.len() == 7 && "REPLACE"@[0] == 'R');
    assert("INTO"@.len() == 4 && "INTO"@[0] == 'I');
    assert("memories"@.len() == 8 && "memories"@[0] == 'm');
    assert("(id,"@.len() == 4 && "(id,"@[0] == '(' && "type,"@.len() == 5 && "type,"@[0] == 't');
    assert("content,"@.len() == 8 && "content,"@[0] == 'c');
    assert("entity_id,"@.len() == 10 && "entity_id,"@[0] == 'e');
    assert("agent_id,"@.len() == 9 && "agent_id,"@[0] == 'a');
    assert("room_id,"@.len() == 8 && "room_id,"@[0] == 'r');
    assert("world_id,"@.len() == 9 && "world_id,"@[0] == 'w');
    assert("\"unique\","@.len() == 9 && "\"unique\","@[0] == '"');
    assert("metadata)"@.len() == 9 && "metadata)"@[0] == 'm');
    assert("id"@.len() == 2 && "id"@[0] == 'i' && "type"@.len() == 4 && "type"@[0] == 't');
    assert("content"@.len() == 7 && "content"@[0] == 'c');
    assert("entity_id"@.len() == 9 && "entity_id"@[0] == 'e');
    assert("agent_id"@.len() == 8 && "agent_id"@[0] == 'a');
    assert("room_id"@.len() == 7 && "room_id"@[0] == 'r');
    assert("world_id"@.len() == 8 && "world_id"@[0] == 'w');
    assert("\"unique\""@.len() == 8 && "\"unique\""@[0] == '"');
    assert("metadata"@.len() == 8 && "metadata"@[0] == 'm');
    assert(sql::bare("(id,"@) =~= "id"@);
    assert(sql::bare("type,"@) =~= "type"@);
    assert(sql::bare("content,"@) =~= "content"@);
    assert(sql::bare("entity_id,"@) =~= "entity_id"@);
    assert(sql::bare("agent_id,"@) =~= "agent_id"@);
    assert(sql::bare("room_id,"@) =~= "room_id"@);
    assert(sql::bare("world_id,"@) =~= "world_id"@);
    assert(sql::bare("\"unique\","@) =~= "\"unique\""@);
    assert(sql::bare("metadata)"@) =~= "metadata"@);
    assert("(id,"@.last() == ',');
    assert("type,"@.last() == ',');
    assert("content,"@.last() == ',');
    assert("entity_id,"@.last() == ',');
    assert("agent_id,"@.last() == ',');
    assert("room_id,"@.last() == ',');
    assert("world_id,"@.last() == ',');
    assert("\"unique\","@.last() == ',');
    assert("metadata)"@.last() == ')');
    reveal_with_fuel(sql::listed, 10);
    assert(sql::listed(ws.skip(5)) =~= seq![
        "id"@, "type"@, "content"@, "entity_id"@, "agent_id"@, "room_id"@, "world_id"@,
        "\"unique\""@, "metadata"@,
    ]);
}

#[verifier::rlimit(50)]
proof fn lemma_words_get_memory()
    ensures
        lines::words_of(
            "SELECT * FROM memories WHERE id = ?"@,
        ) == seq!["SELECT"@, "*"@, "FROM"@, "memories"@, "WHERE"@, "id"@, "="@, "?"@],
{
    reveal_strlit(
        "SELECT * FROM memories WHERE id = ?",
    );
    reveal_strlit("SELECT");
    reveal_strlit("*");
    reveal_strlit("FROM");
    reveal_strlit("memories");
    reveal_strlit("WHERE");
    reveal_strlit("id");
    reveal_strlit("=");
    reveal_strlit("?");
    let ws = seq!["SELECT"@, "*"@, "FROM"@, "memories"@, "WHERE"@, "id"@, "="@, "?"@];
    reveal_with_fuel(lines::joined, 9);
    assert("SELECT * FROM memories WHERE id = ?"@
        =~= lines::joined(ws, seq![' ']));
    lines::lemma_words_joined(ws);
}

/// What the statement says.
#[verifier::rlimit(50)]
pub proof fn get_memory()
    ensures
        sql::read(
            "SELECT * FROM memories WHERE id = ?"@,
        ) == (Reading {
            verb: "SELECT"@,
            table: "memories"@,
            columns: seq!["*"@],
            sets: Seq::empty(),
            conditions: seq!["id"@],
            either: false,
            replaces: false,
        }),
{
    lemma_words_get_memory();
    let ws = lines::words_of(
        "SELECT * FROM memories WHERE id = ?"@,
    );
    reveal_strlit("SELECT");
    reveal_strlit("*");
    reveal_strlit("FROM");
    reveal_strlit("memories");
    reveal_strlit("WHERE");
    reveal_strlit("id");
    reveal_strlit("=");
    reveal_strlit("?");
    reveal_strlit("INSERT");
    reveal_strlit("UPDATE");
    reveal_strlit("OR");
    assert("SELECT"@.len() == 6 && "SELECT"@[0] == 'S' && "*"@.len() == 1 && "*"@[0] == '*');
    assert("FROM"@.len() == 4 && "FROM"@[0] == 'F');
    assert("memories"@.len() == 8 && "memories"@[0] == 'm');
    assert("WHERE"@.len() == 5 && "WHERE"@[0] == 'W' && "id"@.len() == 2 && "id"@[0] == 'i');
    assert("="@.len() == 1 && "="@[0] == '=' && "?"@.len() == 1 && "?"@[0] == '?');
    assert("INSERT"@.len() == 6 && "INSERT"@[0] == 'I');
    assert("UPDATE"@.len() == 6 && "UPDATE"@[0] == 'U' && "OR"@.len() == 2 && "OR"@[0] == 'O');
    assert(sql::bare("*"@) =~= "*"@);
    assert(sql::bare("FROM"@) =~= "FROM"@);
    assert(sql::bare("memories"@) =~= "memories"@);
    assert(sql::bare("?"@) =~= "?"@);
    reveal_with_fuel(sql::place, 9);
    reveal_with_fuel(sql::compared, 9);
    assert(sql::place(ws, "WHERE"@, 0) == 4);
    assert(sql::place(ws, "FROM"@, 0) == 2);
    assert(ws.subrange(1, 2).map_values(|c: Seq<char>| sql::bare(c)) =~= seq!["*"@]);
    assert(sql::compared(ws.take(4)) =~= Seq::<Seq<char>>::empty());
    assert(sql::compared(ws.skip(4)) =~= seq!["id"@]);
}

#[verifier::rlimit(50)]
proof fn lemma_words_delete_memory()
    ensures
        lines::words_of(
            "DELETE FROM memories WHERE id = ?"@,
        ) == seq!["DELETE"@, "FROM"@, "memories"@, "WHERE"@, "id"@, "="@, "?"@],
{
    reveal_strlit(
        "DELETE FROM memories WHERE id = ?",
    );
    reveal_strlit("DELETE");
    reveal_strlit("FROM");
    reveal_strlit("memories");
    reveal_strlit("WHERE");
    reveal_strlit("id");
    reveal_strlit("=");
    reveal_strlit("?");
    let ws = seq!["DELETE"@, "FROM"@, "memories"@, "WHERE"@, "id"@, "="@, "?"@];
    reveal_with_fuel(lines::joined, 8);
    assert("DELETE FROM memories WHERE id = ?"@
        =~= lines::joined(ws, seq![' ']));
    lines::lemma_words_joined(ws);
}

/// What the statement says.
#[verifier::rlimit(50)]
pub proof fn delete_memory()
    ensures
        sql::read(
            "DELETE FROM memories WHERE id = ?"@,
        ) == (Reading {
            verb: "DELETE"@,
            table: "memories"@,
            columns: Seq::empty(),
            sets: Seq::empty(),
            conditions: seq!["id"@],
            either: false,
            replaces: false,
        }),
{
    lemma_words_delete_memory();
    let ws = lines::words_of(
        "DELETE FROM memories WHERE id = ?"@,
    );
    reveal_strlit("DELETE");
    reveal_strlit("FROM");
    reveal_strlit("memories");
    reveal_strlit("WHERE");
    reveal_strlit("id");
    reveal_strlit("=");
    reveal_strlit("?");
    reveal_strlit("INSERT");
    reveal_strlit("UPDATE");
    reveal_strlit("OR");
    assert("DELETE"@.len() == 6 && "DELETE"@[0] == 'D' && "FROM"@.len() == 4 && "FROM"@[0] == 'F');
    assert("memories"@.len() == 8 && "memories"@[0] == 'm');
    assert("WHERE"@.len() == 5 && "WHERE"@[0] == 'W' && "id"@.len() == 2 && "id"@[0] == 'i');
    assert("="@.len() == 1 && "="@[0] == '=' && "?"@.len() == 1 && "?"@[0] == '?');
    assert("INSERT"@.len() == 6 && "INSERT"@[0] == 'I');
    assert("UPDATE"@.len() == 6 && "UPDATE"@[0] == 'U' && "OR"@.len() == 2 && "OR"@[0] == 'O');
    assert(sql::bare("FROM"@) =~= "FROM"@);
    assert(sql::bare("memories"@) =~= "memories"@);
    assert(sql::bare("?"@) =~= "?"@);
    reveal_with_fuel(sql::place, 8);
    reveal_with_fuel(sql::compared, 8);
    assert(sql::place(ws, "WHERE"@, 0) == 3);
    assert(sql::place(ws, "FROM"@, 0) == 1);
    assert(ws.subrange(1, 1).map_values(|c: Seq<char>| sql::bare(c)) =~= Seq::<Seq<char>>::empty());
    assert(sql::compared(ws.take(3)) =~= Seq::<Seq<char>>::empty());
    assert(sql::compared(ws.skip(3)) =~= seq!["id"@]);
}

#[verifier::rlimit(50)]
proof fn lemma_words_count_memories()
    ensures
        lines::words_of(
            "SELECT COUNT(*) as cnt FROM memories WHERE room_id = ? AND \"unique\" = ? AND type = ?"@,
        ) == seq![
            "SELECT"@, "COUNT(*)"@, "as"@, "cnt"@, "FROM"@, "memories"@, "WHERE"@, "room_id"@,
            "="@, "?"@, "AND"@, "\"unique\""@, "="@, "?"@, "AND"@, "type"@, "="@, "?"@,
        ],
{
    reveal_strlit(
        "SELECT COUNT(*) as cnt FROM memories WHERE room_id = ? AND \"unique\" = ? AND type = ?",
    );
    reveal_strlit("SELECT");
    reveal_strlit("COUNT(*)");
    reveal_strlit("as");
    reveal_strlit("cnt");
    reveal_strlit("FROM");
    reveal_strlit("memories");
    reveal_strlit("WHERE");
    reveal_strlit("room_id");
    reveal_strlit("=");
    reveal_strlit("?");
    reveal_strlit("AND");
    reveal_strlit("\"unique\"");
    reveal_strlit("type");
    let ws = seq![
        "SELECT"@, "COUNT(*)"@, "as"@, "cnt"@, "FROM"@, "memories"@, "WHERE"@, "room_id"@, "="@,
        "?"@, "AND"@, "\"unique\""@, "="@, "?"@, "AND"@, "type"@, "="@, "?"@,
    ];
    reveal_with_fuel(lines::joined, 19);
    assert("SELECT COUNT(*) as cnt FROM memories WHERE room_id = ? AND \"unique\" = ? AND type = ?"@
        =~= lines::joined(ws, seq![' ']));
    lines::lemma_words_joined(ws);
}

/// What the statement says.
#[verifier::rlimit(50)]
pub proof fn count_memories()
    ensures
        sql::read(
            "SELECT COUNT(*) as cnt FROM memories WHERE room_id = ? AND \"unique\" = ? AND type = ?"@,
        ) == (Reading {
            verb: "SELECT"@,
            table: "memories"@,
            columns: seq!["COUNT(*"@, "as"@, "cnt"@],
            sets: Seq::empty(),
            conditions: seq!["room_id"@, "\"unique\""@, "type"@],
            either: false,
            replaces: false,
        }),
{
    lemma_words_count_memories();
    let ws = lines::words_of(
        "SELECT COUNT(*) as cnt FROM memories WHERE room_id = ? AND \"unique\" = ? AND type = ?"@,
    );
    reveal_strlit("SELECT");
    reveal_strlit("COUNT(*)");
    reveal_strlit("as");
    reveal_strlit("cnt");
    reveal_strlit("FROM");
    reveal_strlit("memories");
    reveal_strlit("WHERE");
    reveal_strlit("room_id");
    reveal_strlit("=");
    reveal_strlit("?");
    reveal_strlit("AND");
    reveal_strlit("\"unique\"");
    reveal_strlit("type");
    reveal_strlit("COUNT(*");
    reveal_strlit("INSERT");
    reveal_strlit("UPDATE");
    reveal_strlit("OR");
    assert("SELECT"@.len() == 6 && "SELECT"@[0] == 'S');
    assert("COUNT(*)"@.len() == 8 && "COUNT(*)"@[0] == 'C' && "as"@.len() == 2 && "as"@[0] == 'a');
    assert("cnt"@.len() == 3 && "cnt"@[0] == 'c' && "FROM"@.len() == 4 && "FROM"@[0] == 'F');
    assert("memories"@.len() == 8 && "memories"@[0] == 'm');
    assert("WHERE"@.len() == 5 && "WHERE"@[0] == 'W');
    assert("room_id"@.len() == 7 && "room_id"@[0] == 'r' && "="@.len() == 1 && "="@[0] == '=');
    assert("?"@.len() == 1 && "?"@[0] == '?' && "AND"@.len() == 3 && "AND"@[0] == 'A');
    assert("\"unique\""@.len() == 8 && "\"unique\""@[0] == '"');
    assert("type"@.len() == 4 && "type"@[0] == 't');
    assert("COUNT(*"@.len() == 7 && "COUNT(*"@[0] == 'C');
    assert("INSERT"@.len() == 6 && "INSERT"@[0] == 'I');
    assert("UPDATE"@.len() == 6 && "UPDATE"@[0] == 'U' && "OR"@.len() == 2 && "OR"@[0] == 'O');
    assert(sql::bare("COUNT(*)"@) =~= "COUNT(*"@);
    assert(sql::bare("as"@) =~= "as"@);
    assert(sql::bare("cnt"@) =~= "cnt"@);
    assert(sql::bare("FROM"@) =~= "FROM"@);
    assert(sql::bare("memories"@) =~= "memories"@);
    assert(sql::bare("?"@) =~= "?"@);
    reveal_with_fuel(sql::place, 19);
    reveal_with_fuel(sql::compared, 19);
    assert(sql::place(ws, "WHERE"@, 0) == 6);
    assert(sql::place(ws, "FROM"@, 0) == 4);
    assert(ws.subrange(1, 4).map_values(|c: Seq<char>| sql::bare(c)) =~= seq!["COUNT(*"@, "as"@, "cnt"@]);
    assert(sql::compared(ws.take(6)) =~= Seq::<Seq<char>>::empty());
    assert(sql::compared(ws.skip(6)) =~= seq!["room_id"@, "\"unique\""@, "type"@]);
}

#[verifier::rlimit(50)]
proof fn lemma_words_create_embedding()
    ensures
        lines::words_of(
            "INSERT OR REPLACE INTO embeddings (id, memory_id, embedding) VALUES (?, ?, ?)"@,
        ) == seq![
            "INSERT"@, "OR"@, "REPLACE"@, "INTO"@, "embeddings"@, "(id,"@, "memory_id,"@,
            "embedding)"@, "VALUES"@, "(?,"@, "?,"@, "?)"@,
        ],
{
    reveal_strlit(
        "INSERT OR REPLACE INTO embeddings (id, memory_id, embedding) VALUES (?, ?, ?)",
    );
    reveal_strlit("INSERT");
    reveal_strlit("OR");
    reveal_strlit("REPLACE");
    reveal_strlit("INTO");
    reveal_strlit("embeddings");
    reveal_strlit("(id,");
    reveal_strlit("memory_id,");
    reveal_strlit("embedding)");
    reveal_strlit("VALUES");
    reveal_strlit("(?,");
    reveal_strlit("?,");
    reveal_strlit("?)");
    let ws = seq![
        "INSERT"@, "OR"@, "REPLACE"@, "INTO"@, "embeddings"@, "(id,"@, "memory_id,"@,
        "embedding)"@, "VALUES"@, "(?,"@, "?,"@, "?)"@,
    ];
    reveal_with_fuel(lines::joined, 13);
    assert("INSERT OR REPLACE INTO embeddings (id, memory_id, embedding) VALUES (?, ?, ?)"@
        =~= lines::joined(ws, seq![' ']));
    lines::lemma_words_joined(ws);
}

/// What the statement says.
#[verifier::rlimit(50)]
pub proof fn create_embedding()
    ensures
        sql::read(
            "INSERT OR REPLACE INTO embeddings (id, memory_id, embedding) VALUES (?, ?, ?)"@,
        ) == (Reading {
            verb: "INSERT"@,
            table: "embeddings"@,
            columns: seq!["id"@, "memory_id"@, "embedding"@],
            sets: Seq::empty(),
            conditions: Seq::empty(),
            either: false,
            replaces: true,
        }),
        seq!["id"@, "memory_id"@, "embedding"@].no_duplicates(),
{
    lemma_words_create_embedding();
    let ws = lines::words_of(
        "INSERT OR REPLACE INTO embeddings (id, memory_id, embedding) VALUES (?, ?, ?)"@,
    );
    reveal_strlit("INSERT");
    reveal_strlit("OR");
    reveal_strlit("REPLACE");
    reveal_strlit("INTO");
    reveal_strlit("embeddings");
    reveal_strlit("(id,");
    reveal_strlit("memory_id,");
    reveal_strlit("embedding)");
    reveal_strlit("id");
    reveal_strlit("memory_id");
    reveal_strlit("embedding");
    assert("INSERT"@.len() == 6 && "INSERT"@[0] == 'I' && "OR"@.len() == 2 && "OR"@[0] == 'O');
    assert("REPLACE"@.len() == 7 && "REPLACE"@[0] == 'R');
    assert("INTO"@.len() == 4 && "INTO"@[0] == 'I');
    assert("embeddings"@.len() == 10 && "embeddings"@[0] == 'e');
    assert("(id,"@.len() == 4 && "(id,"@[0] == '(');
    assert("memory_id,"@.len() == 10 && "memory_id,"@[0] == 'm');
    assert("embedding)"@.len() == 10 && "embedding)"@[0] == 'e');
    assert("id"@.len() == 2 && "id"@[0] == 'i');
    assert("memory_id"@.len() == 9 && "memory_id"@[0] == 'm');
    assert("embedding"@.len() == 9 && "embedding"@[0] == 'e');
    assert(sql::bare("(id,"@) =~= "id"@);
    assert(sql::bare("memory_id,"@) =~= "memory_id"@);
    assert(sql::bare("embedding)"@) =~= "embedding"@);
    assert("(id,"@.last() == ',');
    assert("memory_id,"@.last() == ',');
    assert("embedding)"@.last() == ')');
    reveal_with_fuel(sql::listed, 4);
    assert(sql::listed(ws.skip(5)) =~= seq!["id"@, "memory_id"@, "embedding"@]);
}

#[verifier::rlimit(50)]
proof fn lemma_words_get_room()
    ensures
        lines::words_of(
            "SELECT * FROM rooms WHERE id = ?"@,
        ) == seq!["SELECT"@, "*"@, "FROM"@, "rooms"@, "WHERE"@, "id"@, "="@, "?"@],
{
    reveal_strlit(
        "SELECT * FROM rooms WHERE id = ?",
    );
    reveal_strlit("SELECT");
    reveal_strlit("*");
    reveal_strlit("FROM");
    reveal_strlit("rooms");
    reveal_strlit("WHERE");
    reveal_strlit("id");
    reveal_strlit("=");
    reveal_strlit("?");
    let ws = seq!["SELECT"@, "*"@, "FROM"@, "rooms"@, "WHERE"@, "id"@, "="@, "?"@];
    reveal_with_fuel(lines::joined, 9);
    assert("SELECT * FROM rooms WHERE id = ?"@
        =~= lines::joined(ws, seq![' ']));
    lines::lemma_words_joined(ws);
}

/// What the statement says.
#[verifier::rlimit(50)]
pub proof fn get_room()
    ensures
        sql::read(
            "SELECT * FROM rooms WHERE id = ?"@,
        ) == (Reading {
            verb: "SELECT"@,
            table: "rooms"@,
            columns: seq!["*"@],
            sets: Seq::empty(),
            conditions: seq!["id"@],
            either: false,
            replaces: false,
        }),
{
    lemma_words_get_room();
    let ws = lines::words_of(
        "SELECT * FROM rooms WHERE id = ?"@,
    );
    reveal_strlit("SELECT");
    reveal_strlit("*");
    reveal_strlit("FROM");
    reveal_strlit("rooms");
    reveal_strlit("WHERE");
    reveal_strlit("id");
    reveal_strlit("=");
    reveal_strlit("?");
    reveal_strlit("INSERT");
    reveal_strlit("UPDATE");
    reveal_strlit("OR");
    assert("SELECT"@.len() == 6 && "SELECT"@[0] == 'S' && "*"@.len() == 1 && "*"@[0] == '*');
    assert("FROM"@.len() == 4 && "FROM"@[0] == 'F' && "rooms"@.len() == 5 && "rooms"@[0] == 'r');
    assert("WHERE"@.len() == 5 && "WHERE"@[0] == 'W' && "id"@.len() == 2 && "id"@[0] == 'i');
    assert("="@.len() == 1 && "="@[0] == '=' && "?"@.len() == 1 && "?"@[0] == '?');
    assert("INSERT"@.len() == 6 && "INSERT"@[0] == 'I');
    assert("UPDATE"@.len() == 6 && "UPDATE"@[0] == 'U' && "OR"@.len() == 2 && "OR"@[0] == 'O');
    assert(sql::bare("*"@) =~= "*"@);
    assert(sql::bare("FROM"@) =~= "FROM"@);
    assert(sql::bare("rooms"@) =~= "rooms"@);
    assert(sql::bare("?"@) =~= "?"@);
    reveal_with_fuel(sql::place, 9);
    reveal_with_fuel(sql::compared, 9);
    assert(sql::place(ws, "WHERE"@, 0) == 4);
    assert(sql::place(ws, "FROM"@, 0) == 2);
    assert(ws.subrange(1, 2).map_values(|c: Seq<char>| sql::bare(c)) =~= seq!["*"@]);
    assert(sql::compared(ws.take(4)) =~= Seq::<Seq<char>>::empty());
    assert(sql::compared(ws.skip(4)) =~= seq!["id"@]);
}

#[verifier::rlimit(50)]
proof fn lemma_words_create_room()
    ensures
        lines::words_of(
            "INSERT OR IGNORE INTO rooms (id, agent_id, source, channel_type, name, channel_id, world_id, metadata) VALUES (?, ?, ?, ?, ?, ?, ?, ?)"@,
        ) == seq![
            "INSERT"@, "OR"@, "IGNORE"@, "INTO"@, "rooms"@, "(id,"@, "agent_id,"@, "source,"@,
            "channel_type,"@, "name,"@, "channel_id,"@, "world_id,"@, "metadata)"@, "VALUES"@,
            "(?,"@, "?,"@, "?,"@, "?,"@, "?,"@, "?,"@, "?,"@, "?)"@,
        ],
{
    reveal_strlit(
        "INSERT OR IGNORE INTO rooms (id, agent_id, source, channel_type, name, channel_id, world_id, metadata) VALUES (?, ?, ?, ?, ?, ?, ?, ?)",
    );
    reveal_strlit("INSERT");
    reveal_strlit("OR");
    reveal_strlit("IGNORE");
    reveal_strlit("INTO");
    reveal_strlit("rooms");
    reveal_strlit("(id,");
    reveal_strlit("agent_id,");
    reveal_strlit("source,");
    reveal_strlit("channel_type,");
    reveal_strlit("name,");
    reveal_strlit("channel_id,");
    reveal_strlit("world_id,");
    reveal_strlit("metadata)");
    reveal_strlit("VALUES");
    reveal_strlit("(?,");
    reveal_strlit("?,");
    reveal_strlit("?)");
    let ws = seq![
        "INSERT"@, "OR"@, "IGNORE"@, "INTO"@, "rooms"@, "(id,"@, "agent_id,"@, "source,"@,
        "channel_type,"@, "name,"@, "channel_id,"@, "world_id,"@, "metadata)"@, "VALUES"@,
        "(?,"@, "?,"@, "?,"@, "?,"@, "?,"@, "?,"@, "?,"@, "?)"@,
    ];
    reveal_with_fuel(lines::joined, 23);
    assert("INSERT OR IGNORE INTO rooms (id, agent_id, source, channel_type, name, channel_id, world_id, metadata) VALUES (?, ?, ?, ?, ?, ?, ?, ?)"@
        =~= lines::joined(ws, seq![' ']));
    lines::lemma_words_joined(ws);
}

/// What the statement says.
#[verifier::rlimit(50)]
pub proof fn create_room()
    ensures
        sql::read(
            "INSERT OR IGNORE INTO rooms (id, agent_id, source, channel_type, name, channel_id, world_id, metadata) VALUES (?, ?, ?, ?, ?, ?, ?, ?)"@,
        ) == (Reading {
            verb: "INSERT"@,
            table: "rooms"@,
            columns: seq![
                "id"@, "agent_id"@, "source"@, "channel_type"@, "name"@, "channel_id"@,
                "world_id"@, "metadata"@,
            ],
            sets: Seq::empty(),
            conditions: Seq::empty(),
            either: false,
            replaces: false,
        }),
        seq![
            "id"@, "agent_id"@, "source"@, "channel_type"@, "name"@, "channel_id"@, "world_id"@,
            "metadata"@,
        ].no_duplicates(),
{
    lemma_words_create_room();
    let ws = lines::words_of(
        "INSERT OR IGNORE INTO rooms (id, agent_id, source, channel_type, name, channel_id, world_id, metadata) VALUES (?, ?, ?, ?, ?, ?, ?, ?)"@,
    );
    reveal_strlit("INSERT");
    reveal_strlit("OR");
    reveal_strlit("IGNORE");
    reveal_strlit("INTO");
    reveal_strlit("rooms");
    reveal_strlit("(id,");
    reveal_strlit("agent_id,");
    reveal_strlit("source,");
    reveal_strlit("channel_type,");
    reveal_strlit("name,");
    reveal_strlit("channel_id,");
    reveal_strlit("world_id,");
    reveal_strlit("metadata)");
    reveal_strlit("id");
    reveal_strlit("agent_id");
    reveal_strlit("source");
    reveal_strlit("channel_type");
    reveal_strlit("name");
    reveal_strlit("channel_id");
    reveal_strlit("world_id");
    reveal_strlit("metadata");
    reveal_strlit("REPLACE");
    assert("INSERT"@.len() == 6 && "INSERT"@[0] == 'I' && "OR"@.len() == 2 && "OR"@[0] == 'O');
    assert("IGNORE"@.len() == 6 && "IGNORE"@[0] == 'I' && "INTO"@.len() == 4 && "INTO"@[0] == 'I');
    assert("rooms"@.len() == 5 && "rooms"@[0] == 'r' && "(id,"@.len() == 4 && "(id,"@[0] == '(');
    assert("agent_id,"@.len() == 9 && "agent_id,"@[0] == 'a');
    assert("source,"@.len() == 7 && "source,"@[0] == 's');
    assert("channel_type,"@.len() == 13 && "channel_type,"@[0] == 'c');
    assert("name,"@.len() == 5 && "name,"@[0] == 'n');
    assert("channel_id,"@.len() == 11 && "channel_id,"@[0] == 'c');
    assert("world_id,"@.len() == 9 && "world_id,"@[0] == 'w');
    assert("metadata)"@.len() == 9 && "metadata)"@[0] == 'm');
    assert("id"@.len() == 2 && "id"@[0] == 'i' && "agent_id"@.len() == 8 && "agent_id"@[0] == 'a');
    assert("source"@.len() == 6 && "source"@[0] == 's');
    assert("channel_type"@.len() == 12 && "channel_type"@[0] == 'c');
    assert("name"@.len() == 4 && "name"@[0] == 'n');
    assert("channel_id"@.len() == 10 && "channel_id"@[0] == 'c');
    assert("world_id"@.len() == 8 && "world_id"@[0] == 'w');
    assert("metadata"@.len() == 8 && "metadata"@[0] == 'm');
    assert("REPLACE"@.len() == 7 && "REPLACE"@[0] == 'R');
    assert(sql::bare("(id,"@) =~= "id"@);
    assert(sql::bare("agent_id,"@) =~= "agent_id"@);
    assert(sql::bare("source,"@) =~= "source"@);
    assert(sql::bare("channel_type,"@) =~= "channel_type"@);
    assert(sql::bare("name,"@) =~= "name"@);
    assert(sql::bare("channel_id,"@) =~= "channel_id"@);
    assert(sql::bare("world_id,"@) =~= "world_id"@);
    assert(sql::bare("metadata)"@) =~= "metadata"@);
    assert("(id,"@.last() == ',');
    assert("agent_id,"@.last() == ',');
    assert("source,"@.last() == ',');
    assert("channel_type,"@.last() == ',');
    assert("name,"@.last() == ',');
    assert("channel_id,"@.last() == ',');
    assert("world_id,"@.last() == ',');
    assert("metadata)"@.last() == ')');
    reveal_with_fuel(sql::listed, 9);
    assert(sql::listed(ws.skip(5)) =~= seq![
        "id"@, "agent_id"@, "source"@, "channel_type"@, "name"@, "channel_id"@, "world_id"@,
        "metadata"@,
    ]);
}

#[verifier::rlimit(50)]
proof fn lemma_words_get_rooms()
    ensures
        lines::words_of(
            "SELECT room_id FROM participants WHERE entity_id = ?"@,
        ) == seq![
            "SELECT"@, "room_id"@, "FROM"@, "participants"@, "WHERE"@, "entity_id"@, "="@, "?"@,
        ],
{
    reveal_strlit(
        "SELECT room_id FROM participants WHERE entity_id = ?",
    );
    reveal_strlit("SELECT");
    reveal_strlit("room_id");
    reveal_strlit("FROM");
    reveal_strlit("participants");
    reveal_strlit("WHERE");
    reveal_strlit("entity_id");
    reveal_strlit("=");
    reveal_strlit("?");
    let ws = seq![
        "SELECT"@, "room_id"@, "FROM"@, "participants"@, "WHERE"@, "entity_id"@, "="@, "?"@,
    ];
    reveal_with_fuel(lines::joined, 9);
    assert("SELECT room_id FROM participants WHERE entity_id = ?"@
        =~= lines::joined(ws, seq![' ']));
    lines::lemma_words_joined(ws);
}

/// What the statement says.
#[verifier::rlimit(50)]
pub proof fn get_rooms()
    ensures
        sql::read(
            "SELECT room_id FROM participants WHERE entity_id = ?"@,
        ) == (Reading {
            verb: "SELECT"@,
            table: "participants"@,
            columns: seq!["room_id"@],
            sets: Seq::empty(),
            conditions: seq!["entity_id"@],
            either: false,
            replaces: false,
        }),
{
    lemma_words_get_rooms();
    let ws = lines::words_of(
        "SELECT room_id FROM participants WHERE entity_id = ?"@,
    );
    reveal_strlit("SELECT");
    reveal_strlit("room_id");
    reveal_strlit("FROM");
    reveal_strlit("participants");
    reveal_strlit("WHERE");
    reveal_strlit("entity_id");
    reveal_strlit("=");
    reveal_strlit("?");
    reveal_strlit("INSERT");
    reveal_strlit("UPDATE");
    reveal_strlit("OR");
    assert("SELECT"@.len() == 6 && "SELECT"@[0] == 'S');
    assert("room_id"@.len() == 7 && "room_id"@[0] == 'r');
    assert("FROM"@.len() == 4 && "FROM"@[0] == 'F');
    assert("participants"@.len() == 12 && "participants"@[0] == 'p');
    assert("WHERE"@.len() == 5 && "WHERE"@[0] == 'W');
    assert("entity_id"@.len() == 9 && "entity_id"@[0] == 'e' && "="@.len() == 1 && "="@[0] == '=');
    assert("?"@.len() == 1 && "?"@[0] == '?' && "INSERT"@.len() == 6 && "INSERT"@[0] == 'I');
    assert("UPDATE"@.len() == 6 && "UPDATE"@[0] == 'U' && "OR"@.len() == 2 && "OR"@[0] == 'O');
    assert(sql::bare("room_id"@) =~= "room_id"@);
    assert(sql::bare("FROM"@) =~= "FROM"@);
    assert(sql::bare("participants"@) =~= "participants"@);
    assert(sql::bare("?"@) =~= "?"@);
    reveal_with_fuel(sql::place, 9);
    reveal_with_fuel(sql::compared, 9);
    assert(sql::place(ws, "WHERE"@, 0) == 4);
    assert(sql::place(ws, "FROM"@, 0) == 2);
    assert(ws.subrange(1, 2).map_values(|c: Seq<char>| sql::bare(c)) =~= seq!["room_id"@]);
    assert(sql::compared(ws.take(4)) =~= Seq::<Seq<char>>::empty());
    assert(sql::compared(ws.skip(4)) =~= seq!["entity_id"@]);
}

#[verifier::rlimit(50)]
proof fn lemma_words_get_participants()
    ensures
        lines::words_of(
            "SELECT entity_id FROM participants WHERE room_id = ?"@,
        ) == seq![
            "SELECT"@, "entity_id"@, "FROM"@, "participants"@, "WHERE"@, "room_id"@, "="@, "?"@,
        ],
{
    reveal_strlit(
        "SELECT entity_id FROM participants WHERE room_id = ?",
    );
    reveal_strlit("SELECT");
    reveal_strlit("entity_id");
    reveal_strlit("FROM");
    reveal_strlit("participants");
    reveal_strlit("WHERE");
    reveal_strlit("room_id");
    reveal_strlit("=");
    reveal_strlit("?");
    let ws = seq![
        "SELECT"@, "entity_id"@, "FROM"@, "participants"@, "WHERE"@, "room_id"@, "="@, "?"@,
    ];
    reveal_with_fuel(lines::joined, 9);
    assert("SELECT entity_id FROM participants WHERE room_id = ?"@
        =~= lines::joined(ws, seq![' ']));
    lines::lemma_words_joined(ws);
}

/// What the statement says.
#[verifier::rlimit(50)]
pub proof fn get_participants()
    ensures
        sql::read(
            "SELECT entity_id FROM participants WHERE room_id = ?"@,
        ) == (Reading {
            verb: "SELECT"@,
            table: "participants"@,
            columns: seq!["entity_id"@],
            sets: Seq::empty(),
            conditions: seq!["room_id"@],
            either: false,
            replaces: false,
        }),
{
    lemma_words_get_participants();
    let ws = lines::words_of(
        "SELECT entity_id FROM participants WHERE room_id = ?"@,
    );
    reveal_strlit("SELECT");
    reveal_strlit("entity_id");
    reveal_strlit("FROM");
    reveal_strlit("participants");
    reveal_strlit("WHERE");
    reveal_strlit("room_id");
    reveal_strlit("=");
    reveal_strlit("?");
    reveal_strlit("INSERT");
    reveal_strlit("UPDATE");
    reveal_strlit("OR");
    assert("SELECT"@.len() == 6 && "SELECT"@[0] == 'S');
    assert("entity_id"@.len() == 9 && "entity_id"@[0] == 'e');
    assert("FROM"@.len() == 4 && "FROM"@[0] == 'F');
    assert("participants"@.len() == 12 && "participants"@[0] == 'p');
    assert("WHERE"@.len() == 5 && "WHERE"@[0] == 'W');
    assert("room_id"@.len() == 7 && "room_id"@[0] == 'r' && "="@.len() == 1 && "="@[0] == '=');
    assert("?"@.len() == 1 && "?"@[0] == '?' && "INSERT"@.len() == 6 && "INSERT"@[0] == 'I');
    assert("UPDATE"@.len() == 6 && "UPDATE"@[0] == 'U' && "OR"@.len() == 2 && "OR"@[0] == 'O');
    assert(sql::bare("entity_id"@) =~= "entity_id"@);
    assert(sql::bare("FROM"@) =~= "FROM"@);
    assert(sql::bare("participants"@) =~= "participants"@);
    assert(sql::bare("?"@) =~= "?"@);
    reveal_with_fuel(sql::place, 9);
    reveal_with_fuel(sql::compared, 9);
    assert(sql::place(ws, "WHERE"@, 0) == 4);
    assert(sql::place(ws, "FROM"@, 0) == 2);
    assert(ws.subrange(1, 2).map_values(|c: Seq<char>| sql::bare(c)) =~= seq!["entity_id"@]);
    assert(sql::compared(ws.take(4)) =~= Seq::<Seq<char>>::empty());
    assert(sql::compared(ws.skip(4)) =~= seq!["room_id"@]);
}

#[verifier::rlimit(50)]
proof fn lemma_words_add_participant()
    ensures
        lines::words_of(
            "INSERT OR IGNORE INTO participants (id, entity_id, room_id, agent_id) VALUES (?, ?, ?, ?)"@,
        ) == seq![
            "INSERT"@, "OR"@, "IGNORE"@, "INTO"@, "participants"@, "(id,"@, "entity_id,"@,
            "room_id,"@, "agent_id)"@, "VALUES"@, "(?,"@, "?,"@, "?,"@, "?)"@,
        ],
{
    reveal_strlit(
        "INSERT OR IGNORE INTO participants (id, entity_id, room_id, agent_id) VALUES (?, ?, ?, ?)",
    );
    reveal_strlit("INSERT");
    reveal_strlit("OR");
    reveal_strlit("IGNORE");
    reveal_strlit("INTO");
    reveal_strlit("participants");
    reveal_strlit("(id,");
    reveal_strlit("entity_id,");
    reveal_strlit("room_id,");
    reveal_strlit("agent_id)");
    reveal_strlit("VALUES");
    reveal_strlit("(?,");
    reveal_strlit("?,");
    reveal_strlit("?)");
    let ws = seq![
        "INSERT"@, "OR"@, "IGNORE"@, "INTO"@, "participants"@, "(id,"@, "entity_id,"@,
        "room_id,"@, "agent_id)"@, "VALUES"@, "(?,"@, "?,"@, "?,"@, "?)"@,
    ];
    reveal_with_fuel(lines::joined, 15);
    assert("INSERT OR IGNORE INTO participants (id, entity_id, room_id, agent_id) VALUES (?, ?, ?, ?)"@
        =~= lines::joined(ws, seq![' ']));
    lines::lemma_words_joined(ws);
}

/// What the statement says.
#[verifier::rlimit(50)]
pub proof fn add_participant()
    ensures
        sql::read(
            "INSERT OR IGNORE INTO participants (id, entity_id, room_id, agent_id) VALUES (?, ?, ?, ?)"@,
        ) == (Reading {
            verb: "INSERT"@,
            table: "participants"@,
            columns: seq!["id"@, "entity_id"@, "room_id"@, "agent_id"@],
            sets: Seq::empty(),
            conditions: Seq::empty(),
            either: false,
            replaces: false,
        }),
        seq!["id"@, "entity_id"@, "room_id"@, "agent_id"@].no_duplicates(),
{
    lemma_words_add_participant();
    let ws = lines::words_of(
        "INSERT OR IGNORE INTO participants (id, entity_id, room_id, agent_id) VALUES (?, ?, ?, ?)"@,
    );
    reveal_strlit("INSERT");
    reveal_strlit("OR");
    reveal_strlit("IGNORE");
    reveal_strlit("INTO");
    reveal_strlit("participants");
    reveal_strlit("(id,");
    reveal_strlit("entity_id,");
    reveal_strlit("room_id,");
    reveal_strlit("agent_id)");
    reveal_strlit("id");
    reveal_strlit("entity_id");
    reveal_strlit("room_id");
    reveal_strlit("agent_id");
    reveal_strlit("REPLACE");
    assert("INSERT"@.len() == 6 && "INSERT"@[0] == 'I' && "OR"@.len() == 2 && "OR"@[0] == 'O');
    assert("IGNORE"@.len() == 6 && "IGNORE"@[0] == 'I' && "INTO"@.len() == 4 && "INTO"@[0] == 'I');
    assert("participants"@.len() == 12 && "participants"@[0] == 'p');
    assert("(id,"@.len() == 4 && "(id,"@[0] == '(');
    assert("entity_id,"@.len() == 10 && "entity_id,"@[0] == 'e');
    assert("room_id,"@.len() == 8 && "room_id,"@[0] == 'r');
    assert("agent_id)"@.len() == 9 && "agent_id)"@[0] == 'a');
    assert("id"@.len() == 2 && "id"@[0] == 'i');
    assert("entity_id"@.len() == 9 && "entity_id"@[0] == 'e');
    assert("room_id"@.len() == 7 && "room_id"@[0] == 'r');
    assert("agent_id"@.len() == 8 && "agent_id"@[0] == 'a');
    assert("REPLACE"@.len() == 7 && "REPLACE"@[0] == 'R');
    assert(sql::bare("(id,"@) =~= "id"@);
    assert(sql::bare("entity_id,"@) =~= "entity_id"@);
    assert(sql::bare("room_id,"@) =~= "room_id"@);
    assert(sql::bare("agent_id)"@) =~= "agent_id"@);
    assert("(id,"@.last() == ',');
    assert("entity_id,"@.last() == ',');
    assert("room_id,"@.last() == ',');
    assert("agent_id)"@.last() == ')');
    reveal_with_fuel(sql::listed, 5);
    assert(sql::listed(ws.skip(5)) =~= seq!["id"@, "entity_id"@, "room_id"@, "agent_id"@]);
}

#[verifier::rlimit(50)]
proof fn lemma_words_remove_participant()
    ensures
        lines::words_of(
            "DELETE FROM participants WHERE entity_id = ? AND room_id = ?"@,
        ) == seq![
            "DELETE"@, "FROM"@, "participants"@, "WHERE"@, "entity_id"@, "="@, "?"@, "AND"@,
            "room_id"@, "="@, "?"@,
        ],
{
    reveal_strlit(
        "DELETE FROM participants WHERE entity_id = ? AND room_id = ?",
    );
    reveal_strlit("DELETE");
    reveal_strlit("FROM");
    reveal_strlit("participants");
    reveal_strlit("WHERE");
    reveal_strlit("entity_id");
    reveal_strlit("=");
    reveal_strlit("?");
    reveal_strlit("AND");
    reveal_strlit("room_id");
    let ws = seq![
        "DELETE"@, "FROM"@, "participants"@, "WHERE"@, "entity_id"@, "="@, "?"@, "AND"@,
        "room_id"@, "="@, "?"@,
    ];
    reveal_with_fuel(lines::joined, 12);
    assert("DELETE FROM participants WHERE entity_id = ? AND room_id = ?"@
        =~= lines::joined(ws, seq![' ']));
    lines::lemma_words_joined(ws);
}

/// What the statement says.
#[verifier::rlimit(50)]
pub proof fn remove_participant()
    ensures
        sql::read(
            "DELETE FROM participants WHERE entity_id = ? AND room_id = ?"@,
        ) == (Reading {
            verb: "DELETE"@,
            table: "participants"@,
            columns: Seq::empty(),
            sets: Seq::empty(),
            conditions: seq!["entity_id"@, "room_id"@],
            either: false,
            replaces: false,
        }),
{
    lemma_words_remove_participant();
    let ws = lines::words_of(
        "DELETE FROM participants WHERE entity_id = ? AND room_id = ?"@,
    );
    reveal_strlit("DELETE");
    reveal_strlit("FROM");
    reveal_strlit("participants");
    reveal_strlit("WHERE");
    reveal_strlit("entity_id");
    reveal_strlit("=");
    reveal_strlit("?");
    reveal_strlit("AND");
    reveal_strlit("room_id");
    reveal_strlit("INSERT");
    reveal_strlit("UPDATE");
    reveal_strlit("OR");
    assert("DELETE"@.len() == 6 && "DELETE"@[0] == 'D' && "FROM"@.len() == 4 && "FROM"@[0] == 'F');
    assert("participants"@.len() == 12 && "participants"@[0] == 'p');
    assert("WHERE"@.len() == 5 && "WHERE"@[0] == 'W');
    assert("entity_id"@.len() == 9 && "entity_id"@[0] == 'e' && "="@.len() == 1 && "="@[0] == '=');
    assert("?"@.len() == 1 && "?"@[0] == '?' && "AND"@.len() == 3 && "AND"@[0] == 'A');
    assert("room_id"@.len() == 7 && "room_id"@[0] == 'r');
    assert("INSERT"@.len() == 6 && "INSERT"@[0] == 'I');
    assert("UPDATE"@.len() == 6 && "UPDATE"@[0] == 'U' && "OR"@.len() == 2 && "OR"@[0] == 'O');
    assert(sql::bare("FROM"@) =~= "FROM"@);
    assert(sql::bare("participants"@) =~= "participants"@);
    assert(sql::bare("?"@) =~= "?"@);
    reveal_with_fuel(sql::place, 12);
    reveal_with_fuel(sql::compared, 12);
    assert(sql::place(ws, "WHERE"@, 0) == 3);
    assert(sql::place(ws, "FROM"@, 0) == 1);
    assert(ws.subrange(1, 1).map_values(|c: Seq<char>| sql::bare(c)) =~= Seq::<Seq<char>>::empty());
    assert(sql::compared(ws.take(3)) =~= Seq::<Seq<char>>::empty());
    assert(sql::compared(ws.skip(3)) =~= seq!["entity_id"@, "room_id"@]);
}

#[verifier::rlimit(50)]
proof fn lemma_words_get_relationship()
    ensures
        lines::words_of(
            "SELECT * FROM relationships WHERE source_entity_id = ? AND target_entity_id = ? AND agent_id = ?"@,
        ) == seq![
            "SELECT"@, "*"@, "FROM"@, "relationships"@, "WHERE"@, "source_entity_id"@, "="@,
            "?"@, "AND"@, "target_entity_id"@, "="@, "?"@, "AND"@, "agent_id"@, "="@, "?"@,
        ],
{
    reveal_strlit(
        "SELECT * FROM relationships WHERE source_entity_id = ? AND target_entity_id = ? AND agent_id = ?",
    );
    reveal_strlit("SELECT");
    reveal_strlit("*");
    reveal_strlit("FROM");
    reveal_strlit("relationships");
    reveal_strlit("WHERE");
    reveal_strlit("source_entity_id");
    reveal_strlit("=");
    reveal_strlit("?");
    reveal_strlit("AND");
    reveal_strlit("target_entity_id");
    reveal_strlit("agent_id");
    let ws = seq![
        "SELECT"@, "*"@, "FROM"@, "relationships"@, "WHERE"@, "source_entity_id"@, "="@, "?"@,
        "AND"@, "target_entity_id"@, "="@, "?"@, "AND"@, "agent_id"@, "="@, "?"@,
    ];
    reveal_with_fuel(lines::joined, 17);
    assert("SELECT * FROM relationships WHERE source_entity_id = ? AND target_entity_id = ? AND agent_id = ?"@
        =~= lines::joined(ws, seq![' ']));
    lines::lemma_words_joined(ws);
}

/// What the statement says.
#[verifier::rlimit(50)]
pub proof fn get_relationship()
    ensures
        sql::read(
            "SELECT * FROM relationships WHERE source_entity_id = ? AND target_entity_id = ? AND agent_id = ?"@,
        ) == (Reading {
            verb: "SELECT"@,
            table: "relationships"@,
            columns: seq!["*"@],
            sets: Seq::empty(),
            conditions: seq!["source_entity_id"@, "target_entity_id"@, "agent_id"@],
            either: false,
            replaces: false,
        }),
{
    lemma_words_get_relationship();
    let ws = lines::words_of(
        "SELECT * FROM relationships WHERE source_entity_id = ? AND target_entity_id = ? AND agent_id = ?"@,
    );
    reveal_strlit("SELECT");
    reveal_strlit("*");
    reveal_strlit("FROM");
    reveal_strlit("relationships");
    reveal_strlit("WHERE");
    reveal_strlit("source_entity_id");
    reveal_strlit("=");
    reveal_strlit("?");
    reveal_strlit("AND");
    reveal_strlit("target_entity_id");
    reveal_strlit("agent_id");
    reveal_strlit("INSERT");
    reveal_strlit("UPDATE");
    reveal_strlit("OR");
    assert("SELECT"@.len() == 6 && "SELECT"@[0] == 'S' && "*"@.len() == 1 && "*"@[0] == '*');
    assert("FROM"@.len() == 4 && "FROM"@[0] == 'F');
    assert("relationships"@.len() == 13 && "relationships"@[0] == 'r');
    assert("WHERE"@.len() == 5 && "WHERE"@[0] == 'W');
    assert("source_entity_id"@.len() == 16 && "source_entity_id"@[0] == 's');
    assert("="@.len() == 1 && "="@[0] == '=' && "?"@.len() == 1 && "?"@[0] == '?');
    assert("AND"@.len() == 3 && "AND"@[0] == 'A');
    assert("target_entity_id"@.len() == 16 && "target_entity_id"@[0] == 't');
    assert("agent_id"@.len() == 8 && "agent_id"@[0] == 'a');
    assert("INSERT"@.len() == 6 && "INSERT"@[0] == 'I');
    assert("UPDATE"@.len() == 6 && "UPDATE"@[0] == 'U' && "OR"@.len() == 2 && "OR"@[0] == 'O');
    assert(sql::bare("*"@) =~= "*"@);
    assert(sql::bare("FROM"@) =~= "FROM"@);
    assert(sql::bare("relationships"@) =~= "relationships"@);
    assert(sql::bare("?"@) =~= "?"@);
    reveal_with_fuel(sql::place, 17);
    reveal_with_fuel(sql::compared, 17);
    assert(sql::place(ws, "WHERE"@, 0) == 4);
    assert(sql::place(ws, "FROM"@, 0) == 2);
    assert(ws.subrange(1, 2).map_values(|c: Seq<char>| sql::bare(c)) =~= seq!["*"@]);
    assert(sql::compared(ws.take(4)) =~= Seq::<Seq<char>>::empty());
    assert(sql::compared(ws.skip(4)) =~= seq!["source_entity_id"@, "target_entity_id"@, "agent_id"@]);
}

#[verifier::rlimit(50)]
proof fn lemma_words_get_relationships()
    ensures
        lines::words_of(
            "SELECT * FROM relationships WHERE source_entity_id = ? OR target_entity_id = ?"@,
        ) == seq![
            "SELECT"@, "*"@, "FROM"@, "relationships"@, "WHERE"@, "source_entity_id"@, "="@,
            "?"@, "OR"@, "target_entity_id"@, "="@, "?"@,
        ],
{
    reveal_strlit(
        "SELECT * FROM relationships WHERE source_entity_id = ? OR target_entity_id = ?",
    );
    reveal_strlit("SELECT");
    reveal_strlit("*");
    reveal_strlit("FROM");
    reveal_strlit("relationships");
    reveal_strlit("WHERE");
    reveal_strlit("source_entity_id");
    reveal_strlit("=");
    reveal_strlit("?");
    reveal_strlit("OR");
    reveal_strlit("target_entity_id");
    let ws = seq![
        "SELECT"@, "*"@, "FROM"@, "relationships"@, "WHERE"@, "source_entity_id"@, "="@, "?"@,
        "OR"@, "target_entity_id"@, "="@, "?"@,
    ];
    reveal_with_fuel(lines::joined, 13);
    assert("SELECT * FROM relationships WHERE source_entity_id = ? OR target_entity_id = ?"@
        =~= lines::joined(ws, seq![' ']));
    lines::lemma_words_joined(ws);
}

/// What the statement says.
#[verifier::rlimit(50)]
pub proof fn get_relationships()
    ensures
        sql::read(
            "SELECT * FROM relationships WHERE source_entity_id = ? OR target_entity_id = ?"@,
        ) == (Reading {
            verb: "SELECT"@,
            table: "relationships"@,
            columns: seq!["*"@],
            sets: Seq::empty(),
            conditions: seq!["source_entity_id"@, "target_entity_id"@],
            either: true,
            replaces: false,
        }),
{
    lemma_words_get_relationships();
    let ws = lines::words_of(
        "SELECT * FROM relationships WHERE source_entity_id = ? OR target_entity_id = ?"@,
    );
    reveal_strlit("SELECT");
    reveal_strlit("*");
    reveal_strlit("FROM");
    reveal_strlit("relationships");
    reveal_strlit("WHERE");
    reveal_strlit("source_entity_id");
    reveal_strlit("=");
    reveal_strlit("?");
    reveal_strlit("OR");
    reveal_strlit("target_entity_id");
    reveal_strlit("INSERT");
    reveal_strlit("UPDATE");
    assert("SELECT"@.len() == 6 && "SELECT"@[0] == 'S' && "*"@.len() == 1 && "*"@[0] == '*');
    assert("FROM"@.len() == 4 && "FROM"@[0] == 'F');
    assert("relationships"@.len() == 13 && "relationships"@[0] == 'r');
    assert("WHERE"@.len() == 5 && "WHERE"@[0] == 'W');
    assert("source_entity_id"@.len() == 16 && "source_entity_id"@[0] == 's');
    assert("="@.len() == 1 && "="@[0] == '=' && "?"@.len() == 1 && "?"@[0] == '?');
    assert("OR"@.len() == 2 && "OR"@[0] == 'O');
    assert("target_entity_id"@.len() == 16 && "target_entity_id"@[0] == 't');
    assert("INSERT"@.len() == 6 && "INSERT"@[0] == 'I');
    assert("UPDATE"@.len() == 6 && "UPDATE"@[0] == 'U');
    assert(sql::bare("*"@) =~= "*"@);
    assert(sql::bare("FROM"@) =~= "FROM"@);
    assert(sql::bare("relationships"@) =~= "relationships"@);
    assert(sql::bare("?"@) =~= "?"@);
    reveal_with_fuel(sql::place, 13);
    reveal_with_fuel(sql::compared, 13);
    assert(sql::place(ws, "WHERE"@, 0) == 4);
    assert(sql::place(ws, "FROM"@, 0) == 2);
    assert(ws.subrange(1, 2).map_values(|c: Seq<char>| sql::bare(c)) =~= seq!["*"@]);
    assert(sql::compared(ws.take(4)) =~= Seq::<Seq<char>>::empty());
    assert(sql::compared(ws.skip(4)) =~= seq!["source_entity_id"@, "target_entity_id"@]);
}

#[verifier::rlimit(50)]
proof fn lemma_words_create_relationship()
    ensures
        lines::words_of(
            "INSERT OR IGNORE INTO relationships (id, source_entity_id, target_entity_id, agent_id, tags, metadata) VALUES (?, ?, ?, ?, ?, ?)"@,
        ) == seq![
            "INSERT"@, "OR"@, "IGNORE"@, "INTO"@, "relationships"@, "(id,"@,
            "source_entity_id,"@, "target_entity_id,"@, "agent_id,"@, "tags,"@, "metadata)"@,
            "VALUES"@, "(?,"@, "?,"@, "?,"@, "?,"@, "?,"@, "?)"@,
        ],
{
    reveal_strlit(
        "INSERT OR IGNORE INTO relationships (id, source_entity_id, target_entity_id, agent_id, tags, metadata) VALUES (?, ?, ?, ?, ?, ?)",
    );
    reveal_strlit("INSERT");
    reveal_strlit("OR");
    reveal_strlit("IGNORE");
    reveal_strlit("INTO");
    reveal_strlit("relationships");
    reveal_strlit("(id,");
    reveal_strlit("source_entity_id,");
    reveal_strlit("target_entity_id,");
    reveal_strlit("agent_id,");
    reveal_strlit("tags,");
    reveal_strlit("metadata)");
    reveal_strlit("VALUES");
    reveal_strlit("(?,");
    reveal_strlit("?,");
    reveal_strlit("?)");
    let ws = seq![
        "INSERT"@, "OR"@, "IGNORE"@, "INTO"@, "relationships"@, "(id,"@, "source_entity_id,"@,
        "target_entity_id,"@, "agent_id,"@, "tags,"@, "metadata)"@, "VALUES"@, "(?,"@, "?,"@,
        "?,"@, "?,"@, "?,"@, "?)"@,
    ];
    reveal_with_fuel(lines::joined, 19);
    assert("INSERT OR IGNORE INTO relationships (id, source_entity_id, target_entity_id, agent_id, tags, metadata) VALUES (?, ?, ?, ?, ?, ?)"@
        =~= lines::joined(ws, seq![' ']));
    lines::lemma_words_joined(ws);
}

/// What the statement says.
#[verifier::rlimit(50)]
pub proof fn create_relationship()
    ensures
        sql::read(
            "INSERT OR IGNORE INTO relationships (id, source_entity_id, target_entity_id, agent_id, tags, metadata) VALUES (?, ?, ?, ?, ?, ?)"@,
        ) == (Reading {
            verb: "INSERT"@,
            table: "relationships"@,
            columns: seq![
                "id"@, "source_entity_id"@, "target_entity_id"@, "agent_id"@, "tags"@,
                "metadata"@,
            ],
            sets: Seq::empty(),
            conditions: Seq::empty(),
            either: false,
            replaces: false,
        }),
        seq![
            "id"@, "source_entity_id"@, "target_entity_id"@, "agent_id"@, "tags"@, "metadata"@,
        ].no_duplicates(),
{
    lemma_words_create_relationship();
    let ws = lines::words_of(
        "INSERT OR IGNORE INTO relationships (id, source_entity_id, target_entity_id, agent_id, tags, metadata) VALUES (?, ?, ?, ?, ?, ?)"@,
    );
    reveal_strlit("INSERT");
    reveal_strlit("OR");
    reveal_strlit("IGNORE");
    reveal_strlit("INTO");
    reveal_strlit("relationships");
    reveal_strlit("(id,");
    reveal_strlit("source_entity_id,");
    reveal_strlit("target_entity_id,");
    reveal_strlit("agent_id,");
    reveal_strlit("tags,");
    reveal_strlit("metadata)");
    reveal_strlit("id");
    reveal_strlit("source_entity_id");
    reveal_strlit("target_entity_id");
    reveal_strlit("agent_id");
    reveal_strlit("tags");
    reveal_strlit("metadata");
    reveal_strlit("REPLACE");
    assert("INSERT"@.len() == 6 && "INSERT"@[0] == 'I' && "OR"@.len() == 2 && "OR"@[0] == 'O');
    assert("IGNORE"@.len() == 6 && "IGNORE"@[0] == 'I' && "INTO"@.len() == 4 && "INTO"@[0] == 'I');
    assert("relationships"@.len() == 13 && "relationships"@[0] == 'r');
    assert("(id,"@.len() == 4 && "(id,"@[0] == '(');
    assert("source_entity_id,"@.len() == 17 && "source_entity_id,"@[0] == 's');
    assert("target_entity_id,"@.len() == 17 && "target_entity_id,"@[0] == 't');
    assert("agent_id,"@.len() == 9 && "agent_id,"@[0] == 'a');
    assert("tags,"@.len() == 5 && "tags,"@[0] == 't');
    assert("metadata)"@.len() == 9 && "metadata)"@[0] == 'm');
    assert("id"@.len() == 2 && "id"@[0] == 'i');
    assert("source_entity_id"@.len() == 16 && "source_entity_id"@[0] == 's');
    assert("target_entity_id"@.len() == 16 && "target_entity_id"@[0] == 't');
    assert("agent_id"@.len() == 8 && "agent_id"@[0] == 'a');
    assert("tags"@.len() == 4 && "tags"@[0] == 't');
    assert("metadata"@.len() == 8 && "metadata"@[0] == 'm');
    assert("REPLACE"@.len() == 7 && "REPLACE"@[0] == 'R');
    assert(sql::bare("(id,"@) =~= "id"@);
    assert(sql::bare("source_entity_id,"@) =~= "source_entity_id"@);
    assert(sql::bare("target_entity_id,"@) =~= "target_entity_id"@);
    assert(sql::bare("agent_id,"@) =~= "agent_id"@);
    assert(sql::bare("tags,"@) =~= "tags"@);
    assert(sql::bare("metadata)"@) =~= "metadata"@);
    assert("(id,"@.last() == ',');
    assert("source_entity_id,"@.last() == ',');
    assert("target_entity_id,"@.last() == ',');
    assert("agent_id,"@.last() == ',');
    assert("tags,"@.last() == ',');
    assert("metadata)"@.last() == ')');
    reveal_with_fuel(sql::listed, 7);
    assert(sql::listed(ws.skip(5)) =~= seq![
        "id"@, "source_entity_id"@, "target_entity_id"@, "agent_id"@, "tags"@, "metadata"@,
    ]);
}

#[verifier::rlimit(50)]
proof fn lemma_words_get_components()
    ensures
        lines::words_of(
            "SELECT * FROM components WHERE entity_id = ?"@,
        ) == seq![
            "SELECT"@, "*"@, "FROM"@, "components"@, "WHERE"@, "entity_id"@, "="@, "?"@,
        ],
{
    reveal_strlit(
        "SELECT * FROM components WHERE entity_id = ?",
    );
    reveal_strlit("SELECT");
    reveal_strlit("*");
    reveal_strlit("FROM");
    reveal_strlit("components");
    reveal_strlit("WHERE");
    reveal_strlit("entity_id");
    reveal_strlit("=");
    reveal_strlit("?");
    let ws = seq![
        "SELECT"@, "*"@, "FROM"@, "components"@, "WHERE"@, "entity_id"@, "="@, "?"@,
    ];
    reveal_with_fuel(lines::joined, 9);
    assert("SELECT * FROM components WHERE entity_id = ?"@
        =~= lines::joined(ws, seq![' ']));
    lines::lemma_words_joined(ws);
}

/// What the statement says.
#[verifier::rlimit(50)]
pub proof fn get_components()
    ensures
        sql::read(
            "SELECT * FROM components WHERE entity_id = ?"@,
        ) == (Reading {
            verb: "SELECT"@,
            table: "components"@,
            columns: seq!["*"@],
            sets: Seq::empty(),
            conditions: seq!["entity_id"@],
            either: false,
            replaces: false,
        }),
{
    lemma_words_get_components();
    let ws = lines::words_of(
        "SELECT * FROM components WHERE entity_id = ?"@,
    );
    reveal_strlit("SELECT");
    reveal_strlit("*");
    reveal_strlit("FROM");
    reveal_strlit("components");
    reveal_strlit("WHERE");
    reveal_strlit("entity_id");
    reveal_strlit("=");
    reveal_strlit("?");
    reveal_strlit("INSERT");
    reveal_strlit("UPDATE");
    reveal_strlit("OR");
    assert("SELECT"@.len() == 6 && "SELECT"@[0] == 'S' && "*"@.len() == 1 && "*"@[0] == '*');
    assert("FROM"@.len() == 4 && "FROM"@[0] == 'F');
    assert("components"@.len() == 10 && "components"@[0] == 'c');
    assert("WHERE"@.len() == 5 && "WHERE"@[0] == 'W');
    assert("entity_id"@.len() == 9 && "entity_id"@[0] == 'e' && "="@.len() == 1 && "="@[0] == '=');
    assert("?"@.len() == 1 && "?"@[0] == '?' && "INSERT"@.len() == 6 && "INSERT"@[0] == 'I');
    assert("UPDATE"@.len() == 6 && "UPDATE"@[0] == 'U' && "OR"@.len() == 2 && "OR"@[0] == 'O');
    assert(sql::bare("*"@) =~= "*"@);
    assert(sql::bare("FROM"@) =~= "FROM"@);
    assert(sql::bare("components"@) =~= "components"@);
    assert(sql::bare("?"@) =~= "?"@);
    reveal_with_fuel(sql::place, 9);
    reveal_with_fuel(sql::compared, 9);
    assert(sql::place(ws, "WHERE"@, 0) == 4);
    assert(sql::place(ws, "FROM"@, 0) == 2);
    assert(ws.subrange(1, 2).map_values(|c: Seq<char>| sql::bare(c)) =~= seq!["*"@]);
    assert(sql::compared(ws.take(4)) =~= Seq::<Seq<char>>::empty());
    assert(sql::compared(ws.skip(4)) =~= seq!["entity_id"@]);
}

#[verifier::rlimit(50)]
proof fn lemma_words_get_components_of_type()
    ensures
        lines::words_of(
            "SELECT * FROM components WHERE entity_id = ? AND component_type = ?"@,
        ) == seq![
            "SELECT"@, "*"@, "FROM"@, "components"@, "WHERE"@, "entity_id"@, "="@, "?"@, "AND"@,
            "component_type"@, "="@, "?"@,
        ],
{
    reveal_strlit(
        "SELECT * FROM components WHERE entity_id = ? AND component_type = ?",
    );
    reveal_strlit("SELECT");
    reveal_strlit("*");
    reveal_strlit("FROM");
    reveal_strlit("components");
    reveal_strlit("WHERE");
    reveal_strlit("entity_id");
    reveal_strlit("=");
    reveal_strlit("?");
    reveal_strlit("AND");
    reveal_strlit("component_type");
    let ws = seq![
        "SELECT"@, "*"@, "FROM"@, "components"@, "WHERE"@, "entity_id"@, "="@, "?"@, "AND"@,
        "component_type"@, "="@, "?"@,
    ];
    reveal_with_fuel(lines::joined, 13);
    assert("SELECT * FROM components WHERE entity_id = ? AND component_type = ?"@
        =~= lines::joined(ws, seq![' ']));
    lines::lemma_words_joined(ws);
}

/// What the statement says.
#[verifier::rlimit(50)]
pub proof fn get_components_of_type()
    ensures
        sql::read(
            "SELECT * FROM components WHERE entity_id = ? AND component_type = ?"@,
        ) == (Reading {
            verb: "SELECT"@,
            table: "components"@,
            columns: seq!["*"@],
            sets: Seq::empty(),
            conditions: seq!["entity_id"@, "component_type"@],
            either: false,
            replaces: false,
        }),
{
    lemma_words_get_components_of_type();
    let ws = lines::words_of(
        "SELECT * FROM components WHERE entity_id = ? AND component_type = ?"@,
    );
    reveal_strlit("SELECT");
    reveal_strlit("*");
    reveal_strlit("FROM");
    reveal_strlit("components");
    reveal_strlit("WHERE");
    reveal_strlit("entity_id");
    reveal_strlit("=");
    reveal_strlit("?");
    reveal_strlit("AND");
    reveal_strlit("component_type");
    reveal_strlit("INSERT");
    reveal_strlit("UPDATE");
    reveal_strlit("OR");
    assert("SELECT"@.len() == 6 && "SELECT"@[0] == 'S' && "*"@.len() == 1 && "*"@[0] == '*');
    assert("FROM"@.len() == 4 && "FROM"@[0] == 'F');
    assert("components"@.len() == 10 && "components"@[0] == 'c');
    assert("WHERE"@.len() == 5 && "WHERE"@[0] == 'W');
    assert("entity_id"@.len() == 9 && "entity_id"@[0] == 'e' && "="@.len() == 1 && "="@[0] == '=');
    assert("?"@.len() == 1 && "?"@[0] == '?' && "AND"@.len() == 3 && "AND"@[0] == 'A');
    assert("component_type"@.len() == 14 && "component_type"@[0] == 'c');
    assert("INSERT"@.len() == 6 && "INSERT"@[0] == 'I');
    assert("UPDATE"@.len() == 6 && "UPDATE"@[0] == 'U' && "OR"@.len() == 2 && "OR"@[0] == 'O');
    assert(sql::bare("*"@) =~= "*"@);
    assert(sql::bare("FROM"@) =~= "FROM"@);
    assert(sql::bare("components"@) =~= "components"@);
    assert(sql::bare("?"@) =~= "?"@);
    reveal_with_fuel(sql::place, 13);
    reveal_with_fuel(sql::compared, 13);
    assert(sql::place(ws, "WHERE"@, 0) == 4);
    assert(sql::place(ws, "FROM"@, 0) == 2);
    assert(ws.subrange(1, 2).map_values(|c: Seq<char>| sql::bare(c)) =~= seq!["*"@]);
    assert(sql::compared(ws.take(4)) =~= Seq::<Seq<char>>::empty());
    assert(sql::compared(ws.skip(4)) =~= seq!["entity_id"@, "component_type"@]);
}

#[verifier::rlimit(50)]
proof fn lemma_words_create_component()
    ensures
        lines::words_of(
            "INSERT OR IGNORE INTO components (id, entity_id, agent_id, room_id, world_id, source_entity_id, component_type, data) VALUES (?, ?, ?, ?, ?, ?, ?, ?)"@,
        ) == seq![
            "INSERT"@, "OR"@, "IGNORE"@, "INTO"@, "components"@, "(id,"@, "entity_id,"@,
            "agent_id,"@, "room_id,"@, "world_id,"@, "source_entity_id,"@, "component_type,"@,
            "data)"@, "VALUES"@, "(?,"@, "?,"@, "?,"@, "?,"@, "?,"@, "?,"@, "?,"@, "?)"@,
        ],
{
    reveal_strlit(
        "INSERT OR IGNORE INTO components (id, entity_id, agent_id, room_id, world_id, source_entity_id, component_type, data) VALUES (?, ?, ?, ?, ?, ?, ?, ?)",
    );
    reveal_strlit("INSERT");
    reveal_strlit("OR");
    reveal_strlit("IGNORE");
    reveal_strlit("INTO");
    reveal_strlit("components");
    reveal_strlit("(id,");
    reveal_strlit("entity_id,");
    reveal_strlit("agent_id,");
    reveal_strlit("room_id,");
    reveal_strlit("world_id,");
    reveal_strlit("source_entity_id,");
    reveal_strlit("component_type,");
    reveal_strlit("data)");
    reveal_strlit("VALUES");
    reveal_strlit("(?,");
    reveal_strlit("?,");
    reveal_strlit("?)");
    let ws = seq![
        "INSERT"@, "OR"@, "IGNORE"@, "INTO"@, "components"@, "(id,"@, "entity_id,"@,
        "agent_id,"@, "room_id,"@, "world_id,"@, "source_entity_id,"@, "component_type,"@,
        "data)"@, "VALUES"@, "(?,"@, "?,"@, "?,"@, "?,"@, "?,"@, "?,"@, "?,"@, "?)"@,
    ];
    reveal_with_fuel(lines::joined, 23);
    assert("INSERT OR IGNORE INTO components (id, entity_id, agent_id, room_id, world_id, source_entity_id, component_type, data) VALUES (?, ?, ?, ?, ?, ?, ?, ?)"@
        =~= lines::joined(ws, seq![' ']));
    lines::lemma_words_joined(ws);
}

/// What the statement says.
#[verifier::rlimit(50)]
pub proof fn create_component()
    ensures
        sql::read(
            "INSERT OR IGNORE INTO components (id, entity_id, agent_id, room_id, world_id, source_entity_id, component_type, data) VALUES (?, ?, ?, ?, ?, ?, ?, ?)"@,
        ) == (Reading {
            verb: "INSERT"@,
            table: "components"@,
            columns: seq![
                "id"@, "entity_id"@, "agent_id"@, "room_id"@, "world_id"@, "source_entity_id"@,
                "component_type"@, "data"@,
            ],
            sets: Seq::empty(),
            conditions: Seq::empty(),
            either: false,
            replaces: false,
        }),
        seq![
            "id"@, "entity_id"@, "agent_id"@, "room_id"@, "world_id"@, "source_entity_id"@,
            "component_type"@, "data"@,
        ].no_duplicates(),
{
    lemma_words_create_component();
    let ws = lines::words_of(
        "INSERT OR IGNORE INTO components (id, entity_id, agent_id, room_id, world_id, source_entity_id, component_type, data) VALUES (?, ?, ?, ?, ?, ?, ?, ?)"@,
    );
    reveal_strlit("INSERT");
    reveal_strlit("OR");
    reveal_strlit("IGNORE");
    reveal_strlit("INTO");
    reveal_strlit("components");
    reveal_strlit("(id,");
    reveal_strlit("entity_id,");
    reveal_strlit("agent_id,");
    reveal_strlit("room_id,");
    reveal_strlit("world_id,");
    reveal_strlit("source_entity_id,");
    reveal_strlit("component_type,");
    reveal_strlit("data)");
    reveal_strlit("id");
    reveal_strlit("entity_id");
    reveal_strlit("agent_id");
    reveal_strlit("room_id");
    reveal_strlit("world_id");
    reveal_strlit("source_entity_id");
    reveal_strlit("component_type");
    reveal_strlit("data");
    reveal_strlit("REPLACE");
    assert("INSERT"@.len() == 6 && "INSERT"@[0] == 'I' && "OR"@.len() == 2 && "OR"@[0] == 'O');
    assert("IGNORE"@.len() == 6 && "IGNORE"@[0] == 'I' && "INTO"@.len() == 4 && "INTO"@[0] == 'I');
    assert("components"@.len() == 10 && "components"@[0] == 'c');
    assert("(id,"@.len() == 4 && "(id,"@[0] == '(');
    assert("entity_id,"@.len() == 10 && "entity_id,"@[0] == 'e');
    assert("agent_id,"@.len() == 9 && "agent_id,"@[0] == 'a');
    assert("room_id,"@.len() == 8 && "room_id,"@[0] == 'r');
    assert("world_id,"@.len() == 9 && "world_id,"@[0] == 'w');
    assert("source_entity_id,"@.len() == 17 && "source_entity_id,"@[0] == 's');
    assert("component_type,"@.len() == 15 && "component_type,"@[0] == 'c');
    assert("data)"@.len() == 5 && "data)"@[0] == 'd' && "id"@.len() == 2 && "id"@[0] == 'i');
    assert("entity_id"@.len() == 9 && "entity_id"@[0] == 'e');
    assert("agent_id"@.len() == 8 && "agent_id"@[0] == 'a');
    assert("room_id"@.len() == 7 && "room_id"@[0] == 'r');
    assert("world_id"@.len() == 8 && "world_id"@[0] == 'w');
    assert("source_entity_id"@.len() == 16 && "source_entity_id"@[0] == 's');
    assert("component_type"@.len() == 14 && "component_type"@[0] == 'c');
    assert("data"@.len() == 4 && "data"@[0] == 'd');
    assert("REPLACE"@.len() == 7 && "REPLACE"@[0] == 'R');
    assert(sql::bare("(id,"@) =~= "id"@);
    assert(sql::bare("entity_id,"@) =~= "entity_id"@);
    assert(sql::bare("agent_id,"@) =~= "agent_id"@);
    assert(sql::bare("room_id,"@) =~= "room_id"@);
    assert(sql::bare("world_id,"@) =~= "world_id"@);
    assert(sql::bare("source_entity_id,"@) =~= "source_entity_id"@);
    assert(sql::bare("component_type,"@) =~= "component_type"@);
    assert(sql::bare("data)"@) =~= "data"@);
    assert("(id,"@.last() == ',');
    assert("entity_id,"@.last() == ',');
    assert("agent_id,"@.last() == ',');
    assert("room_id,"@.last() == ',');
    assert("world_id,"@.last() == ',');
    assert("source_entity_id,"@.last() == ',');
    assert("component_type,"@.last() == ',');
    assert("data)"@.last() == ')');
    reveal_with_fuel(sql::listed, 9);
    assert(sql::listed(ws.skip(5)) =~= seq![
        "id"@, "entity_id"@, "agent_id"@, "room_id"@, "world_id"@, "source_entity_id"@,
        "component_type"@, "data"@,
    ]);
}

#[verifier::rlimit(50)]
proof fn lemma_words_update_component()
    ensures
        lines::words_of(
            "UPDATE components SET data = ? WHERE id = ?"@,
        ) == seq![
            "UPDATE"@, "components"@, "SET"@, "data"@, "="@, "?"@, "WHERE"@, "id"@, "="@, "?"@,
        ],
{
    reveal_strlit(
        "UPDATE components SET data = ? WHERE id = ?",
    );
    reveal_strlit("UPDATE");
    reveal_strlit("components");
    reveal_strlit("SET");
    reveal_strlit("data");
    reveal_strlit("=");
    reveal_strlit("?");
    reveal_strlit("WHERE");
    reveal_strlit("id");
    let ws = seq![
        "UPDATE"@, "components"@, "SET"@, "data"@, "="@, "?"@, "WHERE"@, "id"@, "="@, "?"@,
    ];
    reveal_with_fuel(lines::joined, 11);
    assert("UPDATE components SET data = ? WHERE id = ?"@
        =~= lines::joined(ws, seq![' ']));
    lines::lemma_words_joined(ws);
}

/// What the statement says.
#[verifier::rlimit(50)]
pub proof fn update_component()
    ensures
        sql::read(
            "UPDATE components SET data = ? WHERE id = ?"@,
        ) == (Reading {
            verb: "UPDATE"@,
            table: "components"@,
            columns: Seq::empty(),
            sets: seq!["data"@],
            conditions: seq!["id"@],
            either: false,
            replaces: false,
        }),
        seq!["data"@].no_duplicates(),
{
    lemma_words_update_component();
    let ws = lines::words_of(
        "UPDATE components SET data = ? WHERE id = ?"@,
    );
    reveal_strlit("UPDATE");
    reveal_strlit("components");
    reveal_strlit("SET");
    reveal_strlit("data");
    reveal_strlit("=");
    reveal_strlit("?");
    reveal_strlit("WHERE");
    reveal_strlit("id");
    reveal_strlit("INSERT");
    reveal_strlit("FROM");
    reveal_strlit("OR");
    assert("UPDATE"@.len() == 6 && "UPDATE"@[0] == 'U');
    assert("components"@.len() == 10 && "components"@[0] == 'c');
    assert("SET"@.len() == 3 && "SET"@[0] == 'S' && "data"@.len() == 4 && "data"@[0] == 'd');
    assert("="@.len() == 1 && "="@[0] == '=' && "?"@.len() == 1 && "?"@[0] == '?');
    assert("WHERE"@.len() == 5 && "WHERE"@[0] == 'W' && "id"@.len() == 2 && "id"@[0] == 'i');
    assert("INSERT"@.len() == 6 && "INSERT"@[0] == 'I' && "FROM"@.len() == 4 && "FROM"@[0] == 'F');
    assert("OR"@.len() == 2 && "OR"@[0] == 'O');
    assert(sql::bare("components"@) =~= "components"@);
    assert(sql::bare("SET"@) =~= "SET"@);
    assert(sql::bare("data"@) =~= "data"@);
    assert(sql::bare("="@) =~= "="@);
    assert(sql::bare("?"@) =~= "?"@);
    reveal_with_fuel(sql::place, 11);
    reveal_with_fuel(sql::compared, 11);
    assert(sql::place(ws, "WHERE"@, 0) == 6);
    assert(sql::compared(ws.take(6)) =~= seq!["data"@]);
    assert(sql::compared(ws.skip(6)) =~= seq!["id"@]);
}

#[verifier::rlimit(50)]
proof fn lemma_words_delete_component()
    ensures
        lines::words_of(
            "DELETE FROM components WHERE id = ?"@,
        ) == seq!["DELETE"@, "FROM"@, "components"@, "WHERE"@, "id"@, "="@, "?"@],
{
    reveal_strlit(
        "DELETE FROM components WHERE id = ?",
    );
    reveal_strlit("DELETE");
    reveal_strlit("FROM");
    reveal_strlit("components");
    reveal_strlit("WHERE");
    reveal_strlit("id");
    reveal_strlit("=");
    reveal_strlit("?");
    let ws = seq!["DELETE"@, "FROM"@, "components"@, "WHERE"@, "id"@, "="@, "?"@];
    reveal_with_fuel(lines::joined, 8);
    assert("DELETE FROM components WHERE id = ?"@
        =~= lines::joined(ws, seq![' ']));
    lines::lemma_words_joined(ws);
}

/// What the statement says.
#[verifier::rlimit(50)]
pub proof fn delete_component()
    ensures
        sql::read(
            "DELETE FROM components WHERE id = ?"@,
        ) == (Reading {
            verb: "DELETE"@,
            table: "components"@,
            columns: Seq::empty(),
            sets: Seq::empty(),
            conditions: seq!["id"@],
            either: false,
            replaces: false,
        }),
{
    lemma_words_delete_component();
    let ws = lines::words_of(
        "DELETE FROM components WHERE id = ?"@,
    );
    reveal_strlit("DELETE");
    reveal_strlit("FROM");
    reveal_strlit("components");
    reveal_strlit("WHERE");
    reveal_strlit("id");
    reveal_strlit("=");
    reveal_strlit("?");
    reveal_strlit("INSERT");
    reveal_strlit("UPDATE");
    reveal_strlit("OR");
    assert("DELETE"@.len() == 6 && "DELETE"@[0] == 'D' && "FROM"@.len() == 4 && "FROM"@[0] == 'F');
    assert("components"@.len() == 10 && "components"@[0] == 'c');
    assert("WHERE"@.len() == 5 && "WHERE"@[0] == 'W' && "id"@.len() == 2 && "id"@[0] == 'i');
    assert("="@.len() == 1 && "="@[0] == '=' && "?"@.len() == 1 && "?"@[0] == '?');
    assert("INSERT"@.len() == 6 && "INSERT"@[0] == 'I');
    assert("UPDATE"@.len() == 6 && "UPDATE"@[0] == 'U' && "OR"@.len() == 2 && "OR"@[0] == 'O');
    assert(sql::bare("FROM"@) =~= "FROM"@);
    assert(sql::bare("components"@) =~= "components"@);
    assert(sql::bare("?"@) =~= "?"@);
    reveal_with_fuel(sql::place, 8);
    reveal_with_fuel(sql::compared, 8);
    assert(sql::place(ws, "WHERE"@, 0) == 3);
    assert(sql::place(ws, "FROM"@, 0) == 1);
    assert(ws.subrange(1, 1).map_values(|c: Seq<char>| sql::bare(c)) =~= Seq::<Seq<char>>::empty());
    assert(sql::compared(ws.take(3)) =~= Seq::<Seq<char>>::empty());
    assert(sql::compared(ws.skip(3)) =~= seq!["id"@]);
}

#[verifier::rlimit(50)]
proof fn lemma_words_get_world()
    ensures
        lines::words_of(
            "SELECT * FROM worlds WHERE id = ?"@,
        ) == seq!["SELECT"@, "*"@, "FROM"@, "worlds"@, "WHERE"@, "id"@, "="@, "?"@],
{
    reveal_strlit(
        "SELECT * FROM worlds WHERE id = ?",
    );
    reveal_strlit("SELECT");
    reveal_strlit("*");
    reveal_strlit("FROM");
    reveal_strlit("worlds");
    reveal_strlit("WHERE");
    reveal_strlit("id");
    reveal_strlit("=");
    reveal_strlit("?");
    let ws = seq!["SELECT"@, "*"@, "FROM"@, "worlds"@, "WHERE"@, "id"@, "="@, "?"@];
    reveal_with_fuel(lines::joined, 9);
    assert("SELECT * FROM worlds WHERE id = ?"@
        =~= lines::joined(ws, seq![' ']));
    lines::lemma_words_joined(ws);
}

/// What the statement says.
#[verifier::rlimit(50)]
pub proof fn get_world()
    ensures
        sql::read(
            "SELECT * FROM worlds WHERE id = ?"@,
        ) == (Reading {
            verb: "SELECT"@,
            table: "worlds"@,
            columns: seq!["*"@],
            sets: Seq::empty(),
            conditions: seq!["id"@],
            either: false,
            replaces: false,
        }),
{
    lemma_words_get_world();
    let ws = lines::words_of(
        "SELECT * FROM worlds WHERE id = ?"@,
    );
    reveal_strlit("SELECT");
    reveal_strlit("*");
    reveal_strlit("FROM");
    reveal_strlit("worlds");
    reveal_strlit("WHERE");
    reveal_strlit("id");
    reveal_strlit("=");
    reveal_strlit("?");
    reveal_strlit("INSERT");
    reveal_strlit("UPDATE");
    reveal_strlit("OR");
    assert("SELECT"@.len() == 6 && "SELECT"@[0] == 'S' && "*"@.len() == 1 && "*"@[0] == '*');
    assert("FROM"@.len() == 4 && "FROM"@[0] == 'F' && "worlds"@.len() == 6 && "worlds"@[0] == 'w');
    assert("WHERE"@.len() == 5 && "WHERE"@[0] == 'W' && "id"@.len() == 2 && "id"@[0] == 'i');
    assert("="@.len() == 1 && "="@[0] == '=' && "?"@.len() == 1 && "?"@[0] == '?');
    assert("INSERT"@.len() == 6 && "INSERT"@[0] == 'I');
    assert("UPDATE"@.len() == 6 && "UPDATE"@[0] == 'U' && "OR"@.len() == 2 && "OR"@[0] == 'O');
    assert(sql::bare("*"@) =~= "*"@);
    assert(sql::bare("FROM"@) =~= "FROM"@);
    assert(sql::bare("worlds"@) =~= "worlds"@);
    assert(sql::bare("?"@) =~= "?"@);
    reveal_with_fuel(sql::place, 9);
    reveal_with_fuel(sql::compared, 9);
    assert(sql::place(ws, "WHERE"@, 0) == 4);
    assert(sql::place(ws, "FROM"@, 0) == 2);
    assert(ws.subrange(1, 2).map_values(|c: Seq<char>| sql::bare(c)) =~= seq!["*"@]);
    assert(sql::compared(ws.take(4)) =~= Seq::<Seq<char>>::empty());
    assert(sql::compared(ws.skip(4)) =~= seq!["id"@]);
}

#[verifier::rlimit(50)]
proof fn lemma_words_create_world()
    ensures
        lines::words_of(
            "INSERT OR IGNORE INTO worlds (id, agent_id, name, metadata, server_id) VALUES (?, ?, ?, ?, ?)"@,
        ) == seq![
            "INSERT"@, "OR"@, "IGNORE"@, "INTO"@, "worlds"@, "(id,"@, "agent_id,"@, "name,"@,
            "metadata,"@, "server_id)"@, "VALUES"@, "(?,"@, "?,"@, "?,"@, "?,"@, "?)"@,
        ],
{
    reveal_strlit(
        "INSERT OR IGNORE INTO worlds (id, agent_id, name, metadata, server_id) VALUES (?, ?, ?, ?, ?)",
    );
    reveal_strlit("INSERT");
    reveal_strlit("OR");
    reveal_strlit("IGNORE");
    reveal_strlit("INTO");
    reveal_strlit("worlds");
    reveal_strlit("(id,");
    reveal_strlit("agent_id,");
    reveal_strlit("name,");
    reveal_strlit("metadata,");
    reveal_strlit("server_id)");
    reveal_strlit("VALUES");
    reveal_strlit("(?,");
    reveal_strlit("?,");
    reveal_strlit("?)");
    let ws = seq![
        "INSERT"@, "OR"@, "IGNORE"@, "INTO"@, "worlds"@, "(id,"@, "agent_id,"@, "name,"@,
        "metadata,"@, "server_id)"@, "VALUES"@, "(?,"@, "?,"@, "?,"@, "?,"@, "?)"@,
    ];
    reveal_with_fuel(lines::joined, 17);
    assert("INSERT OR IGNORE INTO worlds (id, agent_id, name, metadata, server_id) VALUES (?, ?, ?, ?, ?)"@
        =~= lines::joined(ws, seq![' ']));
    lines::lemma_words_joined(ws);
}

/// What the statement says.
#[verifier::rlimit(50)]
pub proof fn create_world()
    ensures
        sql::read(
            "INSERT OR IGNORE INTO worlds (id, agent_id, name, metadata, server_id) VALUES (?, ?, ?, ?, ?)"@,
        ) == (Reading {
            verb: "INSERT"@,
            table: "worlds"@,
            columns: seq!["id"@, "agent_id"@, "name"@, "metadata"@, "server_id"@],
            sets: Seq::empty(),
            conditions: Seq::empty(),
            either: false,
            replaces: false,
        }),
        seq!["id"@, "agent_id"@, "name"@, "metadata"@, "server_id"@].no_duplicates(),
{
    lemma_words_create_world();
    let ws = lines::words_of(
        "INSERT OR IGNORE INTO worlds (id, agent_id, name, metadata, server_id) VALUES (?, ?, ?, ?, ?)"@,
    );
    reveal_strlit("INSERT");
    reveal_strlit("OR");
    reveal_strlit("IGNORE");
    reveal_strlit("INTO");
    reveal_strlit("worlds");
    reveal_strlit("(id,");
    reveal_strlit("agent_id,");
    reveal_strlit("name,");
    reveal_strlit("metadata,");
    reveal_strlit("server_id)");
    reveal_strlit("id");
    reveal_strlit("agent_id");
    reveal_strlit("name");
    reveal_strlit("metadata");
    reveal_strlit("server_id");
    reveal_strlit("REPLACE");
    assert("INSERT"@.len() == 6 && "INSERT"@[0] == 'I' && "OR"@.len() == 2 && "OR"@[0] == 'O');
    assert("IGNORE"@.len() == 6 && "IGNORE"@[0] == 'I' && "INTO"@.len() == 4 && "INTO"@[0] == 'I');
    assert("worlds"@.len() == 6 && "worlds"@[0] == 'w' && "(id,"@.len() == 4 && "(id,"@[0] == '(');
    assert("agent_id,"@.len() == 9 && "agent_id,"@[0] == 'a');
    assert("name,"@.len() == 5 && "name,"@[0] == 'n');
    assert("metadata,"@.len() == 9 && "metadata,"@[0] == 'm');
    assert("server_id)"@.len() == 10 && "server_id)"@[0] == 's');
    assert("id"@.len() == 2 && "id"@[0] == 'i' && "agent_id"@.len() == 8 && "agent_id"@[0] == 'a');
    assert("name"@.len() == 4 && "name"@[0] == 'n');
    assert("metadata"@.len() == 8 && "metadata"@[0] == 'm');
    assert("server_id"@.len() == 9 && "server_id"@[0] == 's');
    assert("REPLACE"@.len() == 7 && "REPLACE"@[0] == 'R');
    assert(sql::bare("(id,"@) =~= "id"@);
    assert(sql::bare("agent_id,"@) =~= "agent_id"@);
    assert(sql::bare("name,"@) =~= "name"@);
    assert(sql::bare("metadata,"@) =~= "metadata"@);
    assert(sql::bare("server_id)"@) =~= "server_id"@);
    assert("(id,"@.last() == ',');
    assert("agent_id,"@.last() == ',');
    assert("name,"@.last() == ',');
    assert("metadata,"@.last() == ',');
    assert("server_id)"@.last() == ')');
    reveal_with_fuel(sql::listed, 6);
    assert(sql::listed(ws.skip(5)) =~= seq!["id"@, "agent_id"@, "name"@, "metadata"@, "server_id"@]);
}

#[verifier::rlimit(50)]
proof fn lemma_words_get_cache()
    ensures
        lines::words_of(
            "SELECT value, expires_at FROM cache WHERE key = ? AND agent_id = ?"@,
        ) == seq![
            "SELECT"@, "value,"@, "expires_at"@, "FROM"@, "cache"@, "WHERE"@, "key"@, "="@,
            "?"@, "AND"@, "agent_id"@, "="@, "?"@,
        ],
{
    reveal_strlit(
        "SELECT value, expires_at FROM cache WHERE key = ? AND agent_id = ?",
    );
    reveal_strlit("SELECT");
    reveal_strlit("value,");
    reveal_strlit("expires_at");
    reveal_strlit("FROM");
    reveal_strlit("cache");
    reveal_strlit("WHERE");
    reveal_strlit("key");
    reveal_strlit("=");
    reveal_strlit("?");
    reveal_strlit("AND");
    reveal_strlit("agent_id");
    let ws = seq![
        "SELECT"@, "value,"@, "expires_at"@, "FROM"@, "cache"@, "WHERE"@, "key"@, "="@, "?"@,
        "AND"@, "agent_id"@, "="@, "?"@,
    ];
    reveal_with_fuel(lines::joined, 14);
    assert("SELECT value, expires_at FROM cache WHERE key = ? AND agent_id = ?"@
        =~= lines::joined(ws, seq![' ']));
    lines::lemma_words_joined(ws);
}

/// What the statement says.
#[verifier::rlimit(50)]
pub proof fn get_cache()
    ensures
        sql::read(
            "SELECT value, expires_at FROM cache WHERE key = ? AND agent_id = ?"@,
        ) == (Reading {
            verb: "SELECT"@,
            table: "cache"@,
            columns: seq!["value"@, "expires_at"@],
            sets: Seq::empty(),
            conditions: seq!["key"@, "agent_id"@],
            either: false,
            replaces: false,
        }),
{
    lemma_words_get_cache();
    let ws = lines::words_of(
        "SELECT value, expires_at FROM cache WHERE key = ? AND agent_id = ?"@,
    );
    reveal_strlit("SELECT");
    reveal_strlit("value,");
    reveal_strlit("expires_at");
    reveal_strlit("FROM");
    reveal_strlit("cache");
    reveal_strlit("WHERE");
    reveal_strlit("key");
    reveal_strlit("=");
    reveal_strlit("?");
    reveal_strlit("AND");
    reveal_strlit("agent_id");
    reveal_strlit("value");
    reveal_strlit("INSERT");
    reveal_strlit("UPDATE");
    reveal_strlit("OR");
    assert("SELECT"@.len() == 6 && "SELECT"@[0] == 'S');
    assert("value,"@.len() == 6 && "value,"@[0] == 'v');
    assert("expires_at"@.len() == 10 && "expires_at"@[0] == 'e');
    assert("FROM"@.len() == 4 && "FROM"@[0] == 'F' && "cache"@.len() == 5 && "cache"@[0] == 'c');
    assert("WHERE"@.len() == 5 && "WHERE"@[0] == 'W' && "key"@.len() == 3 && "key"@[0] == 'k');
    assert("="@.len() == 1 && "="@[0] == '=' && "?"@.len() == 1 && "?"@[0] == '?');
    assert("AND"@.len() == 3 && "AND"@[0] == 'A');
    assert("agent_id"@.len() == 8 && "agent_id"@[0] == 'a');
    assert("value"@.len() == 5 && "value"@[0] == 'v');
    assert("INSERT"@.len() == 6 && "INSERT"@[0] == 'I');
    assert("UPDATE"@.len() == 6 && "UPDATE"@[0] == 'U' && "OR"@.len() == 2 && "OR"@[0] == 'O');
    assert(sql::bare("value,"@) =~= "value"@);
    assert(sql::bare("expires_at"@) =~= "expires_at"@);
    assert(sql::bare("FROM"@) =~= "FROM"@);
    assert(sql::bare("cache"@) =~= "cache"@);
    assert(sql::bare("?"@) =~= "?"@);
    reveal_with_fuel(sql::place, 14);
    reveal_with_fuel(sql::compared, 14);
    assert(sql::place(ws, "WHERE"@, 0) == 5);
    assert(sql::place(ws, "FROM"@, 0) == 3);
    assert(ws.subrange(1, 3).map_values(|c: Seq<char>| sql::bare(c)) =~= seq!["value"@, "expires_at"@]);
    assert(sql::compared(ws.take(5)) =~= Seq::<Seq<char>>::empty());
    assert(sql::compared(ws.skip(5)) =~= seq!["key"@, "agent_id"@]);
}

#[verifier::rlimit(50)]
proof fn lemma_words_delete_cache()
    ensures
        lines::words_of(
            "DELETE FROM cache WHERE key = ? AND agent_id = ?"@,
        ) == seq![
            "DELETE"@, "FROM"@, "cache"@, "WHERE"@, "key"@, "="@, "?"@, "AND"@, "agent_id"@,
            "="@, "?"@,
        ],
{
    reveal_strlit(
        "DELETE FROM cache WHERE key = ? AND agent_id = ?",
    );
    reveal_strlit("DELETE");
    reveal_strlit("FROM");
    reveal_strlit("cache");
    reveal_strlit("WHERE");
    reveal_strlit("key");
    reveal_strlit("=");
    reveal_strlit("?");
    reveal_strlit("AND");
    reveal_strlit("agent_id");
    let ws = seq![
        "DELETE"@, "FROM"@, "cache"@, "WHERE"@, "key"@, "="@, "?"@, "AND"@, "agent_id"@, "="@,
        "?"@,
    ];
    reveal_with_fuel(lines::joined, 12);
    assert("DELETE FROM cache WHERE key = ? AND agent_id = ?"@
        =~= lines::joined(ws, seq![' ']));
    lines::lemma_words_joined(ws);
}

/// What the statement says.
#[verifier::rlimit(50)]
pub proof fn delete_cache()
    ensures
        sql::read(
            "DELETE FROM cache WHERE key = ? AND agent_id = ?"@,
        ) == (Reading {
            verb: "DELETE"@,
            table: "cache"@,
            columns: Seq::empty(),
            sets: Seq::empty(),
            conditions: seq!["key"@, "agent_id"@],
            either: false,
            replaces: false,
        }),
{
    lemma_words_delete_cache();
    let ws = lines::words_of(
        "DELETE FROM cache WHERE key = ? AND agent_id = ?"@,
    );
    reveal_strlit("DELETE");
    reveal_strlit("FROM");
    reveal_strlit("cache");
    reveal_strlit("WHERE");
    reveal_strlit("key");
    reveal_strlit("=");
    reveal_strlit("?");
    reveal_strlit("AND");
    reveal_strlit("agent_id");
    reveal_strlit("INSERT");
    reveal_strlit("UPDATE");
    reveal_strlit("OR");
    assert("DELETE"@.len() == 6 && "DELETE"@[0] == 'D' && "FROM"@.len() == 4 && "FROM"@[0] == 'F');
    assert("cache"@.len() == 5 && "cache"@[0] == 'c' && "WHERE"@.len() == 5 && "WHERE"@[0] == 'W');
    assert("key"@.len() == 3 && "key"@[0] == 'k' && "="@.len() == 1 && "="@[0] == '=');
    assert("?"@.len() == 1 && "?"@[0] == '?' && "AND"@.len() == 3 && "AND"@[0] == 'A');
    assert("agent_id"@.len() == 8 && "agent_id"@[0] == 'a');
    assert("INSERT"@.len() == 6 && "INSERT"@[0] == 'I');
    assert("UPDATE"@.len() == 6 && "UPDATE"@[0] == 'U' && "OR"@.len() == 2 && "OR"@[0] == 'O');
    assert(sql::bare("FROM"@) =~= "FROM"@);
    assert(sql::bare("cache"@) =~= "cache"@);
    assert(sql::bare("?"@) =~= "?"@);
    reveal_with_fuel(sql::place, 12);
    reveal_with_fuel(sql::compared, 12);
    assert(sql::place(ws, "WHERE"@, 0) == 3);
    assert(sql::place(ws, "FROM"@, 0) == 1);
    assert(ws.subrange(1, 1).map_values(|c: Seq<char>| sql::bare(c)) =~= Seq::<Seq<char>>::empty());
    assert(sql::compared(ws.take(3)) =~= Seq::<Seq<char>>::empty());
    assert(sql::compared(ws.skip(3)) =~= seq!["key"@, "agent_id"@]);
}

#[verifier::rlimit(50)]
proof fn lemma_words_set_cache()
    ensures
        lines::words_of(
            "INSERT OR REPLACE INTO cache (key, agent_id, value, expires_at) VALUES (?, ?, ?, ?)"@,
        ) == seq![
            "INSERT"@, "OR"@, "REPLACE"@, "INTO"@, "cache"@, "(key,"@, "agent_id,"@, "value,"@,
            "expires_at)"@, "VALUES"@, "(?,"@, "?,"@, "?,"@, "?)"@,
        ],
{
    reveal_strlit(
        "INSERT OR REPLACE INTO cache (key, agent_id, value, expires_at) VALUES (?, ?, ?, ?)",
    );
    reveal_strlit("INSERT");
    reveal_strlit("OR");
    reveal_strlit("REPLACE");
    reveal_strlit("INTO");
    reveal_strlit("cache");
    reveal_strlit("(key,");
    reveal_strlit("agent_id,");
    reveal_strlit("value,");
    reveal_strlit("expires_at)");
    reveal_strlit("VALUES");
    reveal_strlit("(?,");
    reveal_strlit("?,");
    reveal_strlit("?)");
    let ws = seq![
        "INSERT"@, "OR"@, "REPLACE"@, "INTO"@, "cache"@, "(key,"@, "agent_id,"@, "value,"@,
        "expires_at)"@, "VALUES"@, "(?,"@, "?,"@, "?,"@, "?)"@,
    ];
    reveal_with_fuel(lines::joined, 15);
    assert("INSERT OR REPLACE INTO cache (key, agent_id, value, expires_at) VALUES (?, ?, ?, ?)"@
        =~= lines::joined(ws, seq![' ']));
    lines::lemma_words_joined(ws);
}

/// What the statement says.
#[verifier::rlimit(50)]
pub proof fn set_cache()
    ensures
        sql::read(
            "INSERT OR REPLACE INTO cache (key, agent_id, value, expires_at) VALUES (?, ?, ?, ?)"@,
        ) == (Reading {
            verb: "INSERT"@,
            table: "cache"@,
            columns: seq!["key"@, "agent_id"@, "value"@, "expires_at"@],
            sets: Seq::empty(),
            conditions: Seq::empty(),
            either: false,
            replaces: true,
        }),
        seq!["key"@, "agent_id"@, "value"@, "expires_at"@].no_duplicates(),
{
    lemma_words_set_cache();
    let ws = lines::words_of(
        "INSERT OR REPLACE INTO cache (key, agent_id, value, expires_at) VALUES (?, ?, ?, ?)"@,
    );
    reveal_strlit("INSERT");
    reveal_strlit("OR");
    reveal_strlit("REPLACE");
    reveal_strlit("INTO");
    reveal_strlit("cache");
    reveal_strlit("(key,");
    reveal_strlit("agent_id,");
    reveal_strlit("value,");
    reveal_strlit("expires_at)");
    reveal_strlit("key");
    reveal_strlit("agent_id");
    reveal_strlit("value");
    reveal_strlit("expires_at");
    assert("INSERT"@.len() == 6 && "INSERT"@[0] == 'I' && "OR"@.len() == 2 && "OR"@[0] == 'O');
    assert("REPLACE"@.len() == 7 && "REPLACE"@[0] == 'R');
    assert("INTO"@.len() == 4 && "INTO"@[0] == 'I' && "cache"@.len() == 5 && "cache"@[0] == 'c');
    assert("(key,"@.len() == 5 && "(key,"@[0] == '(');
    assert("agent_id,"@.len() == 9 && "agent_id,"@[0] == 'a');
    assert("value,"@.len() == 6 && "value,"@[0] == 'v');
    assert("expires_at)"@.len() == 11 && "expires_at)"@[0] == 'e');
    assert("key"@.len() == 3 && "key"@[0] == 'k');
    assert("agent_id"@.len() == 8 && "agent_id"@[0] == 'a');
    assert("value"@.len() == 5 && "value"@[0] == 'v');
    assert("expires_at"@.len() == 10 && "expires_at"@[0] == 'e');
    assert(sql::bare("(key,"@) =~= "key"@);
    assert(sql::bare("agent_id,"@) =~= "agent_id"@);
    assert(sql::bare("value,"@) =~= "value"@);
    assert(sql::bare("expires_at)"@) =~= "expires_at"@);
    assert("(key,"@.last() == ',');
    assert("agent_id,"@.last() == ',');
    assert("value,"@.last() == ',');
    assert("expires_at)"@.last() == ')');
    reveal_with_fuel(sql::listed, 5);
    assert(sql::listed(ws.skip(5)) =~= seq!["key"@, "agent_id"@, "value"@, "expires_at"@]);
}

} // verus!
