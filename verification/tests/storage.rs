use rustliza::ids::Uuid;
use rustliza::storage::{
    bytes_to_embedding, create_embedding, create_entity, create_memory, create_room,
    embedding_to_bytes, get_components, get_memories, has_expired, parse_component_row,
    parse_entity_row, parse_memory_row, parse_relationship_row, parse_room_row, parse_world_row,
    pick_similar, read_ids, search_memories, set_cache, str_to_uuid, Binding, ComponentRow,
    EntityRow, MemoryRow, RelationshipRow, RoomRow, Statement, WorldRow,
};
use rustliza::time::Timestamp;
use rustliza::types::{
    ChannelType, Content, Entity, GetMemoriesParams, Memory, MemoryType, Metadata, Room,
    SearchMemoriesParams,
};

fn text_at(s: &Statement, i: usize) -> String {
    match &s.bindings[i] {
        Binding::Text(t) => t.clone(),
        _ => panic!(),
    }
}

fn maybe_at(s: &Statement, i: usize) -> Option<String> {
    match &s.bindings[i] {
        Binding::MaybeText(t) => t.clone(),
        _ => panic!(),
    }
}

#[test]
fn entities_read_back() {
    let e = Entity {
        id: Uuid { bits: 1 },
        agent_id: Uuid { bits: 2 },
        names: vec!["A \"b\"".into(), "é\n".into()],
        metadata: Some(Metadata::Reflection),
        created_at: None,
    };
    let s = create_entity(&e);
    let row = EntityRow {
        id: text_at(&s, 0),
        agent_id: text_at(&s, 1),
        names: text_at(&s, 2),
        metadata: maybe_at(&s, 3),
        created_at: Some("2024-01-01T00:00:00Z".into()),
    };
    let read = parse_entity_row(&row);
    assert_eq!(read.id, e.id);
    assert_eq!(read.agent_id, e.agent_id);
    assert_eq!(read.names, e.names);
    assert_eq!(read.metadata.unwrap().to_json(), "{\"type\":\"reflection\"}");
    assert_eq!(read.created_at, Some(Timestamp { secs: 1_704_067_200, nanos: 0 }));
}

#[test]
fn memories_read_back() {
    let mut m = Memory::new_message(
        Uuid { bits: 1 },
        Uuid { bits: 2 },
        Uuid { bits: 3 },
        Content::text("hi"),
    );
    m.memory_type = MemoryType::Fragment;
    m.world_id = Some(Uuid { bits: 9 });
    let s = create_memory(&m, "{\"text\":\"hi\"}");
    assert_eq!(text_at(&s, 1), "fragment");
    assert_eq!(text_at(&s, 2), "{\"text\":\"hi\"}");
    let unique = match s.bindings[7] {
        Binding::Int(n) => n as i32,
        _ => panic!(),
    };
    let row = MemoryRow {
        id: text_at(&s, 0),
        memory_type: text_at(&s, 1),
        content: Some(Content::text("hi")),
        entity_id: text_at(&s, 3),
        agent_id: text_at(&s, 4),
        room_id: text_at(&s, 5),
        world_id: maybe_at(&s, 6),
        unique,
        metadata: maybe_at(&s, 8),
        created_at: Some("never".into()),
    };
    let read = parse_memory_row(row);
    assert_eq!(read.id, m.id);
    assert_eq!(read.memory_type, MemoryType::Fragment);
    assert_eq!((read.agent_id, read.entity_id, read.room_id), (m.agent_id, m.entity_id, m.room_id));
    assert_eq!(read.world_id, m.world_id);
    assert!(read.unique);
    assert_eq!(read.content.text, Some("hi".to_string()));
    assert!(read.created_at.is_none());
    assert!(read.metadata.is_none());
}

#[test]
fn rooms_read_back() {
    for t in [ChannelType::Itself, ChannelType::VoiceGroup, ChannelType::Api] {
        let room = Room {
            id: Uuid { bits: 1 },
            agent_id: Uuid { bits: 2 },
            source: "cli".into(),
            channel_type: t,
            name: Some("n".into()),
            channel_id: None,
            world_id: None,
            metadata: None,
            created_at: None,
        };
        let s = create_room(&room);
        let row = RoomRow {
            id: text_at(&s, 0),
            agent_id: text_at(&s, 1),
            source: text_at(&s, 2),
            channel_type: text_at(&s, 3),
            name: maybe_at(&s, 4),
            channel_id: maybe_at(&s, 5),
            world_id: maybe_at(&s, 6),
            metadata: maybe_at(&s, 7),
            created_at: None,
        };
        let read = parse_room_row(&row);
        assert_eq!(read.channel_type, t);
        assert_eq!(read.source, "cli");
        assert_eq!(read.name, Some("n".to_string()));
    }
}

fn room_row(channel: &str) -> RoomRow {
    RoomRow {
        id: "bad".into(),
        agent_id: "bad".into(),
        source: "s".into(),
        channel_type: channel.into(),
        name: None,
        channel_id: None,
        world_id: Some("bad".into()),
        metadata: Some("{not json".into()),
        created_at: None,
    }
}

#[test]
fn what_cannot_be_read_gets_a_default() {
    let r = parse_room_row(&room_row("NOWHERE"));
    assert_eq!(r.channel_type, ChannelType::Dm);
    assert_eq!(r.id, Uuid::nil());
    assert!(r.world_id.is_none());
    assert!(r.metadata.is_none());
    assert_eq!(parse_room_row(&room_row("\\u0046EED")).channel_type, ChannelType::Feed);
    assert_eq!(parse_room_row(&room_row("FE\"ED")).channel_type, ChannelType::Dm);
    let e = parse_entity_row(&EntityRow {
        id: "x".into(),
        agent_id: "x".into(),
        names: "oops".into(),
        metadata: Some(" [1, 2] ".into()),
        created_at: None,
    });
    assert!(e.names.is_empty());
    assert_eq!(e.metadata.unwrap().to_json(), " [1, 2] ");
    let r = parse_relationship_row(&RelationshipRow {
        id: "x".into(),
        source_entity_id: "x".into(),
        target_entity_id: "x".into(),
        agent_id: "x".into(),
        tags: "[\"friend\"]".into(),
        metadata: None,
        created_at: None,
    });
    assert_eq!(r.tags, vec!["friend"]);
    let c = parse_component_row(&ComponentRow {
        id: "x".into(),
        entity_id: "x".into(),
        agent_id: "x".into(),
        room_id: None,
        world_id: None,
        source_entity_id: None,
        component_type: "t".into(),
        data: None,
        created_at: None,
    });
    assert_eq!(c.component_type, "t");
    let w = parse_world_row(&WorldRow {
        id: "x".into(),
        agent_id: "x".into(),
        name: "n".into(),
        metadata: None,
        server_id: Some("s".into()),
        created_at: None,
    });
    assert_eq!(w.server_id, Some("s".to_string()));
}

#[test]
fn conditions_make_the_query() {
    let s = get_memories(&GetMemoriesParams::default());
    assert_eq!(s.sql, "SELECT * FROM memories WHERE 1=1 ORDER BY created_at DESC");
    assert!(s.bindings.is_empty());
    let s = get_memories(&GetMemoriesParams {
        room_id: Some(Uuid { bits: 1 }),
        agent_id: Some(Uuid { bits: 2 }),
        entity_id: Some(Uuid { bits: 3 }),
        memory_type: Some(MemoryType::Description),
        unique: Some(true),
        count: Some(7),
    });
    assert_eq!(
        s.sql,
        "SELECT * FROM memories WHERE 1=1 AND room_id = ? AND agent_id = ? AND entity_id = ? \
         AND type = ? AND \"unique\" = ? ORDER BY created_at DESC LIMIT 7"
    );
    assert_eq!(text_at(&s, 1), Uuid { bits: 2 }.to_text());
    assert_eq!(text_at(&s, 3), "description");
    assert_eq!(text_at(&s, 4), "1");
    let s = search_memories(&SearchMemoriesParams {
        embedding: vec![],
        room_id: None,
        agent_id: Uuid { bits: 2 },
        memory_type: None,
        match_threshold: 0.3f32.to_bits(),
        match_count: 3,
        unique: Some(false),
    });
    assert!(s.sql.ends_with("WHERE m.agent_id = ? AND m.\"unique\" = ?"));
    assert_eq!(text_at(&s, 1), "0");
    let s = get_components(&Uuid::nil(), &Some("t".to_string()));
    assert_eq!(s.sql, "SELECT * FROM components WHERE entity_id = ? AND component_type = ?");
    assert_eq!(get_components(&Uuid::nil(), &None).bindings.len(), 1);
}

#[test]
fn embeddings_read_back() {
    let e: Vec<u32> = vec![1.5f32, -0.25, 0.0, f32::MAX].iter().map(|x| x.to_bits()).collect();
    let b = embedding_to_bytes(&e);
    assert_eq!(&b[..4], &1.5f32.to_le_bytes());
    assert_eq!(bytes_to_embedding(&b), e);
    assert_eq!(bytes_to_embedding(&vec![1, 0, 0, 0, 9]), vec![1]);
    let (s, id) = create_embedding(&Uuid { bits: 5 }, &e);
    assert_eq!(text_at(&s, 0), id.to_text());
    assert!(matches!(&s.bindings[2], Binding::Blob(x) if *x == b));
}

#[test]
fn similar_memories_are_picked() {
    let sims: Vec<Option<u64>> = vec![Some(0.2f64), Some(0.9), None, Some(f64::NAN), Some(0.5), Some(0.9)]
        .into_iter()
        .map(|x| x.map(|v: f64| v.to_bits()))
        .collect();
    assert_eq!(pick_similar(&sims, (0.5f64).to_bits(), 10), vec![1, 5, 4]);
    assert_eq!(pick_similar(&sims, (0.5f64).to_bits(), 2), vec![1, 5]);
    assert!(pick_similar(&sims, f64::NAN.to_bits(), 2).is_empty());
}

#[test]
fn cached_values_expire() {
    let t = Timestamp { secs: 1_700_000_000, nanos: 5 };
    let s = set_cache("k", &Uuid::nil(), "{}", &Some(t));
    let stored = maybe_at(&s, 3);
    assert!(!has_expired(&stored, &t));
    assert!(has_expired(&stored, &Timestamp { secs: 1_700_000_000, nanos: 6 }));
    let s = set_cache("k", &Uuid::nil(), "{}", &None);
    assert!(!has_expired(&maybe_at(&s, 3), &t));
    assert!(!has_expired(&Some("soon".to_string()), &t));
}

#[test]
fn bad_identifiers_are_errors() {
    let good = Uuid { bits: 77 };
    assert_eq!(str_to_uuid(&good.to_text()).unwrap(), good);
    let why = uuid::Uuid::parse_str("zz").unwrap_err().to_string();
    assert_eq!(
        str_to_uuid("zz").unwrap_err().message(),
        format!("database error: invalid uuid 'zz': {}", why)
    );
    assert_eq!(read_ids(&vec![good.to_text(), good.to_text()]).unwrap(), vec![good, good]);
    assert!(read_ids(&vec![good.to_text(), "zz".to_string(), "yy".to_string()])
        .unwrap_err()
        .message()
        .contains("'zz'"));
}
