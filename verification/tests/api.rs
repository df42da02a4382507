use rustliza::api::{
    check_inside, create_room, expand_home, get_agent, get_room, health, list_files,
    memories_params, memory_responses, message_responses, metrics_snapshot, require_project,
    room_response, send_message, set_project, stream_event, task_dir, task_event, webhook,
    CreateRoomRequest, Refusal, SendMessageRequest, WebhookRequest,
};
use rustliza::character::Character;
use rustliza::coding::CodingEvent;
use rustliza::ids::Uuid;
use rustliza::metrics::PipelineMetrics;
use rustliza::types::{ChannelType, Content, Memory, MemoryType, Metadata, StreamEvent};

fn refused(r: Refusal) -> (u16, String) {
    (r.status, r.body.error)
}

#[test]
fn requests_to_send_a_message() {
    let (room, entity) = (Uuid { bits: 5 }, Uuid { bits: 6 });
    let req = |r: &str, e: &str| SendMessageRequest {
        text: "hi".into(),
        room_id: r.into(),
        entity_id: e.into(),
    };
    let m = send_message(&req(&room.to_text(), &entity.to_text()), Uuid { bits: 1 }).unwrap();
    assert_eq!((m.room_id, m.entity_id, m.agent_id), (room, entity, Uuid { bits: 1 }));
    assert_eq!(m.content.text, Some("hi".to_string()));
    assert_eq!(m.memory_type, MemoryType::Message);
    let bad = send_message(&req("x", "y"), Uuid::nil()).unwrap_err();
    assert_eq!(refused(bad), (400, "invalid room_id".to_string()));
    let bad = send_message(&req(&room.to_text(), "y"), Uuid::nil()).unwrap_err();
    assert_eq!(refused(bad), (400, "invalid entity_id".to_string()));
    let answer = message_responses(&vec![m]);
    assert_eq!(answer.responses.len(), 1);
    assert_eq!(answer.responses[0].text, Some("hi".to_string()));
    assert!(answer.responses[0].actions.is_none());
}

#[test]
fn who_the_agent_is() {
    let h = health("Ada", "1.0");
    assert_eq!((h.status.as_str(), h.agent.as_str(), h.version.as_str()), ("ok", "Ada", "1.0"));
    let mut c = Character::default();
    c.name = "Ada".into();
    c.bio = vec!["x".into(), "y".into()];
    c.topics = vec!["t".into()];
    let a = get_agent(Uuid { bits: 3 }, &c);
    assert_eq!(a.agent_id, Uuid { bits: 3 }.to_text());
    assert_eq!(a.bio, "x y");
    assert_eq!(a.topics, vec!["t"]);
    assert_eq!(metrics_snapshot(None), PipelineMetrics::new().snapshot());
    let mut m = PipelineMetrics::new();
    m.record_message();
    m.record_total(3000);
    assert_eq!(metrics_snapshot(Some(m.snapshot())).avg_total_ms, 3);
}

#[test]
fn rooms_and_memories() {
    let r = create_room(&CreateRoomRequest { name: Some("n".into()), source: None }, Uuid { bits: 2 });
    assert_eq!((r.source.as_str(), r.channel_type), ("api", ChannelType::Api));
    let shown = room_response(&r);
    assert_eq!((shown.id, shown.channel_type.as_str()), (r.id.to_text(), "Api"));
    assert_eq!(get_room(&Some(r)).unwrap().name, Some("n".to_string()));
    assert_eq!(refused(get_room(&None).unwrap_err()), (404, "room not found".to_string()));
    let p = memories_params(Uuid { bits: 4 }, Uuid { bits: 2 });
    assert_eq!((p.count, p.memory_type), (Some(50), Some(MemoryType::Message)));
    let mut m = Memory::new_message(Uuid::nil(), Uuid { bits: 9 }, Uuid::nil(), Content::text("x"));
    m.created_at = None;
    let a = memory_responses(&vec![m]);
    assert_eq!(a[0].memory_type, "Message");
    assert_eq!(a[0].entity_id, Uuid { bits: 9 }.to_text());
    assert!(a[0].created_at.is_none());
}

#[test]
fn webhooks() {
    let req = |e: Option<&str>, r: Option<&str>| WebhookRequest {
        text: "t".into(),
        source: "gh".into(),
        entity_name: e.map(|s| s.to_string()),
        room_name: r.map(|s| s.to_string()),
        metadata: Some(Metadata::Json("{}".into())),
    };
    let i = webhook(req(None, None), Uuid { bits: 1 });
    assert_eq!(i.entity.names, vec!["webhook"]);
    assert_eq!(i.entity.metadata.unwrap().to_json(), "{}");
    assert_eq!(i.room.name, Some("webhook-gh".to_string()));
    assert_eq!(i.room.source, "gh");
    assert_eq!(i.memory.content.source, Some("gh".to_string()));
    assert_ne!(i.memory.entity_id, i.memory.room_id);
    let i = webhook(req(Some("bot"), Some("r")), Uuid { bits: 1 });
    assert_eq!(i.entity.names, vec!["bot"]);
    assert_eq!(i.room.name, Some("r".to_string()));
}

#[test]
fn events_have_names() {
    let e = stream_event(&StreamEvent::Token("t".into()));
    assert_eq!((e.event.as_str(), e.data.as_str()), ("token", "t"));
    let e = stream_event(&StreamEvent::Done { full_text: "all".into() });
    assert_eq!((e.event.as_str(), e.data.as_str()), ("done", "all"));
    let e = stream_event(&StreamEvent::Error("bad".into()));
    assert_eq!((e.event.as_str(), e.data.as_str()), ("error", "bad"));
    let e = task_event(&CodingEvent::Workspace { branch: "b\"".into(), dir: "d".into() });
    assert_eq!((e.event.as_str(), e.data.as_str()), ("workspace", "{\"branch\":\"b\\\"\",\"dir\":\"d\"}"));
    let e = task_event(&CodingEvent::FileChanged { path: "p".into(), action: "added".into() });
    assert_eq!(e.event, "file-changed");
    assert_eq!(e.data, "{\"action\":\"added\",\"path\":\"p\"}");
    let e = task_event(&CodingEvent::Iteration(12));
    assert_eq!((e.event.as_str(), e.data.as_str()), ("iteration", "12"));
    assert_eq!(task_event(&CodingEvent::Status("s".into())).event, "status");
    assert_eq!(task_event(&CodingEvent::Thinking("s".into())).event, "thinking");
    assert_eq!(task_event(&CodingEvent::Tool("s".into())).event, "tool");
    assert_eq!(task_event(&CodingEvent::Output("s".into())).event, "output");
    assert_eq!(task_event(&CodingEvent::Done("s".into())).event, "done");
    assert_eq!(task_event(&CodingEvent::Error("s".into())).event, "error");
}

#[test]
fn the_project() {
    let home = Some("/home/a".to_string());
    assert_eq!(expand_home("~/x~", &home), "/home/a/x~");
    assert_eq!(expand_home("~/x", &None), "~/x");
    assert_eq!(expand_home("/x", &home), "/x");
    assert_eq!(set_project(&Ok("/p".into()), true).unwrap().path, Some("/p".to_string()));
    assert_eq!(
        refused(set_project(&Ok("/p".into()), false).unwrap_err()),
        (400, "path is not a directory".to_string())
    );
    assert_eq!(
        refused(set_project(&Err("gone".into()), true).unwrap_err()),
        (400, "invalid path: gone".to_string())
    );
    assert_eq!(refused(require_project(&None).unwrap_err()), (400, "no project set".to_string()));
    assert_eq!(
        refused(task_dir(&None).unwrap_err()),
        (400, "no project directory set — use /project <path> first".to_string())
    );
    assert_eq!(task_dir(&Some("/p".into())).unwrap(), "/p");
    let dir = vec!["/".to_string(), "p".into()];
    assert!(check_inside(&vec!["/".into(), "p".into(), "a".into()], &dir).is_ok());
    assert_eq!(
        refused(check_inside(&vec!["/".into(), "q".into()], &dir).unwrap_err()),
        (403, "outside project".to_string())
    );
    assert_eq!(refused(Refusal::internal("x")), (500, "x".to_string()));
}

#[test]
fn files_and_their_statuses() {
    let files = list_files("a\nb\nc\nd\n", " M a\n?? b\nR  d\n D a\n");
    let shown: Vec<(String, Option<String>)> =
        files.into_iter().map(|f| (f.path, f.status)).collect();
    let some = |s: &str| Some(s.to_string());
    assert_eq!(
        shown,
        vec![
            ("a".to_string(), some("deleted")),
            ("b".to_string(), some("added")),
            ("c".to_string(), None),
            ("d".to_string(), some("changed")),
        ]
    );
}
