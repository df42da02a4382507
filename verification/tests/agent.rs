use rustliza::bootstrap::{
    boredom_result, bootstrap_plugin, continued, extract_facts, fact_memory, fact_params,
    facts_params, facts_result, keep_facts, reflection_memory, reflection_params,
    relationships_result, time_result, time_told, ActionEffect, BuiltinAction, BuiltinEvaluator,
    BuiltinProvider,
};
use rustliza::chain::{
    find_action, hooks_allow, plan_from_entries, ActionChain, ActionSpec, PlanEntry, PlanRun,
};
use rustliza::character::{Character, MessageExample};
use rustliza::compose::{
    add_provided, compose_state, format_recent, recent_params, summary_params, Provided,
    ProviderResult,
};
use rustliza::error::RustlizaError;
use rustliza::chain::aborts;
use rustliza::compose::public_providers;
use rustliza::number::{POINT_1, POINT_2, POINT_3, POINT_5, POINT_7, POINT_95};
use rustliza::hooks::{HookAction, HookOutcome, HookPhase, HookRegistry, HookStep, PipelineHook};
use rustliza::ids::Uuid;
use rustliza::knowledge::{
    chunk_text, document_memory, embedding_error, fragment_params, index_fragments,
    knowledge_query, knowledge_result, merge_results, options_can_cut, vector_params, ChunkOptions,
    Ingestion, Pick,
};
use rustliza::metrics::{micros_in_64_bits, PipelineMetrics, Timer};
use rustliza::pipeline::{
    count_reply, count_task, evaluator_runs, generated_event, pump, response_memory, Event,
    Pipeline, Pump, Reply, StreamPipeline, StreamReply, StreamTask, Task,
};
use rustliza::planner::{ActionPlan, ActionPlanStep, PlanStepStatus};
use rustliza::respond::{
    brackets_ok, decides_to_respond, extract_actions, is_addressed, json_array_part, plan_params,
    responds_at_once, response_content, response_params, should_respond_params,
};
use rustliza::runtime::{AgentRuntime, AgentRuntimeBuilder, Plugin};
use rustliza::search::{is_stop_word, normalize, stem, tokenize};
use rustliza::session::{Session, SessionSummary};
use rustliza::summarize::{format_with_summary, should_summarize, split_for_summary, summarize_messages};
use rustliza::time::Timestamp;
use rustliza::types::{
    ActionResult, ChannelType, Content, Entity, Memory, MemoryType, ModelType, Relationship, Room,
    StreamEvent, Values,
};

fn at() -> Timestamp {
    Timestamp { secs: 1_700_000_000, nanos: 0 }
}

fn said(text: &str) -> Memory {
    Memory::message(
        Uuid { bits: 3 },
        at(),
        Uuid { bits: 1 },
        Uuid { bits: 2 },
        Uuid { bits: 4 },
        Content::text(text),
    )
}

// -- hooks ------------------------------------------------------------------

#[test]
fn hooks_run_by_priority() {
    let mut r = HookRegistry::new();
    r.register(PipelineHook::new("b", HookPhase::PreGenerate, 1).with_priority(5));
    r.register(PipelineHook::new("a", HookPhase::PreGenerate, 2).with_priority(-1));
    r.register(PipelineHook::new("x", HookPhase::PostGenerate, 3));
    r.register(PipelineHook::new("c", HookPhase::PreGenerate, 4).with_priority(5));
    let names: Vec<&str> =
        r.hooks_for_phase(HookPhase::PreGenerate).iter().map(|h| h.name.as_str()).collect();
    assert_eq!(names, vec!["a", "b", "c"]);
    assert_eq!(HookPhase::PreGenerate.name(), "pre_generate");
    let mut called = vec![];
    let mut step: HookStep<String> = r.begin(HookPhase::PreGenerate);
    loop {
        match step {
            HookStep::Call(i) => {
                called.push(r.handler_at(i));
                let a = if called.len() == 2 { HookAction::Skip } else { HookAction::Continue };
                step = r.resume(HookPhase::PreGenerate, i, HookOutcome::Action(a));
            }
            HookStep::Finish(o) => {
                assert!(matches!(o, HookOutcome::Action(HookAction::Skip)));
                break;
            }
        }
    }
    assert_eq!(called, vec![2, 1]);
    assert!(matches!(
        r.begin::<String>(HookPhase::PreAction),
        HookStep::Finish(HookOutcome::Action(HookAction::Continue))
    ));
    assert!(!hooks_allow::<String>(&HookOutcome::Action(HookAction::Abort)));
    assert!(hooks_allow::<String>(&HookOutcome::Failed("e".into())));
}

// -- metrics ----------------------------------------------------------------

#[test]
fn metrics_are_averages() {
    let mut m = PipelineMetrics::new();
    m.record_message();
    m.record_message();
    m.record_skip();
    m.record_compose(5_000);
    m.record_should_respond(3_000);
    m.record_generate(9_999);
    m.record_total(20_000);
    m.record_api_error();
    m.record_retry();
    let s = m.snapshot();
    assert_eq!((s.messages_processed, s.messages_skipped), (2, 1));
    assert_eq!((s.avg_compose_ms, s.avg_should_respond_ms), (2, 1));
    assert_eq!((s.avg_generate_ms, s.avg_total_ms), (4, 10));
    assert_eq!((s.api_errors, s.api_retries), (1, 1));
    assert_eq!(PipelineMetrics::new().snapshot().avg_total_ms, 0);
    assert_eq!(micros_in_64_bits((1u128 << 64) + 5), 5);
    let t = Timer::start();
    let a = t.elapsed_us();
    let b = t.elapsed_us();
    assert!(a <= b && b < 60_000_000);
}

// -- the pipeline -----------------------------------------------------------

#[test]
fn a_message_goes_through_all_tasks() {
    let mut p = Pipeline::new(true, 1);
    let events = vec![
        Event::Hooks { aborts: false },
        Event::Done,
        Event::Hooks { aborts: false },
        Event::Decided(true),
        Event::Hooks { aborts: true },
        Event::Hooks { aborts: false },
        Event::Generated { has_text: true, has_actions: true },
        Event::Hooks { aborts: false },
        Event::Done,
        Event::Failed,
        Event::Hooks { aborts: false },
        Event::Done,
        Event::Hooks { aborts: false },
        Event::Planned { has_steps: true },
        Event::Done,
    ];
    let mut tasks = vec![];
    for e in events {
        tasks.push(p.task);
        p.step(e);
    }
    assert_eq!(p.task, Task::Finish(Reply::Response));
    assert_eq!(tasks[6], Task::Generate);
    assert_eq!(tasks[9], Task::Embed);
    assert_eq!(tasks[14], Task::RunPlan);
}

#[test]
fn evaluators_do_not_stop_a_message() {
    let mut p = Pipeline::new(false, 0);
    p.task = Task::RunEvaluators;
    p.step(Event::Failed);
    assert!(matches!(p.task, Task::RunHooks(_)));
    p.step(Event::Hooks { aborts: true });
    assert_eq!(p.task, Task::Finish(Reply::Response));
}

#[test]
fn a_message_can_be_left_unanswered() {
    let mut p = Pipeline::new(false, 0);
    p.step(Event::Hooks { aborts: true });
    assert_eq!(p.task, Task::Finish(Reply::Silence));
    let mut p = Pipeline::new(false, 0);
    p.step(Event::Hooks { aborts: false });
    p.step(Event::Failed);
    assert_eq!(p.task, Task::Finish(Reply::Failure));
    let mut p = Pipeline::new(false, 0);
    p.step(Event::Hooks { aborts: false });
    p.step(Event::Done);
    p.step(Event::Hooks { aborts: false });
    p.step(Event::Decided(false));
    p.step(Event::Hooks { aborts: false });
    assert_eq!(p.task, Task::Finish(Reply::Skipped));
    let mut m = PipelineMetrics::new();
    count_reply(&mut m, Reply::Skipped, 7);
    count_task(&mut m, Task::StoreAndCompose, Event::Done, 1_000);
    assert_eq!(m.messages_skipped, 1);
    assert_eq!(m.compose_latency_us, 1_000);
}

#[test]
fn a_message_can_be_answered_in_pieces() {
    let mut p = StreamPipeline::new();
    let mut n = 0;
    while !matches!(p.task, StreamTask::Finish(_)) {
        let e = match p.task {
            StreamTask::RunHooks(_) => Event::Hooks { aborts: false },
            StreamTask::Decide => Event::Decided(true),
            _ => Event::Done,
        };
        p.step(e);
        n += 1;
        assert!(n < 20);
    }
    assert_eq!(p.task, StreamTask::Finish(StreamReply::Stream));
    assert!(matches!(pump(StreamEvent::Token("t".into())), Pump::Forward(_)));
    assert!(matches!(
        pump(StreamEvent::Done { full_text: "ok [RUN] ".into() }),
        Pump::Complete(s) if s == "ok"
    ));
    assert!(matches!(pump(StreamEvent::Error("e".into())), Pump::Stop(_)));
    let m = response_memory(Uuid { bits: 9 }, at(), Uuid { bits: 1 }, Uuid { bits: 4 }, Content::text("x"));
    assert_eq!(m.entity_id, m.agent_id);
    assert_eq!(
        generated_event(&Content::text_with_action("x", "RUN")),
        Event::Generated { has_text: true, has_actions: true }
    );
    assert!(evaluator_runs(true, None) && evaluator_runs(false, Some(true)));
    assert!(!evaluator_runs(false, Some(false)) && !evaluator_runs(false, None));
}

// -- actions and plans ------------------------------------------------------

fn actions() -> Vec<ActionSpec> {
    vec![
        ActionSpec { name: "RUN".into(), description: "d".into(), similes: vec!["GO".into()] },
        ActionSpec { name: "STAY".into(), description: "e".into(), similes: vec![] },
    ]
}

#[test]
fn chains_of_actions() {
    assert_eq!(find_action(&actions(), "go"), Some(0));
    assert_eq!(find_action(&actions(), "Stay"), Some(1));
    assert_eq!(find_action(&actions(), "FLY"), None);
    let mut c = ActionChain::new(vec!["FLY".into(), "GO".into(), "STAY".into(), "RUN".into()]);
    assert_eq!(c.next(&actions()), Some(0));
    assert!(c.note(Err(RustlizaError::Other("oops".into()))));
    assert_eq!(c.next(&actions()), Some(1));
    c.pass_over();
    assert_eq!(c.next(&actions()), Some(0));
    assert!(!c.note(Ok(ActionResult::ok("done"))));
    assert_eq!(c.next(&actions()), None);
    assert_eq!(c.results.len(), 2);
    assert_eq!(c.results[0].error, Some("oops".to_string()));
}

#[test]
fn plans_are_carried_out() {
    let entry = |a: &str| PlanEntry { action: a.into(), reasoning: Some("why".into()) };
    let plan = plan_from_entries(&vec![entry("RUN"), entry("FLY"), entry("STAY")], &actions());
    assert_eq!(plan.steps.len(), 2);
    let mut run = PlanRun::new(plan);
    assert_eq!(run.current(), Some("RUN".to_string()));
    let mut first = ActionResult::ok("a");
    first.continue_chain = true;
    assert!(run.note(vec![first, ActionResult::err("b")]));
    assert_eq!(run.current(), Some("STAY".to_string()));
    assert!(!run.note(vec![]));
    assert_eq!(run.current(), None);
    assert_eq!(run.results[1].text, Some("completed".to_string()));
    assert!(run.plan.is_complete());
    assert_eq!((run.plan.completed_count(), run.plan.failed_count()), (2, 0));
}

#[test]
fn steps_of_a_plan() {
    let mut p = ActionPlan::new();
    p.add_step(ActionPlanStep::new("A"));
    p.add_step(ActionPlanStep::new("B").with_reasoning("r"));
    assert_eq!(p.pending_steps().len(), 2);
    assert_eq!(p.next_step().unwrap().action, "A");
    p.mark_completed(0, ActionResult::err("e"));
    p.mark_completed(9, ActionResult::ok("x"));
    assert_eq!(p.steps[0].status, PlanStepStatus::Failed);
    assert_eq!(p.next_step().unwrap().reasoning, Some("r".to_string()));
    assert!(!p.is_complete());
    assert_eq!(p.failed_count(), 1);
}

// -- sessions ---------------------------------------------------------------

#[test]
fn sessions_last() {
    let mut s = Session::begin(Uuid { bits: 9 }, at(), Uuid { bits: 1 }, Uuid { bits: 2 }, Uuid { bits: 4 }, "cli");
    assert_eq!(
        s.session_key,
        format!("agent:{}:cli:{}", Uuid { bits: 1 }.to_text(), Uuid { bits: 2 }.to_text())
    );
    let later = Timestamp { secs: at().secs + 90, nanos: 0 };
    assert!(s.is_active());
    assert_eq!(s.duration_secs_at(later), 90);
    s.end_at(later);
    assert!(!s.is_active());
    assert_eq!(s.duration_secs_at(at()), 90);
    let mut t = Session::new(Uuid::nil(), Uuid::nil(), Uuid::nil(), "x");
    t.end();
    assert!(t.duration_secs() >= 0 && t.duration_secs() < 60);
    let sum = SessionSummary::new(s.id, "sum".into(), vec!["t".into()], 4);
    assert_eq!((sum.session_id, sum.message_count), (s.id, 4));
}

// -- composing --------------------------------------------------------------

#[test]
fn states_are_composed() {
    let mut c = Character::default();
    c.name = "Ada".into();
    c.bio = vec!["b1".into(), "b2".into()];
    c.system = Some("sys".into());
    c.message_examples = vec![vec![MessageExample { user: "u".into(), content: Content::text("x") }]];
    let entity = Entity {
        id: Uuid { bits: 2 },
        agent_id: Uuid { bits: 1 },
        names: vec!["Bob".into()],
        metadata: None,
        created_at: None,
    };
    let s = compose_state(&c, &said("hello"), Some(entity), None, vec![said("hello")], &None, &actions());
    let v = |n: &str| s.values.get(n).unwrap().clone();
    assert_eq!(v("agentName"), "Ada");
    assert_eq!(v("bio"), "b1 b2");
    assert_eq!(v("system"), "sys");
    assert_eq!(v("currentMessage"), "hello");
    assert_eq!(v("senderName"), "Bob");
    assert_eq!(v("actionNames"), "RUN, STAY");
    assert_eq!(v("messageExamples"), "u: x\n");
    assert!(v("recentMessages").ends_with(": hello"));
    let p = recent_params(Uuid { bits: 1 }, &said("x"));
    assert_eq!((p.count, p.room_id), (Some(20), Some(Uuid { bits: 4 })));
}

#[test]
fn providers_add_to_the_state() {
    let mut values = Values::new();
    values.insert("a".into(), "old".into());
    let mut first = ProviderResult::default();
    first.text = Some("one".into());
    first.values.insert("a".into(), "new".into());
    let mut second = ProviderResult::default();
    second.text = Some("two".into());
    add_provided(
        &mut values,
        vec![
            Provided { name: "p".into(), result: Some(first) },
            Provided { name: "q".into(), result: None },
            Provided { name: "r".into(), result: Some(second) },
        ],
    );
    assert_eq!(values.get("a").unwrap(), "new");
    let told = values.get("providers").unwrap();
    assert!(told.contains("one") && told.contains("two"));
}

#[test]
fn long_conversations_are_summarized() {
    let many: Vec<Memory> = (0..16).map(|i| said(&i.to_string())).collect();
    assert!(should_summarize(&many, 15) && !should_summarize(&many, 16));
    let (old, recent) = split_for_summary(&many, 8);
    assert_eq!((old.len(), recent.len()), (8, 8));
    assert!(summary_params(&many[..15], "Ada").is_none());
    assert!(summary_params(&many, "Ada").is_some());
    assert!(summarize_messages(&[], "Ada").is_none());
    let p = summarize_messages(&many[..1], "Ada").unwrap();
    assert!(p.prompt.ends_with("User(00000000): 0"));
    let text = format_with_summary("short", recent, "Ada");
    assert!(text.contains("short") && text.contains(": 15"));
    assert!(format_recent(&many, "Ada", &Some("gist".into())).contains("gist"));
    assert!(!format_recent(&many[..2], "Ada", &Some("gist".into())).contains("gist"));
}

// -- responding -------------------------------------------------------------

#[test]
fn whether_to_respond() {
    assert!(is_addressed(Some(ChannelType::Dm), &None, "ada"));
    assert!(!is_addressed(Some(ChannelType::Group), &Some("hi".into()), "ada"));
    assert!(is_addressed(Some(ChannelType::Group), &Some("hi ada".into()), "ada"));
    let room = Room {
        id: Uuid::nil(),
        agent_id: Uuid::nil(),
        source: "s".into(),
        channel_type: ChannelType::Group,
        name: None,
        channel_id: None,
        world_id: None,
        metadata: None,
        created_at: None,
    };
    assert!(responds_at_once(&Some(room), &Some("Hey ADA!".into()), "Ada"));
    assert!(decides_to_respond("i will respond"));
    assert!(!decides_to_respond("IGNORE"));
    let mut v = Values::new();
    v.insert("agentName".into(), "Ada".into());
    assert!(should_respond_params("Ada", &v).prompt.contains("Determine if Ada should respond"));
    assert!(response_params(&v).system_prompt.starts_with("You are Ada."));
    assert_eq!(response_params(&v).max_tokens, Some(2048));
    assert!(plan_params(&v).prompt.contains("action plan for Ada"));
}

#[test]
fn actions_in_responses() {
    let (text, actions) = extract_actions("[RESPOND] a [GO_ON] b [STOP][x] [IGNORE]");
    assert_eq!(actions, vec!["GO_ON"]);
    assert_eq!(text, "a  b [x]");
    let c = response_content("hi [RUN]");
    assert_eq!(c.text, Some("hi".to_string()));
    assert_eq!(c.actions, Some(vec!["RUN".to_string()]));
    assert!(response_content("hi").actions.is_none());
    assert_eq!(json_array_part("plan: [1, [2]] ok"), "[1, [2]]");
    assert_eq!(json_array_part("none"), "[]");
    assert!(brackets_ok("][", '[', ']') && !brackets_ok("]x[", '[', ']'));
}

// -- searching --------------------------------------------------------------

#[test]
fn words_are_normalized_and_stemmed() {
    assert_eq!(normalize("It's Café!"), "it's cafe\u{301}");
    assert!(is_stop_word("the") && !is_stop_word("rust"));
    assert_eq!(stem("running"), stem("runn"));
    assert_eq!(tokenize("Café, the CAFÉ!"), vec!["cafe\u{301}", "cafe\u{301}"]);
    assert!(tokenize("the a of").is_empty());
}

// -- knowledge --------------------------------------------------------------

#[test]
fn documents_are_cut() {
    let words: Vec<String> = (0..10).map(|i| format!("w{}", i)).collect();
    let text = words.join(" ");
    let o = ChunkOptions { chunk_size: 4, chunk_overlap: 1 };
    assert_eq!(chunk_text(&text, &o), vec!["w0 w1 w2 w3", "w3 w4 w5 w6", "w6 w7 w8 w9"]);
    assert_eq!(chunk_text(" a  b ", &o), vec![" a  b "]);
    assert!(!options_can_cut(&text, &ChunkOptions { chunk_size: 4, chunk_overlap: 4 }));
    assert!(options_can_cut("a", &ChunkOptions { chunk_size: 4, chunk_overlap: 4 }));
    assert_eq!(ChunkOptions::default(), ChunkOptions { chunk_size: 512, chunk_overlap: 64 });
}

#[test]
fn documents_are_ingested() {
    let doc = document_memory(Uuid { bits: 8 }, at(), Uuid { bits: 1 }, Uuid { bits: 4 }, "T", "é");
    assert_eq!(doc.memory_type, MemoryType::Document);
    assert_eq!(doc.metadata.unwrap().to_json(), "{\"title\":\"T\",\"total_length\":2,\"type\":\"document\"}");
    let o = ChunkOptions { chunk_size: 1, chunk_overlap: 0 };
    let mut i = Ingestion::begin(Uuid { bits: 8 }, Uuid { bits: 1 }, Uuid { bits: 4 }, "a b", &o);
    let mut n = 0;
    while let Some(chunk) = i.current() {
        assert_eq!(chunk, ["a", "b"][n]);
        let f = i.fragment(Uuid { bits: 100 + n as u128 }, at(), vec![7]);
        assert_eq!(f.embedding, Some(vec![7]));
        i.stored(f.id);
        n += 1;
    }
    assert_eq!(i.fragment_ids, vec![Uuid { bits: 100 }, Uuid { bits: 101 }]);
    assert_eq!(
        embedding_error(&RustlizaError::Other("x".into())).message(),
        "embedding generation failed: x"
    );
}

#[test]
fn knowledge_is_found() {
    let p = vector_params(vec![1], Uuid { bits: 1 }, 5);
    assert_eq!((p.match_count, p.memory_type), (10, Some(MemoryType::Fragment)));
    assert_eq!(fragment_params(Uuid { bits: 1 }).memory_type, Some(MemoryType::Fragment));
    let index = index_fragments(&vec![said("rust systems"), said("python")]);
    assert_eq!(index.document_count(), 2);
    let id = |n: u128| Uuid { bits: n };
    assert_eq!(
        merge_results(&vec![id(1), id(2)], &vec![id(3), id(2), id(4)], &vec![1, 0, 2], 3),
        vec![Pick::Vector(0), Pick::Vector(1), Pick::Fragment(0)]
    );
    assert_eq!(knowledge_query(&said("")), None);
    assert_eq!(knowledge_query(&said("q")), Some("q".to_string()));
    assert!(knowledge_result(&vec![]).text.is_none());
    assert!(knowledge_result(&vec![said("x"), said("y")]).text.unwrap().starts_with("Relevant knowledge:\n"));
}

// -- what every agent has ---------------------------------------------------

#[test]
fn built_in_actions() {
    let p: Plugin<BuiltinAction, BuiltinEvaluator, BuiltinProvider, ()> = bootstrap_plugin();
    let names: Vec<&str> = p.actions.iter().map(|a| a.name()).collect();
    assert_eq!(
        names,
        vec!["CONTINUE", "IGNORE", "FOLLOW_ROOM", "UNFOLLOW_ROOM", "MUTE_ROOM", "UNMUTE_ROOM", "NONE"]
    );
    assert_eq!(p.actions[0].similes(), vec!["ELABORATE", "GO_ON", "KEEP_TALKING"]);
    assert_eq!((p.actions[0].priority(), p.actions[6].priority()), (-1, -100));
    assert!(!BuiltinAction::MuteRoom.validate(false) && BuiltinAction::Ignore.validate(false));
    let mut v = Values::new();
    v.insert("recentMessages".into(), "hi".into());
    let room = Uuid { bits: 4 };
    match BuiltinAction::FollowRoom.handler("Ada", &v, room, &at()) {
        ActionEffect::SetCache { key, value, result } => {
            assert_eq!(key, format!("room_follow:{}", room.to_text()));
            assert_eq!(value, "{\"following\":true,\"since\":\"2023-11-14T22:13:20+00:00\"}");
            assert_eq!(result.text, Some("Now following this room".to_string()));
        }
        _ => panic!(),
    }
    match BuiltinAction::UnmuteRoom.handler("Ada", &v, room, &at()) {
        ActionEffect::DeleteCache { key, .. } => {
            assert_eq!(key, format!("room_muted:{}", room.to_text()));
        }
        _ => panic!(),
    }
    match BuiltinAction::Continue.handler("Ada", &v, room, &at()) {
        ActionEffect::Generate(g) => {
            assert_eq!(
                g.prompt,
                "Continue the conversation. Recent context:\nhi\n\nContinue naturally as Ada."
            );
            assert_eq!(g.model_type, ModelType::TextLarge);
        }
        _ => panic!(),
    }
    let (m, r) = continued("more", Uuid { bits: 1 }, room);
    assert_eq!(m.entity_id, Uuid { bits: 1 });
    assert_eq!(r.text, Some("more".to_string()));
}

#[test]
fn built_in_evaluators() {
    assert!(BuiltinEvaluator::FactExtraction.always_run());
    assert!(BuiltinEvaluator::Reflection.validate(20));
    assert!(!BuiltinEvaluator::Reflection.validate(0) && !BuiltinEvaluator::Reflection.validate(15));
    let v = Values::new();
    assert!(fact_params(&said("too short"), &v).is_none());
    let p = fact_params(&said("I was born in Paris, France."), &v).unwrap();
    assert!(p.prompt.contains("Message from User: I was born in Paris, France.\n\n"));
    assert_eq!(
        extract_facts("Sure: [\"born in Paris\", \"x\", \"likes \\\"tea\\\"\"] ok"),
        vec!["born in Paris", "likes \"tea\""]
    );
    assert!(extract_facts("nothing").is_empty());
    assert!(extract_facts("[1, 2]").is_empty());
    assert_eq!(keep_facts(vec!["abcd".into(), "abcde".into()]), vec!["abcde"]);
    let m = fact_memory("fact", Uuid { bits: 1 }, &said("x"));
    assert_eq!(m.memory_type, MemoryType::Description);
    assert_eq!(
        m.metadata.unwrap().to_json(),
        format!("{{\"source_message\":\"{}\",\"type\":\"fact\"}}", Uuid { bits: 3 }.to_text())
    );
    assert!(reflection_params("Ada", &v).prompt.starts_with("Reflect on the recent conversation as Ada."));
    assert_eq!(reflection_memory("r", Uuid { bits: 1 }, &said("x")).entity_id, Uuid { bits: 1 });
}

#[test]
fn built_in_providers() {
    let t = time_result(&at());
    assert_eq!(t.text, Some("Current time: 2023-11-14 22:13:20 (UTC)".to_string()));
    assert_eq!(t.values.get("currentTime").unwrap(), "2023-11-14T22:13:20+00:00");
    assert_eq!(time_told("w", "r".into()).text, Some("Current time: w (UTC)".to_string()));
    assert_eq!(facts_params(Uuid { bits: 1 }, &said("x")).count, Some(10));
    assert!(facts_result(&vec![]).text.is_none());
    assert_eq!(facts_result(&vec![said("a"), said("b")]).text.unwrap(), "Known facts:\n- a\n- b");
    let rel = |tags: Vec<String>| Relationship {
        id: Uuid::nil(),
        source_entity_id: Uuid::nil(),
        target_entity_id: Uuid { bits: 5 },
        agent_id: Uuid::nil(),
        tags,
        metadata: None,
        created_at: None,
    };
    let text = relationships_result(&vec![rel(vec![]), rel(vec!["x".into(), "y".into()])]).text.unwrap();
    let id = Uuid { bits: 5 }.to_text();
    assert_eq!(
        text,
        format!("Relationships:\n- Relationship with {}: tags=[none]\n- Relationship with {}: tags=[x, y]", id, id)
    );
    for (n, level) in [(5, "high"), (6, "moderate"), (20, "moderate"), (21, "settling"), (50, "settling"), (51, "low")] {
        let r = boredom_result(n);
        assert_eq!(r.values.get("engagementLevel").unwrap(), level);
        assert_eq!(r.values.get("messageCount").unwrap(), &n.to_string());
    }
    assert_eq!(BuiltinProvider::Time.position(), -100);
    assert_eq!(BuiltinProvider::Boredom.name(), "boredom");
}

// -- the runtime ------------------------------------------------------------

#[test]
fn runtimes_are_built() {
    let empty: AgentRuntimeBuilder<u8, u8, u8, u8, u8, u8> = AgentRuntime::builder();
    assert!(empty.build().is_err());
    let mut plugin: Plugin<u8, u8, u8, u8> = Plugin::new("p", "d");
    plugin.actions.push(7);
    plugin.services.push(8);
    let b: AgentRuntimeBuilder<u8, u8, u8, u8, u8, u8> = AgentRuntime::builder();
    let rt = b
        .agent_id(Uuid { bits: 1 })
        .database(1)
        .model_provider(2)
        .plugin(plugin)
        .action(3)
        .service(4)
        .hook(PipelineHook::new("h", HookPhase::PreAction, 0))
        .enable_action_planning()
        .build()
        .unwrap();
    assert_eq!(rt.character.name, "Eliza");
    assert!(rt.actions.contains(&3) && rt.actions.contains(&7));
    assert_eq!(rt.services().len(), 2);
    assert_eq!(rt.hooks().hooks_for_phase(HookPhase::PreAction).len(), 1);
    assert!(rt.action_planning_enabled);
    assert_eq!(rt.metrics().messages_processed, 0);
}

#[test]
fn answers_and_skips_are_counted() {
    let mut m = PipelineMetrics::new();
    for (reply, us) in [
        (Reply::Response, 5u64),
        (Reply::Silence, 7),
        (Reply::Skipped, 9),
        (Reply::Failure, 11),
        (Reply::Response, 15),
    ] {
        count_reply(&mut m, reply, us);
    }
    assert_eq!(m.messages_processed, 2);
    assert_eq!(m.messages_skipped, 1);
    assert_eq!(m.total_latency_us, 20);
}

#[test]
fn tags_are_taken_out_of_a_response() {
    let (text, actions) = extract_actions(" a [SEARCH_WEB] b ");
    assert_eq!(text, "a  b");
    assert_eq!(actions, vec!["SEARCH_WEB".to_string()]);
    let (text, actions) = extract_actions("[IGNORE][A][lower] [A1]");
    assert_eq!(text, "[lower] [A1]");
    assert_eq!(actions, vec!["A".to_string()]);
    let (text, actions) = extract_actions("[A[B]]");
    assert_eq!(text, "[A]");
    assert_eq!(actions, vec!["B".to_string()]);
}

#[test]
fn tokens_on_both_sides_of_a_space() {
    for (a, b) in [("Running dogs", "the ΟΔΟΣ"), ("ΟΔΟΣ", "Σ x1"), ("e\u{301}", "\u{301}b ab"), ("", "ab")] {
        let mut apart = tokenize(a);
        apart.extend(tokenize(b));
        assert_eq!(tokenize(&format!("{} {}", a, b)), apart);
        assert!(apart.iter().all(|t| t.len() >= 2));
    }
    assert_eq!(tokenize("BIG Red, dogs' RUN!"), tokenize("big red, dogs' run!"));
    assert_eq!(normalize("A-b C_d'E"), "ab cd'e");
}

#[test]
fn hooks_that_abort() {
    assert!(aborts::<u8>(&HookOutcome::Action(HookAction::Abort)));
    assert!(!aborts::<u8>(&HookOutcome::Action(HookAction::Skip)));
    assert!(!aborts::<u8>(&HookOutcome::Action(HookAction::Continue)));
    assert!(!aborts(&HookOutcome::Failed(1u8)));
}

#[test]
fn private_providers_are_left_out() {
    assert_eq!(public_providers(&vec![false, true, false]), vec![0, 2]);
    assert!(public_providers(&vec![true]).is_empty());
}

#[test]
fn an_agent_without_a_character_has_the_default_one() {
    let c = rustliza::character::Character::default();
    assert_eq!(c.bio, vec!["A helpful AI assistant.".to_string()]);
    assert!(c.settings.model.is_none() && c.settings.enable_autonomy.is_none());
}

#[test]
fn the_first_and_the_last_second_of_the_calendar() {
    let first = Timestamp { secs: -8_334_601_228_800, nanos: 0 };
    let last = Timestamp { secs: 8_210_266_876_799, nanos: 0 };
    assert!(first.is_valid() && last.is_valid());
    assert!(!(Timestamp { secs: -8_334_601_228_801, nanos: 0 }).is_valid());
    assert!(!(Timestamp { secs: 8_210_266_876_800, nanos: 0 }).is_valid());
    assert_eq!(first.to_rfc3339(), "-262143-01-01T00:00:00+00:00");
    assert_eq!(last.to_rfc3339(), "+262142-12-31T23:59:59+00:00");
}

#[test]
fn numbers_by_their_bits() {
    let bits = [POINT_1, POINT_2, POINT_3, POINT_5, POINT_7, POINT_95];
    for (b, x) in bits.iter().zip([0.1f32, 0.2, 0.3, 0.5, 0.7, 0.95]) {
        assert_eq!(*b, x.to_bits());
    }
}
