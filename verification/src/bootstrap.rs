//! The actions, evaluators and providers that every agent has.
use vstd::prelude::*;

use crate::bytes;
use crate::compose::ProviderResult;
use crate::error;
use crate::ids;
use crate::ids::{AgentId, RoomId, Uuid};
use crate::knowledge;
use crate::lines;
use crate::number;
use crate::outside;
use crate::passages;
use crate::respond;
use crate::runtime::Plugin;
use crate::text;
use crate::time;
use crate::time::Timestamp;
use crate::types;
use crate::types::{
    ActionResult, Content, GenerateTextParams, GetMemoriesParams, Memory, MemoryType, Metadata,
    ModelType, Relationship, Values,
};

verus! {

// ---------------------------------------------------------------------------
// Actions
// ---------------------------------------------------------------------------

/// The actions that every agent has.
#[derive(Clone, Copy, Debug, PartialEq, Eq, Structural)]
pub enum BuiltinAction {
    Continue,
    Ignore,
    FollowRoom,
    UnfollowRoom,
    MuteRoom,
    UnmuteRoom,
    NoAction,
}

/// What an action does.
pub enum ActionEffect {
    /// Ask the model, and take its answer as a message to the room.
    Generate(GenerateTextParams),
    /// Note a value, given as JSON text, under a key.
    SetCache { key: String, value: String, result: ActionResult },
    /// Drop the value of a key.
    DeleteCache { key: String, result: ActionResult },
    /// Nothing but this result.
    Answer(ActionResult),
}

/// The key under which it is noted that a room is followed.
pub open spec fn follow_key(room_id: RoomId) -> Seq<char> {
    "room_follow:"@ + room_id.text()
}

/// The key under which it is noted that a room is muted.
pub open spec fn mute_key(room_id: RoomId) -> Seq<char> {
    "room_muted:"@ + room_id.text()
}

/// The JSON text that notes a state and since when it holds.
pub open spec fn state_since(state: Seq<char>, at: Timestamp) -> Seq<char> {
    "{\""@ + state + "\":true,\"since\":"@ + outside::json_string(at.text()) + "}"@
}

/// The JSON text that notes a state and since when it holds.
fn since_json(state: &str, at: &Timestamp) -> (r: String)
    requires
        at.valid(),
    ensures
        r@ == state_since(state@, *at),
{
    let mut out = error::prefixed("{\"", state);
    out.append("\":true,\"since\":");
    out.append(outside::json_write_string(at.to_rfc3339().as_str()).as_str());
    out.append("}");
    out
}

/// The prompt that asks for the continuation of a conversation.
pub open spec fn continue_prompt(recent: Seq<char>, name: Seq<char>) -> Seq<char> {
    "Continue the conversation. Recent context:\n"@ + recent + "\n\nContinue naturally as "@ + name
        + "."@
}

impl BuiltinAction {
    /// The name of the action.
    pub open spec fn called(self) -> Seq<char> {
        match self {
            BuiltinAction::Continue => "CONTINUE"@,
            BuiltinAction::Ignore => "IGNORE"@,
            BuiltinAction::FollowRoom => "FOLLOW_ROOM"@,
            BuiltinAction::UnfollowRoom => "UNFOLLOW_ROOM"@,
            BuiltinAction::MuteRoom => "MUTE_ROOM"@,
            BuiltinAction::UnmuteRoom => "UNMUTE_ROOM"@,
            BuiltinAction::NoAction => "NONE"@,
        }
    }

    pub fn name(&self) -> (r: &'static str)
        ensures
            r@ == self.called(),
    {
        match self {
            BuiltinAction::Continue => "CONTINUE",
            BuiltinAction::Ignore => "IGNORE",
            BuiltinAction::FollowRoom => "FOLLOW_ROOM",
            BuiltinAction::UnfollowRoom => "UNFOLLOW_ROOM",
            BuiltinAction::MuteRoom => "MUTE_ROOM",
            BuiltinAction::UnmuteRoom => "UNMUTE_ROOM",
            BuiltinAction::NoAction => "NONE",
        }
    }

    /// What the model is told of the action.
    pub open spec fn described(self) -> Seq<char> {
        match self {
            BuiltinAction::Continue =>
                "Continue the conversation naturally, responding to the most recent message"@,
            BuiltinAction::Ignore => "Ignore the message and do not respond"@,
            BuiltinAction::FollowRoom =>
                "Start actively following a room, responding to messages more frequently"@,
            BuiltinAction::UnfollowRoom => "Stop actively following a room"@,
            BuiltinAction::MuteRoom => "Mute a room to stop receiving or responding to messages"@,
            BuiltinAction::UnmuteRoom => "Unmute a room to resume responding to messages"@,
            BuiltinAction::NoAction => "No action needed — respond with just a message"@,
        }
    }

    pub fn description(&self) -> (r: &'static str)
        ensures
            r@ == self.described(),
    {
        match self {
            BuiltinAction::Continue =>
                "Continue the conversation naturally, responding to the most recent message",
            BuiltinAction::Ignore => "Ignore the message and do not respond",
            BuiltinAction::FollowRoom =>
                "Start actively following a room, responding to messages more frequently",
            BuiltinAction::UnfollowRoom => "Stop actively following a room",
            BuiltinAction::MuteRoom => "Mute a room to stop receiving or responding to messages",
            BuiltinAction::UnmuteRoom => "Unmute a room to resume responding to messages",
            BuiltinAction::NoAction => "No action needed — respond with just a message",
        }
    }

    /// Further names of the action.
    pub open spec fn also_called(self) -> Seq<Seq<char>> {
        match self {
            BuiltinAction::Continue => seq!["ELABORATE"@, "GO_ON"@, "KEEP_TALKING"@],
            BuiltinAction::Ignore => seq!["SKIP"@, "PASS"@],
            _ => Seq::empty(),
        }
    }

    pub fn similes(&self) -> (r: Vec<String>)
        ensures
            text::texts(r@) == self.also_called(),
    {
        let mut r: Vec<String> = Vec::new();
        match self {
            BuiltinAction::Continue => {
                r.push("ELABORATE".to_owned());
                r.push("GO_ON".to_owned());
                r.push("KEEP_TALKING".to_owned());
            },
            BuiltinAction::Ignore => {
                r.push("SKIP".to_owned());
                r.push("PASS".to_owned());
            },
            _ => {},
        }
        assert(text::texts(r@) =~= self.also_called());
        r
    }

    pub fn priority(&self) -> (r: i32)
        ensures
            r == (match *self {
                BuiltinAction::Continue => -1int,
                BuiltinAction::NoAction => -100int,
                _ => 0int,
            }),
    {
        match self {
            BuiltinAction::Continue => -1,
            BuiltinAction::NoAction => -100,
            _ => 0,
        }
    }

    /// The action is about a room.
    pub open spec fn needs_room(self) -> bool {
        match self {
            BuiltinAction::FollowRoom | BuiltinAction::UnfollowRoom | BuiltinAction::MuteRoom
            | BuiltinAction::UnmuteRoom => true,
            _ => false,
        }
    }

    /// Whether the action can be taken: one about a room where the room is known.
    pub fn validate(&self, has_room: bool) -> (r: bool)
        ensures
            r == (self.needs_room() ==> has_room),
    {
        match self {
            BuiltinAction::FollowRoom | BuiltinAction::UnfollowRoom | BuiltinAction::MuteRoom
            | BuiltinAction::UnmuteRoom => has_room,
            _ => true,
        }
    }

    /// What the action does.
    pub open spec fn does(
        self,
        name: Seq<char>,
        values: Map<Seq<char>, Seq<char>>,
        room_id: RoomId,
        at: Timestamp,
        e: ActionEffect,
    ) -> bool {
        match self {
            BuiltinAction::Continue => e is Generate && e->Generate_0.asks(
                ModelType::TextLarge,
                "You are "@ + name + ". Continue the conversation naturally."@,
                continue_prompt(types::value_or_empty(values, "recentMessages"@), name),
                1024,
                number::POINT_7,
            ),
            BuiltinAction::Ignore => e is Answer && e->Answer_0.is_ok("Message ignored"@),
            BuiltinAction::FollowRoom => e is SetCache && e->SetCache_key@ == follow_key(room_id)
                && e->value@ == state_since("following"@, at) && e->SetCache_result.is_ok(
                "Now following this room"@,
            ),
            BuiltinAction::UnfollowRoom => e is DeleteCache && e->DeleteCache_key@ == follow_key(
                room_id,
            ) && e->DeleteCache_result.is_ok("Stopped following this room"@),
            BuiltinAction::MuteRoom => e is SetCache && e->SetCache_key@ == mute_key(room_id)
                && e->value@ == state_since("muted"@, at) && e->SetCache_result.is_ok(
                "Room muted"@,
            ),
            BuiltinAction::UnmuteRoom => e is DeleteCache && e->DeleteCache_key@ == mute_key(
                room_id,
            ) && e->DeleteCache_result.is_ok("Room unmuted"@),
            BuiltinAction::NoAction => e is Answer && e->Answer_0.is_ok("No action taken"@),
        }
    }

    /// What the action does at a given time.
    pub fn handler(
        &self,
        agent_name: &str,
        values: &Values,
        room_id: RoomId,
        at: &Timestamp,
    ) -> (r: ActionEffect)
        requires
            at.valid(),
        ensures
            self.does(agent_name@, values@, room_id, *at, r),
    {
        match self {
            BuiltinAction::Continue => {
                let mut system = error::prefixed("You are ", agent_name);
                system.append(". Continue the conversation naturally.");
                let mut prompt = "Continue the conversation. Recent context:\n".to_owned();
                prompt.append(values.get_or_empty("recentMessages").as_str());
                prompt.append("\n\nContinue naturally as ");
                prompt.append(agent_name);
                prompt.append(".");
                ActionEffect::Generate(
                    GenerateTextParams::new(ModelType::TextLarge, system, prompt, 1024, number::POINT_7),
                )
            },
            BuiltinAction::Ignore => ActionEffect::Answer(ActionResult::ok("Message ignored")),
            BuiltinAction::FollowRoom => ActionEffect::SetCache {
                key: error::prefixed("room_follow:", room_id.to_text().as_str()),
                value: since_json("following", at),
                result: ActionResult::ok("Now following this room"),
            },
            BuiltinAction::UnfollowRoom => ActionEffect::DeleteCache {
                key: error::prefixed("room_follow:", room_id.to_text().as_str()),
                result: ActionResult::ok("Stopped following this room"),
            },
            BuiltinAction::MuteRoom => ActionEffect::SetCache {
                key: error::prefixed("room_muted:", room_id.to_text().as_str()),
                value: since_json("muted", at),
                result: ActionResult::ok("Room muted"),
            },
            BuiltinAction::UnmuteRoom => ActionEffect::DeleteCache {
                key: error::prefixed("room_muted:", room_id.to_text().as_str()),
                result: ActionResult::ok("Room unmuted"),
            },
            BuiltinAction::NoAction => ActionEffect::Answer(ActionResult::ok("No action taken")),
        }
    }
}

/// A continuation comes to this message of the agent to the room, and to this
/// result of the action.
pub open spec fn continues(
    continuation: Seq<char>,
    agent_id: AgentId,
    room_id: RoomId,
    m: Memory,
    result: ActionResult,
) -> bool {
    &&& m.created_at is Some
    &&& m.created_at.unwrap().valid()
    &&& ids::is_v4(m.id.bits as nat)
    &&& m.is_message(m.id, m.created_at.unwrap(), agent_id, agent_id, room_id)
    &&& m.content.is(Some(continuation), None, None)
    &&& result.is_ok(continuation)
}

/// What a continuation comes to: a message of the agent to the room, and the
/// result of the action.
pub fn continued(
    continuation: &str,
    agent_id: AgentId,
    room_id: RoomId,
) -> (r: (Memory, ActionResult))
    ensures
        continues(continuation@, agent_id, room_id, r.0, r.1),
{
    (
        Memory::new_message(agent_id, agent_id, room_id, Content::text(continuation)),
        ActionResult::ok(continuation),
    )
}

/// What following a room notes, unfollowing it drops, and likewise for muting;
/// what one of the pairs notes, the other does not touch.
pub proof fn room_actions_are_paired(
    name: Seq<char>,
    values: Map<Seq<char>, Seq<char>>,
    room_id: RoomId,
    at: Timestamp,
    follow: ActionEffect,
    unfollow: ActionEffect,
    mute: ActionEffect,
    unmute: ActionEffect,
)
    requires
        BuiltinAction::FollowRoom.does(name, values, room_id, at, follow),
        BuiltinAction::UnfollowRoom.does(name, values, room_id, at, unfollow),
        BuiltinAction::MuteRoom.does(name, values, room_id, at, mute),
        BuiltinAction::UnmuteRoom.does(name, values, room_id, at, unmute),
    ensures
        follow->SetCache_key@ == unfollow->DeleteCache_key@,
        mute->SetCache_key@ == unmute->DeleteCache_key@,
        follow->SetCache_key@ != mute->SetCache_key@,
{
    reveal_strlit("room_follow:");
    reveal_strlit("room_muted:");
    assert(follow_key(room_id)[5] == 'f');
    assert(mute_key(room_id)[5] == 'm');
}

// ---------------------------------------------------------------------------
// Evaluators
// ---------------------------------------------------------------------------

/// The evaluators that every agent has.
#[derive(Clone, Copy, Debug, PartialEq, Eq, Structural)]
pub enum BuiltinEvaluator {
    FactExtraction,
    Reflection,
}

impl BuiltinEvaluator {
    pub fn name(&self) -> (r: &'static str)
        ensures
            r@ == (match *self {
                BuiltinEvaluator::FactExtraction => "fact_extraction"@,
                BuiltinEvaluator::Reflection => "reflection"@,
            }),
    {
        match self {
            BuiltinEvaluator::FactExtraction => "fact_extraction",
            BuiltinEvaluator::Reflection => "reflection",
        }
    }

    pub fn description(&self) -> (r: &'static str)
        ensures
            r@ == (match *self {
                BuiltinEvaluator::FactExtraction =>
                    "Extract factual information from conversations and store as memories"@,
                BuiltinEvaluator::Reflection =>
                    "Periodically reflect on conversations to generate insights"@,
            }),
    {
        match self {
            BuiltinEvaluator::FactExtraction =>
                "Extract factual information from conversations and store as memories",
            BuiltinEvaluator::Reflection =>
                "Periodically reflect on conversations to generate insights",
        }
    }

    pub fn always_run(&self) -> (r: bool)
        ensures
            r == (*self == BuiltinEvaluator::FactExtraction),
    {
        match self {
            BuiltinEvaluator::FactExtraction => true,
            BuiltinEvaluator::Reflection => false,
        }
    }

    /// Whether the evaluator runs in a room with so many messages: facts are
    /// always extracted, and every tenth message brings a reflection.
    pub fn validate(&self, count: usize) -> (r: bool)
        ensures
            r == (match *self {
                BuiltinEvaluator::FactExtraction => true,
                BuiltinEvaluator::Reflection => count > 0 && count % 10 == 0,
            }),
    {
        match self {
            BuiltinEvaluator::FactExtraction => true,
            BuiltinEvaluator::Reflection => count > 0 && count % 10 == 0,
        }
    }
}

/// The prompt that asks for the facts in a message.
pub open spec fn fact_prompt(sender: Seq<char>, message: Seq<char>) -> Seq<char> {
    "Extract any factual statements or important information from this message. Only extract clear, definitive facts — not opinions or questions.\n\nMessage from "@
        + sender + ": "@ + message
        + "\n\nRespond with a JSON array of fact strings. If no facts, respond with []."@
}

/// Who sent the message, by the state's values.
pub open spec fn fact_sender(values: Map<Seq<char>, Seq<char>>) -> Seq<char> {
    if values.contains_key("senderName"@) {
        values["senderName"@]
    } else {
        "User"@
    }
}

/// The model is asked this about the facts in a message; nothing about a short one.
pub open spec fn asks_for_facts(
    message: Memory,
    values: Map<Seq<char>, Seq<char>>,
    r: Option<GenerateTextParams>,
) -> bool {
    let said = text::text_or_empty(message.content.text);
    match r {
        None => bytes::byte_len(said) < 20,
        Some(p) => bytes::byte_len(said) >= 20 && p.asks(
            ModelType::TextSmall,
            "You are a fact extraction engine. Respond ONLY with a JSON array of strings."@,
            fact_prompt(fact_sender(values), said),
            256,
            number::POINT_1,
        ),
    }
}

/// What the model is asked about the facts in a message; nothing about a short
/// one.
pub fn fact_params(message: &Memory, values: &Values) -> (r: Option<GenerateTextParams>)
    ensures
        asks_for_facts(*message, values@, r),
{
    let said = match &message.content.text {
        Some(t) => t.clone(),
        None => {
            let s = String::new();
            assert(s@ =~= Seq::<char>::empty());
            s
        },
    };
    assert(said@ == text::text_or_empty(message.content.text));
    if bytes::len(said.as_str()) < 20 {
        return None;
    }
    let mut prompt =
        "Extract any factual statements or important information from this message. Only extract clear, definitive facts — not opinions or questions.\n\nMessage from ".to_owned();
    match values.get("senderName") {
        Some(name) => prompt.append(name.as_str()),
        None => prompt.append("User"),
    }
    prompt.append(": ");
    prompt.append(said.as_str());
    prompt.append("\n\nRespond with a JSON array of fact strings. If no facts, respond with [].");
    Some(
        GenerateTextParams::new(
            ModelType::TextSmall,
            "You are a fact extraction engine. Respond ONLY with a JSON array of strings.".to_owned(),
            prompt,
            256,
            number::POINT_1,
        ),
    )
}

/// The facts worth keeping: those of five bytes or more.
pub open spec fn kept_facts(facts: Seq<Seq<char>>) -> Seq<Seq<char>> {
    facts.filter(|f: Seq<char>| bytes::byte_len(f) >= 5)
}

/// The facts worth keeping.
pub fn keep_facts(facts: Vec<String>) -> (r: Vec<String>)
    ensures
        text::texts(r@) == kept_facts(text::texts(facts@)),
{
    let ghost all = text::texts(facts@);
    let ghost p = |f: Seq<char>| bytes::byte_len(f) >= 5;
    let mut out: Vec<String> = Vec::new();
    let mut i: usize = 0;
    proof {
        reveal(Seq::filter);
        assert(all.take(0).filter(p) =~= Seq::<Seq<char>>::empty());
        assert(text::texts(out@) =~= all.take(0).filter(p));
    }
    while i < facts.len()
        invariant
            i <= facts@.len() == all.len(),
            all == text::texts(facts@),
            p == (|f: Seq<char>| bytes::byte_len(f) >= 5),
            text::texts(out@) == all.take(i as int).filter(p),
        decreases facts.len() - i,
    {
        proof {
            reveal(Seq::filter);
            assert(all.take(i + 1).drop_last() =~= all.take(i as int));
            assert(all[i as int] == facts@[i as int]@);
        }
        if bytes::len(facts[i].as_str()) >= 5 {
            let ghost before = out@;
            out.push(facts[i].clone());
            assert(text::texts(out@) =~= text::texts(before).push(all[i as int]));
        }
        i = i + 1;
    }
    assert(all.take(all.len() as int) =~= all);
    out
}

/// The facts in a model's answer: those worth keeping of the JSON array that it
/// holds; none where it holds none.
pub open spec fn facts_in(response: Seq<char>) -> Seq<Seq<char>> {
    match respond::bracketed(response, '[', ']') {
        Some(part) => match outside::json_list_parsed(part) {
            Some(list) => kept_facts(list),
            None => Seq::empty(),
        },
        None => Seq::empty(),
    }
}

/// The facts in a model's answer.
pub fn extract_facts(response: &str) -> (r: Vec<String>)
    requires
        respond::brackets_in_order(response@, '[', ']'),
    ensures
        text::texts(r@) == facts_in(response@),
{
    let none: Vec<String> = Vec::new();
    assert(text::texts(none@) =~= Seq::empty());
    match respond::bracketed_part(response, '[', ']') {
        Some(part) => match outside::json_parse_list(part.as_str()) {
            Some(list) => keep_facts(list),
            None => none,
        },
        None => none,
    }
}

/// The memory describes something: it has a random identifier and the current
/// time, and belongs to the message's room and world.
pub open spec fn describes(
    m: Memory,
    said: Seq<char>,
    entity_id: Uuid,
    agent_id: AgentId,
    message: Memory,
    metadata: Metadata,
) -> bool {
    &&& ids::is_v4(m.id.bits as nat)
    &&& m.content.is(Some(said), None, None)
    &&& m.entity_id == entity_id
    &&& m.agent_id == agent_id
    &&& m.room_id == message.room_id
    &&& m.world_id == message.world_id
    &&& m.unique
    &&& m.created_at is Some
    &&& m.created_at.unwrap().valid()
    &&& m.embedding is None
    &&& m.metadata == Some(metadata)
    &&& m.memory_type == MemoryType::Description
}

/// A memory that describes something.
fn description_memory(
    said: &str,
    entity_id: Uuid,
    agent_id: AgentId,
    message: &Memory,
    metadata: Metadata,
) -> (r: Memory)
    ensures
        describes(r, said@, entity_id, agent_id, *message, metadata),
{
    Memory {
        id: Uuid::new_v4(),
        content: Content::text(said),
        entity_id,
        agent_id,
        room_id: message.room_id,
        world_id: message.world_id,
        unique: true,
        created_at: Some(time::now()),
        embedding: None,
        metadata: Some(metadata),
        memory_type: MemoryType::Description,
    }
}

/// The memory is that of a fact that a message tells.
pub open spec fn is_fact_of(m: Memory, fact: Seq<char>, agent_id: AgentId, message: Memory) -> bool {
    describes(
        m,
        fact,
        message.entity_id,
        agent_id,
        message,
        Metadata::Fact { source_message: message.id },
    )
}

/// The memory of a fact that a message tells.
pub fn fact_memory(fact: &str, agent_id: AgentId, message: &Memory) -> (r: Memory)
    ensures
        is_fact_of(r, fact@, agent_id, *message),
{
    description_memory(
        fact,
        message.entity_id,
        agent_id,
        message,
        Metadata::Fact { source_message: message.id },
    )
}

/// The prompt that asks for a reflection.
pub open spec fn reflection_prompt(name: Seq<char>, recent: Seq<char>) -> Seq<char> {
    "Reflect on the recent conversation as "@ + name
        + ". What patterns do you notice? What's important to remember? Write a brief (2-3 sentence) reflection.\n\nRecent conversation:\n"@
        + recent
}

/// The model is asked this about the conversation as a whole.
pub open spec fn asks_for_reflection(
    name: Seq<char>,
    values: Map<Seq<char>, Seq<char>>,
    p: GenerateTextParams,
) -> bool {
    p.asks(
        ModelType::TextSmall,
        "You are "@ + name + ". Write a brief internal reflection."@,
        reflection_prompt(name, types::value_or_empty(values, "recentMessages"@)),
        256,
        number::POINT_5,
    )
}

/// What the model is asked about the conversation as a whole.
pub fn reflection_params(agent_name: &str, values: &Values) -> (r: GenerateTextParams)
    ensures
        asks_for_reflection(agent_name@, values@, r),
{
    let mut system = error::prefixed("You are ", agent_name);
    system.append(". Write a brief internal reflection.");
    let mut prompt = error::prefixed("Reflect on the recent conversation as ", agent_name);
    prompt.append(
        ". What patterns do you notice? What's important to remember? Write a brief (2-3 sentence) reflection.\n\nRecent conversation:\n",
    );
    prompt.append(values.get_or_empty("recentMessages").as_str());
    GenerateTextParams::new(ModelType::TextSmall, system, prompt, 256, number::POINT_5)
}

/// The memory is that of a reflection: the agent's own.
pub open spec fn is_reflection_of(
    m: Memory,
    reflection: Seq<char>,
    agent_id: AgentId,
    message: Memory,
) -> bool {
    describes(m, reflection, agent_id, agent_id, message, Metadata::Reflection)
}

/// The memory of a reflection: the agent's own.
pub fn reflection_memory(reflection: &str, agent_id: AgentId, message: &Memory) -> (r: Memory)
    ensures
        is_reflection_of(r, reflection@, agent_id, *message),
{
    description_memory(reflection, agent_id, agent_id, message, Metadata::Reflection)
}

// ---------------------------------------------------------------------------
// Providers
// ---------------------------------------------------------------------------

/// The providers that every agent has.
#[derive(Clone, Copy, Debug, PartialEq, Eq, Structural)]
pub enum BuiltinProvider {
    Time,
    Facts,
    Relationships,
    Boredom,
}

impl BuiltinProvider {
    pub fn name(&self) -> (r: &'static str)
        ensures
            r@ == (match *self {
                BuiltinProvider::Time => "time"@,
                BuiltinProvider::Facts => "facts"@,
                BuiltinProvider::Relationships => "relationships"@,
                BuiltinProvider::Boredom => "boredom"@,
            }),
    {
        match self {
            BuiltinProvider::Time => "time",
            BuiltinProvider::Facts => "facts",
            BuiltinProvider::Relationships => "relationships",
            BuiltinProvider::Boredom => "boredom",
        }
    }

    pub fn description(&self) -> (r: &'static str)
        ensures
            r@ == (match *self {
                BuiltinProvider::Time => "Provides the current date and time"@,
                BuiltinProvider::Facts =>
                    "Provides known facts about the conversation participants"@,
                BuiltinProvider::Relationships =>
                    "Provides relationship context between entities"@,
                BuiltinProvider::Boredom => "Tracks conversation engagement level"@,
            }),
    {
        match self {
            BuiltinProvider::Time => "Provides the current date and time",
            BuiltinProvider::Facts => "Provides known facts about the conversation participants",
            BuiltinProvider::Relationships => "Provides relationship context between entities",
            BuiltinProvider::Boredom => "Tracks conversation engagement level",
        }
    }

    pub fn position(&self) -> (r: i32)
        ensures
            r == (match *self {
                BuiltinProvider::Time => -100int,
                BuiltinProvider::Facts => 10int,
                BuiltinProvider::Relationships => 20int,
                BuiltinProvider::Boredom => 50int,
            }),
    {
        match self {
            BuiltinProvider::Time => -100,
            BuiltinProvider::Facts => 10,
            BuiltinProvider::Relationships => 20,
            BuiltinProvider::Boredom => 50,
        }
    }
}

/// What the providers tell of a point in time, written in these two ways.
pub fn time_told(written: &str, rfc3339: String) -> (r: ProviderResult)
    ensures
        text::opt_text(r.text) == Some("Current time: "@ + written@ + " (UTC)"@),
        r.values@ == map!["currentTime"@ => rfc3339@],
        r.data is None,
{
    let mut out = error::prefixed("Current time: ", written);
    out.append(" (UTC)");
    let mut values = Values::new();
    values.put("currentTime", rfc3339);
    assert(values@ =~= map!["currentTime"@ => rfc3339@]);
    ProviderResult { text: Some(out), values, data: None }
}

/// What the providers tell of the time.
pub fn time_result(at: &Timestamp) -> (r: ProviderResult)
    requires
        at.valid(),
    ensures
        text::opt_text(r.text) == Some(
            "Current time: "@ + outside::formatted_time(
                at.secs as int,
                at.nanos as int,
                "%Y-%m-%d %H:%M:%S"@,
            ) + " (UTC)"@,
        ),
        r.values@ == map!["currentTime"@ => at.text()],
        r.data is None,
{
    let written = outside::chrono_format(at.secs, at.nanos, "%Y-%m-%d %H:%M:%S");
    time_told(written.as_str(), at.to_rfc3339())
}

/// These facts are looked up for a message: at most ten about its sender.
pub open spec fn looks_up_facts(p: GetMemoriesParams, agent_id: AgentId, message: Memory) -> bool {
    &&& p.room_id is None
    &&& p.agent_id == Some(agent_id)
    &&& p.entity_id == Some(message.entity_id)
    &&& p.memory_type == Some(MemoryType::Description)
    &&& p.unique is None
    &&& p.count == Some(10usize)
}

/// The facts that are looked up for a message: at most ten about its sender.
pub fn facts_params(agent_id: AgentId, message: &Memory) -> (r: GetMemoriesParams)
    ensures
        looks_up_facts(r, agent_id, *message),
{
    GetMemoriesParams {
        room_id: None,
        agent_id: Some(agent_id),
        entity_id: Some(message.entity_id),
        memory_type: Some(MemoryType::Description),
        unique: None,
        count: Some(10),
    }
}

/// The providers tell this of facts; nothing where there are none.
pub open spec fn tells_facts(facts: Seq<Memory>, r: ProviderResult) -> bool {
    &&& text::opt_text(r.text) == if facts.len() == 0 {
        None
    } else {
        Some("Known facts:\n- "@ + lines::joined(knowledge::memory_texts(facts), "\n- "@))
    }
    &&& r.values@ == Map::<Seq<char>, Seq<char>>::empty()
    &&& r.data is None
}

/// What the providers tell of facts; nothing where there are none.
pub fn facts_result(facts: &Vec<Memory>) -> (r: ProviderResult)
    ensures
        tells_facts(facts@, r),
{
    let mut r = ProviderResult::default();
    if facts.len() > 0 {
        let list = lines::join(&knowledge::collect_texts(facts), "\n- ");
        r.text = Some(error::prefixed("Known facts:\n- ", list.as_str()));
    }
    r
}

/// The line that tells of a relationship.
pub open spec fn relationship_line(r: Relationship) -> Seq<char> {
    "- Relationship with "@ + r.target_entity_id.text() + ": tags=["@ + (if r.tags@.len() == 0 {
        "none"@
    } else {
        lines::joined(text::texts(r.tags@), ", "@)
    }) + "]"@
}

/// The lines that tell of relationships.
pub open spec fn relationship_lines(v: Seq<Relationship>) -> Seq<Seq<char>> {
    v.map_values(|r: Relationship| relationship_line(r))
}

/// The providers tell this of relationships; nothing where there are none.
pub open spec fn tells_relationships(v: Seq<Relationship>, r: ProviderResult) -> bool {
    &&& text::opt_text(r.text) == if v.len() == 0 {
        None
    } else {
        Some("Relationships:\n"@ + lines::joined(relationship_lines(v), "\n"@))
    }
    &&& r.values@ == Map::<Seq<char>, Seq<char>>::empty()
    &&& r.data is None
}

/// What the providers tell of relationships; nothing where there are none.
pub fn relationships_result(relationships: &Vec<Relationship>) -> (r: ProviderResult)
    ensures
        tells_relationships(relationships@, r),
{
    let mut r = ProviderResult::default();
    if relationships.len() == 0 {
        return r;
    }
    let ghost all = relationship_lines(relationships@);
    let mut out: Vec<String> = Vec::new();
    let mut i: usize = 0;
    assert(text::texts(out@) =~= all.take(0));
    while i < relationships.len()
        invariant
            i <= relationships@.len() == all.len(),
            all == relationship_lines(relationships@),
            text::texts(out@) == all.take(i as int),
        decreases relationships.len() - i,
    {
        let one = &relationships[i];
        let mut line = error::prefixed(
            "- Relationship with ",
            one.target_entity_id.to_text().as_str(),
        );
        line.append(": tags=[");
        if one.tags.len() == 0 {
            line.append("none");
        } else {
            line.append(lines::join(&one.tags, ", ").as_str());
        }
        line.append("]");
        let ghost before = out@;
        out.push(line);
        proof {
            assert(text::texts(out@) =~= text::texts(before).push(line@));
            assert(all.take(i + 1) =~= all.take(i as int).push(all[i as int]));
            assert(all[i as int] == relationship_line(relationships@[i as int]));
        }
        i = i + 1;
    }
    assert(all.take(all.len() as int) =~= all);
    r.text = Some(error::prefixed("Relationships:\n", lines::join(&out, "\n").as_str()));
    r
}

/// How engaged a conversation of so many messages is.
pub open spec fn engagement(count: nat) -> Seq<char> {
    if count <= 5 {
        "high"@
    } else if count <= 20 {
        "moderate"@
    } else if count <= 50 {
        "settling"@
    } else {
        "low"@
    }
}

/// What the providers tell of the engagement of a conversation.
pub fn boredom_result(count: usize) -> (r: ProviderResult)
    ensures
        r.text is None,
        r.values@ == map![
            "engagementLevel"@ => engagement(count as nat),
            "messageCount"@ => number::decimal(count as nat)
        ],
        r.data is None,
{
    let level = if count <= 5 {
        "high"
    } else if count <= 20 {
        "moderate"
    } else if count <= 50 {
        "settling"
    } else {
        "low"
    };
    let mut values = Values::new();
    values.put("engagementLevel", level.to_owned());
    values.put("messageCount", number::decimal_text(count as u64));
    assert(values@ =~= map![
        "engagementLevel"@ => engagement(count as nat),
        "messageCount"@ => number::decimal(count as nat)
    ]);
    ProviderResult { text: None, values, data: None }
}

// ---------------------------------------------------------------------------
// The plugin
// ---------------------------------------------------------------------------

/// The plugin with all of these.
pub fn bootstrap_plugin<S>() -> (r: Plugin<BuiltinAction, BuiltinEvaluator, BuiltinProvider, S>)
    ensures
        r.name@ == "bootstrap"@,
        r.description@ == "Core actions, evaluators, and providers"@,
        r.actions@ == seq![
            BuiltinAction::Continue,
            BuiltinAction::Ignore,
            BuiltinAction::FollowRoom,
            BuiltinAction::UnfollowRoom,
            BuiltinAction::MuteRoom,
            BuiltinAction::UnmuteRoom,
            BuiltinAction::NoAction,
        ],
        r.evaluators@ == seq![BuiltinEvaluator::FactExtraction, BuiltinEvaluator::Reflection],
        r.providers@ == seq![
            BuiltinProvider::Time,
            BuiltinProvider::Facts,
            BuiltinProvider::Relationships,
            BuiltinProvider::Boredom,
        ],
        r.services@.len() == 0,
{
    let mut plugin: Plugin<BuiltinAction, BuiltinEvaluator, BuiltinProvider, S> = Plugin::new(
        "bootstrap",
        "Core actions, evaluators, and providers",
    );
    plugin.actions.push(BuiltinAction::Continue);
    plugin.actions.push(BuiltinAction::Ignore);
    plugin.actions.push(BuiltinAction::FollowRoom);
    plugin.actions.push(BuiltinAction::UnfollowRoom);
    plugin.actions.push(BuiltinAction::MuteRoom);
    plugin.actions.push(BuiltinAction::UnmuteRoom);
    plugin.actions.push(BuiltinAction::NoAction);
    plugin.evaluators.push(BuiltinEvaluator::FactExtraction);
    plugin.evaluators.push(BuiltinEvaluator::Reflection);
    plugin.providers.push(BuiltinProvider::Time);
    plugin.providers.push(BuiltinProvider::Facts);
    plugin.providers.push(BuiltinProvider::Relationships);
    plugin.providers.push(BuiltinProvider::Boredom);
    plugin
}

// ---------------------------------------------------------------------------
// What is put to the model, what is kept and what is told
// ---------------------------------------------------------------------------

/// The model is asked about the facts in a message exactly when the message has at
/// least twenty bytes. It is told who sent the message, and behind that the whole of
/// what the message says.
pub proof fn messages_are_searched_for_facts(
    message: Memory,
    values: Map<Seq<char>, Seq<char>>,
    r: Option<GenerateTextParams>,
)
    requires
        asks_for_facts(message, values, r),
    ensures
        r is Some <==> bytes::byte_len(text::text_or_empty(message.content.text)) >= 20,
        r is Some && values.contains_key("senderName"@) ==> passages::in_order(
            r.unwrap().prompt@,
            seq![values["senderName"@], text::text_or_empty(message.content.text)],
        ),
        r is Some ==> text::has(
            r.unwrap().prompt@,
            text::text_or_empty(message.content.text),
        ),
{
    if r is Some {
        let sender = fact_sender(values);
        let said = text::text_or_empty(message.content.text);
        let head =
            "Extract any factual statements or important information from this message. Only extract clear, definitive facts — not opinions or questions.\n\nMessage from "@;
        let tail = "\n\nRespond with a JSON array of fact strings. If no facts, respond with []."@;
        passages::lemma_two(head, sender, ": "@, said, tail);
        passages::lemma_each(r.unwrap().prompt@, seq![sender, said], 1);
    }
}

/// The model reflects as the agent, on the whole of the recent conversation.
pub proof fn reflections_see_the_conversation(
    name: Seq<char>,
    values: Map<Seq<char>, Seq<char>>,
    p: GenerateTextParams,
)
    requires
        asks_for_reflection(name, values, p),
        values.contains_key("recentMessages"@),
    ensures
        text::has(p.system_prompt@, name),
        passages::in_order(p.prompt@, seq![name, values["recentMessages"@]]),
{
    let recent = values["recentMessages"@];
    passages::lemma_stands("You are "@, name, ". Write a brief internal reflection."@);
    passages::lemma_two(
        "Reflect on the recent conversation as "@,
        name,
        ". What patterns do you notice? What's important to remember? Write a brief (2-3 sentence) reflection.\n\nRecent conversation:\n"@,
        recent,
        Seq::empty(),
    );
    assert(p.prompt@ + Seq::<char>::empty() =~= p.prompt@);
}

/// The model goes on as the agent, from the whole of the recent conversation, and
/// what it writes becomes a message of the agent to the room and the result of the
/// action.
pub proof fn conversations_are_continued(
    name: Seq<char>,
    values: Map<Seq<char>, Seq<char>>,
    room_id: RoomId,
    at: Timestamp,
    e: ActionEffect,
    continuation: Seq<char>,
    agent_id: AgentId,
    m: Memory,
    result: ActionResult,
)
    requires
        BuiltinAction::Continue.does(name, values, room_id, at, e),
        values.contains_key("recentMessages"@),
        continues(continuation, agent_id, room_id, m, result),
    ensures
        e is Generate,
        text::has(e->Generate_0.system_prompt@, name),
        passages::in_order(e->Generate_0.prompt@, seq![values["recentMessages"@], name]),
        m.content.text is Some && m.content.text.unwrap()@ == continuation,
        m.entity_id == agent_id && m.agent_id == agent_id && m.room_id == room_id,
        result.success && text::opt_text(result.text) == text::opt_text(m.content.text),
{
    let recent = values["recentMessages"@];
    passages::lemma_stands("You are "@, name, ". Continue the conversation naturally."@);
    passages::lemma_two(
        "Continue the conversation. Recent context:\n"@,
        recent,
        "\n\nContinue naturally as "@,
        name,
        "."@,
    );
}

/// A room is followed or muted under a key that tells the room, with the time from
/// which that holds. What the one notes is not what the other notes.
pub proof fn room_states_are_noted(
    name: Seq<char>,
    values: Map<Seq<char>, Seq<char>>,
    room_id: RoomId,
    at: Timestamp,
    follow: ActionEffect,
    mute: ActionEffect,
)
    requires
        BuiltinAction::FollowRoom.does(name, values, room_id, at, follow),
        BuiltinAction::MuteRoom.does(name, values, room_id, at, mute),
    ensures
        text::has(follow->SetCache_key@, room_id.text()),
        text::has(mute->SetCache_key@, room_id.text()),
        passages::in_order(
            follow->value@,
            seq!["following"@, outside::json_string(at.text())],
        ),
        passages::in_order(mute->value@, seq!["muted"@, outside::json_string(at.text())]),
{
    passages::lemma_stands("room_follow:"@, room_id.text(), Seq::empty());
    passages::lemma_stands("room_muted:"@, room_id.text(), Seq::empty());
    assert(follow_key(room_id) + Seq::<char>::empty() =~= follow_key(room_id));
    assert(mute_key(room_id) + Seq::<char>::empty() =~= mute_key(room_id));
    let since = outside::json_string(at.text());
    passages::lemma_two("{\""@, "following"@, "\":true,\"since\":"@, since, "}"@);
    passages::lemma_two("{\""@, "muted"@, "\":true,\"since\":"@, since, "}"@);
}

/// Of the facts that a model names, those of at least five bytes are kept, all of
/// them and no others.
pub proof fn facts_are_kept(facts: Seq<Seq<char>>, fact: Seq<char>)
    ensures
        kept_facts(facts).contains(fact) <==> facts.contains(fact) && bytes::byte_len(fact) >= 5,
{
    let p = |f: Seq<char>| bytes::byte_len(f) >= 5;
    if facts.contains(fact) && bytes::byte_len(fact) >= 5 {
        let i = choose|i: int| 0 <= i < facts.len() && facts[i] == fact;
        facts.lemma_filter_contains(p, i);
    }
    if kept_facts(facts).contains(fact) {
        let i = choose|i: int| 0 <= i < kept_facts(facts).len() && kept_facts(facts)[i] == fact;
        facts.lemma_filter_pred(p, i);
        facts.lemma_filter_contains_rev(p, fact);
    }
}

/// What is kept of a fact is looked up again for every later message of the one who
/// told it, in any room, and for no message of anyone else; it says which message
/// told it. What is kept of a reflection is not about the one who wrote the message.
pub proof fn facts_are_looked_up_again(
    fact: Seq<char>,
    m: Memory,
    agent_id: AgentId,
    message: Memory,
    later: Memory,
    p: GetMemoriesParams,
)
    requires
        is_fact_of(m, fact, agent_id, message),
        looks_up_facts(p, agent_id, later),
    ensures
        p.agent_id == Some(m.agent_id),
        p.memory_type == Some(m.memory_type),
        p.room_id is None,
        p.entity_id == Some(m.entity_id) <==> later.entity_id == message.entity_id,
        m.room_id == message.room_id && m.world_id == message.world_id,
        m.metadata == Some(Metadata::Fact { source_message: message.id }),
        text::opt_text(m.content.text) == Some(fact),
{
}

/// What is kept of a reflection is the agent's own, in the room of the message, and is
/// looked up for the messages of nobody but the agent.
pub proof fn reflections_are_the_agents_own(
    reflection: Seq<char>,
    m: Memory,
    agent_id: AgentId,
    message: Memory,
    later: Memory,
    p: GetMemoriesParams,
)
    requires
        is_reflection_of(m, reflection, agent_id, message),
        looks_up_facts(p, agent_id, later),
    ensures
        text::opt_text(m.content.text) == Some(reflection),
        m.agent_id == agent_id && m.room_id == message.room_id,
        p.entity_id == Some(m.entity_id) <==> later.entity_id == agent_id,
{
}

/// The agent is told the texts of the facts that were found, in their order, and
/// nothing where none was found.
pub proof fn known_facts_are_told(facts: Seq<Memory>, r: ProviderResult)
    requires
        tells_facts(facts, r),
    ensures
        facts.len() == 0 <==> r.text is None,
        facts.len() > 0 ==> passages::in_order(
            r.text.unwrap()@,
            facts.filter(|m: Memory| m.content.text is Some).map_values(
                |m: Memory| m.content.text.unwrap()@,
            ),
        ),
        forall|i: int|
            0 <= i < facts.len() && (#[trigger] facts[i]).content.text is Some ==> text::has(
                r.text.unwrap()@,
                facts[i].content.text.unwrap()@,
            ),
{
    if facts.len() > 0 {
        let texts = knowledge::memory_texts(facts);
        let body = lines::joined(texts, "\n- "@);
        knowledge::lemma_memory_texts(facts);
        passages::lemma_joined(texts, "\n- "@);
        passages::lemma_in_order("Known facts:\n- "@, body, Seq::empty(), texts);
        assert("Known facts:\n- "@ + body + Seq::<char>::empty() =~= r.text.unwrap()@);
        assert forall|i: int| 0 <= i < facts.len() && (
        #[trigger] facts[i]).content.text is Some implies text::has(
            r.text.unwrap()@,
            facts[i].content.text.unwrap()@,
        ) by {
            knowledge::lemma_memory_text(facts, i);
            let t = facts[i].content.text.unwrap()@;
            let k = choose|k: int| 0 <= k < texts.len() && texts[k] == t;
            passages::lemma_each(r.text.unwrap()@, texts, k);
        }
    }
}

/// The agent is told of every relationship that was found with whom it is and, behind
/// that, each of its tags.
pub proof fn relationships_are_told(v: Seq<Relationship>, r: ProviderResult, i: int)
    requires
        tells_relationships(v, r),
        0 <= i < v.len(),
    ensures
        r.text is Some,
        text::has(r.text.unwrap()@, v[i].target_entity_id.text()),
        forall|k: int|
            0 <= k < v[i].tags@.len() ==> passages::in_order(
                r.text.unwrap()@,
                seq![v[i].target_entity_id.text(), (#[trigger] v[i].tags@[k])@],
            ),
{
    let all = relationship_lines(v);
    let body = lines::joined(all, "\n"@);
    let told = r.text.unwrap()@;
    passages::lemma_joined(all, "\n"@);
    passages::lemma_each(body, all, i);
    passages::lemma_has("Relationships:\n"@, body, Seq::empty(), all[i]);
    assert("Relationships:\n"@ + body + Seq::<char>::empty() =~= told);
    let who = v[i].target_entity_id.text();
    let tags = text::texts(v[i].tags@);
    let listed = if tags.len() == 0 {
        "none"@
    } else {
        lines::joined(tags, ", "@)
    };
    let line = "- Relationship with "@ + who + ": tags=["@ + listed + "]"@;
    assert(all[i] == line);
    passages::lemma_two("- Relationship with "@, who, ": tags=["@, listed, "]"@);
    passages::lemma_in_order_through(told, line, seq![who, listed]);
    passages::lemma_each(told, seq![who, listed], 0);
    assert forall|k: int| 0 <= k < v[i].tags@.len() implies passages::in_order(
        told,
        seq![who, (#[trigger] v[i].tags@[k])@],
    ) by {
        let tag = v[i].tags@[k]@;
        assert(tags[k] == tag);
        passages::lemma_joined(tags, ", "@);
        passages::lemma_each(listed, tags, k);
        passages::lemma_stands(Seq::empty(), who, Seq::empty());
        assert(Seq::<char>::empty() + who + Seq::<char>::empty() =~= who);
        passages::lemma_within(told, seq![who, listed], seq![who, tag]);
    }
}

/// The facts in an answer are those of the JSON array in it that are worth keeping.
pub proof fn facts_are_extracted(
    response: Seq<char>,
    part: Seq<char>,
    list: Seq<Seq<char>>,
    fact: Seq<char>,
)
    requires
        respond::bracketed(response, '[', ']') == Some(part),
        outside::json_list_parsed(part) == Some(list),
    ensures
        facts_in(response).contains(fact) <==> list.contains(fact) && bytes::byte_len(fact) >= 5,
{
    facts_are_kept(list, fact);
}

/// The longer a conversation, the less engaged it is: one that is not shorter than another
/// is highly engaged only where the other is, and is of low engagement where the other is.
pub proof fn engagement_wanes(m: nat, n: nat)
    requires
        m <= n,
    ensures
        engagement(n) == "high"@ ==> engagement(m) == "high"@,
        engagement(m) == "low"@ ==> engagement(n) == "low"@,
        engagement(n) == "moderate"@ ==> engagement(m) == "moderate"@ || engagement(m) == "high"@,
        engagement(0) == "high"@,
        engagement(5) == "high"@ && engagement(6) != "high"@,
        engagement(51) == "low"@ && engagement(50) != "low"@,
{
    reveal_strlit("high");
    reveal_strlit("moderate");
    reveal_strlit("settling");
    reveal_strlit("low");
    assert("high"@[0] == 'h' && "moderate"@[0] == 'm' && "settling"@[0] == 's' && "low"@[0] == 'l');
}

} // verus!
