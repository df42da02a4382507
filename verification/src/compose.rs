//! Composing the state that prompts are made from.
use vstd::prelude::*;

use crate::chain::ActionSpec;
use crate::character;
use crate::character::Character;
use crate::ids::AgentId;
use crate::lines;
use crate::number;
use crate::passages;
use crate::summarize;
use crate::text;
use crate::types::{
    Entity, GenerateTextParams, GetMemoriesParams, Memory, MemoryType, ModelType, Room, State,
    StateData, Values,
};

verus! {

/// What a provider adds to the state.
pub struct ProviderResult {
    pub text: Option<String>,
    pub values: Values,
    /// The JSON text of what the provider hands on.
    pub data: Option<String>,
}

impl Default for ProviderResult {
    fn default() -> (r: Self)
        ensures
            r.text is None,
            r.values@ == Map::<Seq<char>, Seq<char>>::empty(),
            r.data is None,
    {
        ProviderResult { text: None, values: Values::new(), data: None }
    }
}

/// A conversation is composed from these messages: at most the last twenty of the room.
pub open spec fn looks_back(p: GetMemoriesParams, agent_id: AgentId, message: Memory) -> bool {
    &&& p.room_id == Some(message.room_id)
    &&& p.agent_id == Some(agent_id)
    &&& p.entity_id is None
    &&& p.memory_type == Some(MemoryType::Message)
    &&& p.unique is None
    &&& p.count == Some(20usize)
}

/// A message is among those that the conversation about a later one in its room is composed
/// from, whoever wrote it, and among none of another room.
pub proof fn conversations_are_those_of_the_room(
    p: GetMemoriesParams,
    agent_id: AgentId,
    message: Memory,
    earlier: Memory,
)
    requires
        looks_back(p, agent_id, message),
        earlier.memory_type == MemoryType::Message,
        earlier.agent_id == agent_id,
    ensures
        p.memory_type == Some(earlier.memory_type),
        p.agent_id == Some(earlier.agent_id),
        p.entity_id is None,
        p.count is Some && 0 < p.count.unwrap() <= 20,
        p.room_id == Some(earlier.room_id) <==> earlier.room_id == message.room_id,
{
}

/// The messages that a conversation is composed from: at most the last twenty
/// of the room.
pub fn recent_params(agent_id: AgentId, message: &Memory) -> (r: GetMemoriesParams)
    ensures
        looks_back(r, agent_id, *message),
{
    GetMemoriesParams {
        room_id: Some(message.room_id),
        agent_id: Some(agent_id),
        entity_id: None,
        memory_type: Some(MemoryType::Message),
        unique: None,
        count: Some(20),
    }
}

/// The number of messages above which the older ones are summarized, and the
/// number of those that are kept as they are.
pub const SUMMARIZE_ABOVE: usize = 15;

pub const KEEP_RECENT: usize = 8;

/// The model is asked this about the older messages of a long conversation; a short one
/// needs no summary.
pub open spec fn asks_for_summary(
    recent: Seq<Memory>,
    agent_name: Seq<char>,
    r: Option<GenerateTextParams>,
) -> bool {
    match r {
        Some(p) => recent.len() > SUMMARIZE_ABOVE && p.asks(
            ModelType::TextSmall,
            "You are a concise conversation summarizer."@,
            summarize::summary_prompt(recent.take(recent.len() - KEEP_RECENT), agent_name),
            256,
            number::POINT_3,
        ),
        None => recent.len() <= SUMMARIZE_ABOVE,
    }
}

/// A summary is asked for where there are more than fifteen messages, and of all of them but
/// the last eight. Whatever the summary, these eight are told behind it, so that every
/// message is either summarized or told.
pub proof fn old_messages_are_summarized(
    recent: Seq<Memory>,
    agent_name: Seq<char>,
    r: Option<GenerateTextParams>,
    summary: Seq<char>,
)
    requires
        asks_for_summary(recent, agent_name, r),
    ensures
        r is Some <==> recent.len() > 15,
        r is Some ==> exists|talk: Seq<char>| #[trigger]
            text::has(r.unwrap().prompt@, talk) && summarize::tells_conversation(
                talk,
                recent.take(recent.len() - 8),
                agent_name,
            ),
        r is Some ==> text::has(recent_text(recent, agent_name, Some(summary)), summary) && exists|
            talk: Seq<char>,
        | #[trigger]
            text::ends_in(recent_text(recent, agent_name, Some(summary)), talk)
                && summarize::tells_conversation(talk, recent.skip(recent.len() - 8), agent_name),
{
    if r is Some {
        let old = recent.take(recent.len() - 8);
        let kept = recent.skip(recent.len() - 8);
        let t = recent_text(recent, agent_name, Some(summary));
        summarize::summaries_are_asked_of_all(old, agent_name);
        summarize::summaries_stand_before_messages(summary, kept, agent_name);
        assert(t == summarize::summarized(summary, kept, agent_name));
        if summary.len() == 0 {
            assert(t.subrange(0, t.len() as int) =~= t);
            assert(text::ends_in(t, t));
        } else {
            let (head, talk) = choose|head: Seq<char>, talk: Seq<char>|
                {
                    &&& t == head + talk
                    &&& text::has(head, summary)
                    &&& #[trigger] text::ends_in(head, "\n\n"@)
                    &&& #[trigger] summarize::tells_conversation(talk, kept, agent_name)
                };
            assert(t.subrange(t.len() - talk.len(), t.len() as int) =~= talk);
            assert(text::ends_in(t, talk));
        }
    }
}

/// What the model is asked about the older messages of a long conversation; a
/// short one needs no summary.
pub fn summary_params(recent: &[Memory], agent_name: &str) -> (r: Option<GenerateTextParams>)
    ensures
        asks_for_summary(recent@, agent_name@, r),
{
    if summarize::should_summarize(recent, SUMMARIZE_ABOVE) {
        let (old, kept) = summarize::split_for_summary(recent, KEEP_RECENT);
        proof {
            assert(old@ =~= recent@.take(recent@.len() - KEEP_RECENT)) by {
                assert(old@ =~= (old@ + kept@).take(old@.len() as int));
            }
        }
        summarize::summarize_messages(old, agent_name)
    } else {
        None
    }
}

/// The recent conversation as text: a long one as the summary and its last
/// messages, where there is a summary, and else all of its messages.
pub open spec fn recent_text(
    recent: Seq<Memory>,
    agent_name: Seq<char>,
    summary: Option<Seq<char>>,
) -> Seq<char> {
    if recent.len() > SUMMARIZE_ABOVE && summary is Some {
        summarize::summarized(
            summary.unwrap(),
            recent.skip(recent.len() - KEEP_RECENT),
            agent_name,
        )
    } else {
        summarize::conversation(recent, agent_name)
    }
}

/// The recent conversation as text.
pub fn format_recent(recent: &[Memory], agent_name: &str, summary: &Option<String>) -> (r: String)
    ensures
        r@ == recent_text(recent@, agent_name@, text::opt_text(*summary)),
{
    if summarize::should_summarize(recent, SUMMARIZE_ABOVE) {
        match summary {
            Some(s) => {
                let (old, kept) = summarize::split_for_summary(recent, KEEP_RECENT);
                proof {
                    assert(kept@ =~= recent@.skip(recent@.len() - KEEP_RECENT)) by {
                        assert(kept@ =~= (old@ + kept@).skip(old@.len() as int));
                    }
                }
                return summarize::format_with_summary(s.as_str(), kept, agent_name);
            },
            None => {},
        }
    }
    summarize::format_recent_messages(recent, agent_name)
}

/// The line that describes an action.
pub open spec fn action_line(a: ActionSpec) -> Seq<char> {
    "- "@ + a.name@ + ": "@ + a.description@
}

/// The actions, described a line each.
pub open spec fn action_lines(actions: Seq<ActionSpec>) -> Seq<char> {
    lines::joined(actions.map_values(|a: ActionSpec| action_line(a)), "\n"@)
}

/// The names of the actions.
pub open spec fn action_names(actions: Seq<ActionSpec>) -> Seq<char> {
    lines::joined(actions.map_values(|a: ActionSpec| a.name@), ", "@)
}

/// The actions, described a line each.
fn describe_actions(actions: &Vec<ActionSpec>) -> (r: String)
    ensures
        r@ == action_lines(actions@),
{
    let mut out: Vec<String> = Vec::new();
    let mut i: usize = 0;
    let ghost f = |a: ActionSpec| action_line(a);
    while i < actions.len()
        invariant
            i <= actions@.len(),
            f == (|a: ActionSpec| action_line(a)),
            text::texts(out@) == actions@.take(i as int).map_values(f),
        decreases actions.len() - i,
    {
        let mut line = "- ".to_owned();
        line.append(actions[i].name.as_str());
        line.append(": ");
        line.append(actions[i].description.as_str());
        let ghost before = out@;
        out.push(line);
        proof {
            assert(text::texts(out@) =~= text::texts(before).push(line@));
            assert(actions@.take(i + 1).map_values(f) =~= actions@.take(i as int).map_values(
                f,
            ).push(line@));
        }
        i = i + 1;
    }
    assert(actions@.take(actions@.len() as int) =~= actions@);
    lines::join(&out, "\n")
}

/// The names of the actions.
fn list_actions(actions: &Vec<ActionSpec>) -> (r: String)
    ensures
        r@ == action_names(actions@),
{
    let mut out: Vec<String> = Vec::new();
    let mut i: usize = 0;
    let ghost f = |a: ActionSpec| a.name@;
    while i < actions.len()
        invariant
            i <= actions@.len(),
            f == (|a: ActionSpec| a.name@),
            text::texts(out@) == actions@.take(i as int).map_values(f),
        decreases actions.len() - i,
    {
        let ghost before = out@;
        out.push(actions[i].name.clone());
        proof {
            assert(text::texts(out@) =~= text::texts(before).push(actions@[i as int].name@));
            assert(actions@.take(i + 1).map_values(f) =~= actions@.take(i as int).map_values(
                f,
            ).push(actions@[i as int].name@));
        }
        i = i + 1;
    }
    assert(actions@.take(actions@.len() as int) =~= actions@);
    lines::join(&out, ", ")
}

/// The values that come from the character and the message.
pub open spec fn character_values(c: Character, message: Memory) -> Map<Seq<char>, Seq<char>> {
    let base = Map::<Seq<char>, Seq<char>>::empty().insert("agentName"@, c.name@).insert(
        "bio"@,
        lines::joined(text::texts(c.bio@), " "@),
    ).insert("lore"@, lines::joined(text::texts(c.lore@), "\n"@)).insert(
        "topics"@,
        lines::joined(text::texts(c.topics@), ", "@),
    ).insert("adjectives"@, lines::joined(text::texts(c.adjectives@), ", "@)).insert(
        "styleAll"@,
        lines::joined(text::texts(c.style.all@), "\n"@),
    ).insert("styleChat"@, lines::joined(text::texts(c.style.chat@), "\n"@)).insert(
        "messageExamples"@,
        character::examples_text(c.message_examples@, c.message_examples@.len()),
    ).insert("knowledge"@, lines::joined(text::texts(c.knowledge@), "\n"@));
    let with_system = match c.system {
        Some(s) => base.insert("system"@, s@),
        None => base,
    };
    with_system.insert("currentMessage"@, text::text_or_empty(message.content.text))
}

/// The name that is shown for the sender of a message.
pub open spec fn sender_name(entity: Option<Entity>) -> Seq<char> {
    match entity {
        Some(e) => e.shown_name(),
        None => "User"@,
    }
}

/// All values of a state but those that providers add.
pub open spec fn composed_values(
    c: Character,
    message: Memory,
    entity: Option<Entity>,
    recent: Seq<Memory>,
    summary: Option<Seq<char>>,
    actions: Seq<ActionSpec>,
) -> Map<Seq<char>, Seq<char>> {
    character_values(c, message).insert("senderName"@, sender_name(entity)).insert(
        "recentMessages"@,
        recent_text(recent, c.name@, summary),
    ).insert("actions"@, action_lines(actions)).insert("actionNames"@, action_names(actions))
}

/// The state as the providers see it: the character, the message, the entity and
/// the room as far as they are known, the recent conversation and the actions.
pub fn compose_state(
    c: &Character,
    message: &Memory,
    entity: Option<Entity>,
    room: Option<Room>,
    recent: Vec<Memory>,
    summary: &Option<String>,
    actions: &Vec<ActionSpec>,
) -> (r: State)
    ensures
        r.values@ == composed_values(
            *c,
            *message,
            entity,
            recent@,
            text::opt_text(*summary),
            actions@,
        ),
        r.data.entity == entity,
        r.data.room == room,
        r.data.world is None,
        r.data.recent_messages == Some(recent),
        r.data.extra@.len() == 0,
{
    let mut values = Values::new();
    values.put("agentName", c.name.clone());
    values.put("bio", c.bio_text());
    values.put("lore", c.lore_text());
    values.put("topics", c.topics_text());
    values.put("adjectives", c.adjectives_text());
    values.put("styleAll", c.style_all_text());
    values.put("styleChat", c.style_chat_text());
    values.put("messageExamples", c.format_message_examples());
    values.put("knowledge", lines::join(&c.knowledge, "\n"));
    match &c.system {
        Some(s) => values.put("system", s.clone()),
        None => {},
    }
    let current = match &message.content.text {
        Some(t) => t.clone(),
        None => String::new(),
    };
    assert(current@ =~= text::text_or_empty(message.content.text));
    values.put("currentMessage", current);
    let sender = match &entity {
        Some(e) => e.display_name().to_owned(),
        None => "User".to_owned(),
    };
    values.put("senderName", sender);
    let talk = format_recent(recent.as_slice(), c.name.as_str(), summary);
    values.put("recentMessages", talk);
    values.put("actions", describe_actions(actions));
    values.put("actionNames", list_actions(actions));
    let mut data = StateData::default();
    data.entity = entity;
    data.room = room;
    data.recent_messages = Some(recent);
    State { values, data }
}

/// The positions below `n` of the providers that are not private.
pub open spec fn public_positions(private: Seq<bool>, n: nat) -> Seq<usize>
    decreases n,
{
    if n == 0 {
        Seq::empty()
    } else if private[n - 1] {
        public_positions(private, (n - 1) as nat)
    } else {
        public_positions(private, (n - 1) as nat).push((n - 1) as usize)
    }
}

/// The providers that the state is composed from, by position: those that are not
/// private, in order.
pub fn public_providers(private: &Vec<bool>) -> (r: Vec<usize>)
    ensures
        r@ == public_positions(private@, private@.len()),
{
    let mut out: Vec<usize> = Vec::new();
    let mut i: usize = 0;
    while i < private.len()
        invariant
            i <= private@.len(),
            out@ == public_positions(private@, i as nat),
        decreases private.len() - i,
    {
        if !private[i] {
            out.push(i);
        }
        i = i + 1;
    }
    out
}

/// What a provider came back with, by its name; nothing where it failed.
pub struct Provided {
    pub name: String,
    pub result: Option<ProviderResult>,
}

/// The texts of the first `n` providers that gave one.
pub open spec fn provider_texts(results: Seq<Provided>, n: nat) -> Seq<Seq<char>>
    decreases n,
{
    if n == 0 {
        Seq::empty()
    } else {
        let before = provider_texts(results, (n - 1) as nat);
        match results[n - 1].result {
            Some(p) => match p.text {
                Some(t) => before.push("["@ + results[n - 1].name@ + "]\n"@ + t@),
                None => before,
            },
            None => before,
        }
    }
}

/// `values` with those that the first `n` providers add, a later one's in place
/// of an earlier one's.
pub open spec fn with_provided(
    values: Map<Seq<char>, Seq<char>>,
    results: Seq<Provided>,
    n: nat,
) -> Map<Seq<char>, Seq<char>>
    decreases n,
{
    if n == 0 {
        values
    } else {
        let before = with_provided(values, results, (n - 1) as nat);
        match results[n - 1].result {
            Some(p) => before.union_prefer_right(p.values@),
            None => before,
        }
    }
}

/// `after` is `values` with what the providers came back with: their values, and under
/// `providers` their texts.
pub open spec fn adds_provided(
    values: Map<Seq<char>, Seq<char>>,
    results: Seq<Provided>,
    after: Map<Seq<char>, Seq<char>>,
) -> bool {
    after == with_provided(values, results, results.len()).insert(
        "providers"@,
        lines::joined(provider_texts(results, results.len()), "\n\n"@),
    )
}

/// Adds what the providers came back with: their values, and under `providers`
/// their texts.
pub fn add_provided(values: &mut Values, results: Vec<Provided>)
    ensures
        adds_provided(old(values)@, results@, final(values)@),
{
    let mut results = results;
    let ghost all = results@;
    let ghost first = values@;
    let mut texts: Vec<String> = Vec::new();
    let ghost n = all.len();
    let ghost mut k: nat = 0;
    assert(text::texts(texts@) =~= provider_texts(all, 0));
    while results.len() > 0
        invariant
            k <= n == all.len(),
            results@ == all.skip(k as int),
            values@ == with_provided(first, all, k),
            text::texts(texts@) == provider_texts(all, k),
        decreases results.len(),
    {
        let p = results.remove(0);
        assert(p == all[k as int]);
        match p.result {
            Some(res) => {
                match res.text {
                    Some(t) => {
                        let mut line = "[".to_owned();
                        line.append(p.name.as_str());
                        line.append("]\n");
                        line.append(t.as_str());
                        let ghost before = texts@;
                        texts.push(line);
                        assert(text::texts(texts@) =~= text::texts(before).push(line@));
                    },
                    None => {},
                }
                values.absorb(res.values);
            },
            None => {},
        }
        proof {
            assert(results@ =~= all.skip(k as int + 1));
            k = k + 1;
        }
    }
    values.put("providers", lines::join(&texts, "\n\n"));
}

/// What a provider adds under a name of its own is found there, unless the name
/// is `providers` or a later provider adds it too.
pub proof fn provided_value_is_kept(
    values: Map<Seq<char>, Seq<char>>,
    results: Seq<Provided>,
    i: int,
    n: nat,
    name: Seq<char>,
)
    requires
        0 <= i < n <= results.len(),
        results[i].result is Some,
        results[i].result.unwrap().values@.contains_key(name),
        forall|j: int|
            i < j < n && (#[trigger] results[j]).result is Some
                ==> !results[j].result.unwrap().values@.contains_key(name),
    ensures
        with_provided(values, results, n).contains_key(name),
        with_provided(values, results, n)[name] == results[i].result.unwrap().values@[name],
    decreases n,
{
    if i < n - 1 {
        provided_value_is_kept(values, results, i, (n - 1) as nat, name);
        assert(results[n - 1] == results[n - 1]);
    }
}

// ---------------------------------------------------------------------------
// What a state tells
// ---------------------------------------------------------------------------

/// The names of values differ in their length or in how they begin.
#[verifier::rlimit(50)]
pub proof fn lemma_value_names()
    ensures
        "agentName"@.len() == 9 && "agentName"@[0] == 'a',
        "bio"@.len() == 3 && "bio"@[0] == 'b',
        "lore"@.len() == 4 && "lore"@[0] == 'l',
        "topics"@.len() == 6 && "topics"@[0] == 't',
        "adjectives"@.len() == 10 && "adjectives"@[0] == 'a',
        "styleAll"@.len() == 8 && "styleAll"@[0] == 's',
        "styleChat"@.len() == 9 && "styleChat"@[0] == 's',
        "messageExamples"@.len() == 15 && "messageExamples"@[0] == 'm',
        "knowledge"@.len() == 9 && "knowledge"@[0] == 'k',
        "system"@.len() == 6 && "system"@[0] == 's',
        "currentMessage"@.len() == 14 && "currentMessage"@[0] == 'c',
        "senderName"@.len() == 10 && "senderName"@[0] == 's',
        "recentMessages"@.len() == 14 && "recentMessages"@[0] == 'r',
        "actions"@.len() == 7 && "actions"@[0] == 'a',
        "actionNames"@.len() == 11 && "actionNames"@[0] == 'a',
        "providers"@.len() == 9 && "providers"@[0] == 'p',
{
    reveal_strlit("agentName");
    reveal_strlit("bio");
    reveal_strlit("lore");
    reveal_strlit("topics");
    reveal_strlit("adjectives");
    reveal_strlit("styleAll");
    reveal_strlit("styleChat");
    reveal_strlit("messageExamples");
    reveal_strlit("knowledge");
    reveal_strlit("system");
    reveal_strlit("currentMessage");
    reveal_strlit("senderName");
    reveal_strlit("recentMessages");
    reveal_strlit("actions");
    reveal_strlit("actionNames");
    reveal_strlit("providers");
}

/// A state tells of its character: each entry of what the character is described
/// with stands under its name, in order, and nothing else does.
#[verifier::rlimit(50)]
pub proof fn character_is_told(
    c: Character,
    message: Memory,
    entity: Option<Entity>,
    recent: Seq<Memory>,
    summary: Option<Seq<char>>,
    actions: Seq<ActionSpec>,
)
    ensures
        ({
            let v = composed_values(c, message, entity, recent, summary, actions);
            &&& v.contains_key("agentName"@) && v["agentName"@] == c.name@
            &&& v.contains_key("bio"@) && passages::spaced(
                v["bio"@],
                text::texts(c.bio@),
                " "@,
            ) && passages::in_order(v["bio"@], text::texts(c.bio@))
            &&& v.contains_key("lore"@) && passages::spaced(
                v["lore"@],
                text::texts(c.lore@),
                "\n"@,
            ) && passages::in_order(v["lore"@], text::texts(c.lore@))
            &&& v.contains_key("knowledge"@) && passages::spaced(
                v["knowledge"@],
                text::texts(c.knowledge@),
                "\n"@,
            ) && passages::in_order(v["knowledge"@], text::texts(c.knowledge@))
            &&& v.contains_key("topics"@) && passages::spaced(
                v["topics"@],
                text::texts(c.topics@),
                ", "@,
            ) && passages::in_order(v["topics"@], text::texts(c.topics@))
            &&& v.contains_key("adjectives"@) && passages::spaced(
                v["adjectives"@],
                text::texts(c.adjectives@),
                ", "@,
            ) && passages::in_order(v["adjectives"@], text::texts(c.adjectives@))
            &&& v.contains_key("styleAll"@) && passages::spaced(
                v["styleAll"@],
                text::texts(c.style.all@),
                "\n"@,
            ) && passages::in_order(v["styleAll"@], text::texts(c.style.all@))
            &&& v.contains_key("styleChat"@) && passages::spaced(
                v["styleChat"@],
                text::texts(c.style.chat@),
                "\n"@,
            ) && passages::in_order(v["styleChat"@], text::texts(c.style.chat@))
            &&& v.contains_key("system"@) == c.system is Some
            &&& c.system is Some ==> v["system"@] == c.system.unwrap()@
        }),
{
    let v = composed_values(c, message, entity, recent, summary, actions);
    passages::lemma_joined(text::texts(c.bio@), " "@);
    passages::lemma_joined(text::texts(c.lore@), "\n"@);
    passages::lemma_joined(text::texts(c.knowledge@), "\n"@);
    passages::lemma_joined(text::texts(c.topics@), ", "@);
    passages::lemma_joined(text::texts(c.adjectives@), ", "@);
    passages::lemma_joined(text::texts(c.style.all@), "\n"@);
    passages::lemma_joined(text::texts(c.style.chat@), "\n"@);
    lemma_value_names();
}

/// A state tells of the example conversations of its character: under their name
/// stand all their messages, in order, each behind the name of who says it.
#[verifier::rlimit(50)]
pub proof fn examples_are_told(
    c: Character,
    message: Memory,
    entity: Option<Entity>,
    recent: Seq<Memory>,
    summary: Option<Seq<char>>,
    actions: Seq<ActionSpec>,
    i: int,
    j: int,
)
    requires
        0 <= i < c.message_examples@.len(),
        0 <= j < c.message_examples@[i]@.len(),
    ensures
        ({
            let v = composed_values(c, message, entity, recent, summary, actions);
            let m = c.message_examples@[i]@[j];
            v.contains_key("messageExamples"@) && text::has(
                v["messageExamples"@],
                m.user@ + seq![':', ' '] + text::text_or_empty(m.content.text) + seq!['\n'],
            )
        }),
{
    character::examples_hold_each_message(c.message_examples@, c.message_examples@.len(), i, j);
    lemma_value_names();
}

/// A state tells of the message at hand, of who sent it, and of the recent
/// conversation: all of it, or where it is long and was summarized, the summary and
/// the last messages.
#[verifier::rlimit(50)]
pub proof fn conversation_is_told(
    c: Character,
    message: Memory,
    entity: Option<Entity>,
    recent: Seq<Memory>,
    summary: Option<Seq<char>>,
    actions: Seq<ActionSpec>,
)
    ensures
        ({
            let v = composed_values(c, message, entity, recent, summary, actions);
            &&& v.contains_key("currentMessage"@)
            &&& message.content.text is Some ==> v["currentMessage"@]
                == message.content.text.unwrap()@
            &&& message.content.text is None ==> v["currentMessage"@].len() == 0
            &&& v.contains_key("senderName"@)
            &&& entity is Some && entity.unwrap().names@.len() > 0 ==> v["senderName"@]
                == entity.unwrap().names@[0]@
            &&& entity is None ==> v["senderName"@] == "User"@
            &&& v.contains_key("recentMessages"@)
            &&& recent.len() <= SUMMARIZE_ABOVE || summary is None || summary == Some(
                Seq::<char>::empty(),
            ) ==> exists|kept: Seq<Memory>| #[trigger]
                summarize::tells_conversation(v["recentMessages"@], kept, c.name@) && (kept
                    == recent || (summary is Some && recent.len() > SUMMARIZE_ABOVE && kept
                    == recent.skip(recent.len() - KEEP_RECENT)))
            &&& recent.len() > SUMMARIZE_ABOVE && summary is Some ==> text::has(
                v["recentMessages"@],
                summary.unwrap(),
            ) && exists|talk: Seq<char>| #[trigger]
                text::ends_in(v["recentMessages"@], talk) && summarize::tells_conversation(
                    talk,
                    recent.skip(recent.len() - KEEP_RECENT),
                    c.name@,
                )
        }),
{
    let v = composed_values(c, message, entity, recent, summary, actions);
    lemma_value_names();
    let t = v["recentMessages"@];
    if recent.len() > SUMMARIZE_ABOVE && summary is Some {
        let kept = recent.skip(recent.len() - KEEP_RECENT);
        let s = summary.unwrap();
        summarize::summaries_stand_before_messages(s, kept, c.name@);
        if s.len() == 0 {
            assert(s =~= Seq::<char>::empty());
            assert(summarize::tells_conversation(t, kept, c.name@));
            assert(t.subrange(t.len() - t.len(), t.len() as int) =~= t);
            assert(text::ends_in(t, t));
        } else {
            let (head, talk) = choose|head: Seq<char>, talk: Seq<char>|
                {
                    &&& t == head + talk
                    &&& text::has(head, s)
                    &&& #[trigger] text::ends_in(head, "\n\n"@)
                    &&& #[trigger] summarize::tells_conversation(talk, kept, c.name@)
                };
            assert(t.subrange(t.len() - talk.len(), t.len() as int) =~= talk);
            assert(text::ends_in(t, talk));
        }
    } else {
        summarize::conversations_are_told(recent, c.name@);
        assert(summarize::tells_conversation(t, recent, c.name@));
    }
}

/// A state tells of the actions: a line for each, with its name and its
/// description, and a list of their names.
#[verifier::rlimit(50)]
pub proof fn actions_are_told(
    c: Character,
    message: Memory,
    entity: Option<Entity>,
    recent: Seq<Memory>,
    summary: Option<Seq<char>>,
    actions: Seq<ActionSpec>,
)
    ensures
        ({
            let v = composed_values(c, message, entity, recent, summary, actions);
            &&& v.contains_key("actions"@)
            &&& passages::spaced(
                v["actions"@],
                Seq::new(
                    actions.len(),
                    |i: int|
                        seq!['-', ' '] + actions[i].name@ + seq![':', ' ']
                            + actions[i].description@,
                ),
                "\n"@,
            )
            &&& v.contains_key("actionNames"@)
            &&& passages::spaced(
                v["actionNames"@],
                Seq::new(actions.len(), |i: int| actions[i].name@),
                ", "@,
            )
        }),
{
    let v = composed_values(c, message, entity, recent, summary, actions);
    lemma_value_names();
    reveal_strlit("- ");
    reveal_strlit(": ");
    assert("- "@ =~= seq!['-', ' ']);
    assert(": "@ =~= seq![':', ' ']);
    let described = Seq::new(
        actions.len(),
        |i: int| seq!['-', ' '] + actions[i].name@ + seq![':', ' '] + actions[i].description@,
    );
    let names = Seq::new(actions.len(), |i: int| actions[i].name@);
    assert(actions.map_values(|a: ActionSpec| action_line(a)) =~= described);
    assert(actions.map_values(|a: ActionSpec| a.name@) =~= names);
    passages::lemma_joined(described, "\n"@);
    passages::lemma_joined(names, ", "@);
}

/// A text that a provider gave is among the texts of the providers, behind the
/// provider's name.
proof fn lemma_provider_text(results: Seq<Provided>, n: nat, i: int)
    requires
        0 <= i < n <= results.len(),
        results[i].result is Some,
        results[i].result.unwrap().text is Some,
    ensures
        provider_texts(results, n).contains(
            "["@ + results[i].name@ + "]\n"@ + results[i].result.unwrap().text.unwrap()@,
        ),
    decreases n,
{
    let all = provider_texts(results, n);
    let t = "["@ + results[i].name@ + "]\n"@ + results[i].result.unwrap().text.unwrap()@;
    if i == n - 1 {
        assert(all[all.len() - 1] == t);
    } else {
        lemma_provider_text(results, (n - 1) as nat, i);
        let before = provider_texts(results, (n - 1) as nat);
        let k = choose|k: int| 0 <= k < before.len() && before[k] == t;
        assert(all[k] == t);
    }
}

/// What the providers say is told: under `providers` stands the text of each that
/// gave one, behind its name.
#[verifier::rlimit(50)]
pub proof fn providers_are_told(
    values: Map<Seq<char>, Seq<char>>,
    results: Seq<Provided>,
    after: Map<Seq<char>, Seq<char>>,
    i: int,
)
    requires
        adds_provided(values, results, after),
        0 <= i < results.len(),
        results[i].result is Some,
        results[i].result.unwrap().text is Some,
    ensures
        after.contains_key("providers"@),
        text::has(
            after["providers"@],
            seq!['['] + results[i].name@ + seq![']', '\n']
                + results[i].result.unwrap().text.unwrap()@,
        ),
{
    reveal_strlit("[");
    reveal_strlit("]\n");
    assert("["@ =~= seq!['[']);
    assert("]\n"@ =~= seq![']', '\n']);
    let t = "["@ + results[i].name@ + "]\n"@ + results[i].result.unwrap().text.unwrap()@;
    let all = provider_texts(results, results.len());
    lemma_provider_text(results, results.len(), i);
    let k = choose|k: int| 0 <= k < all.len() && all[k] == t;
    passages::lemma_joined(all, "\n\n"@);
    passages::lemma_each(after["providers"@], all, k);
}

/// What a state holds stays where the providers add to it, unless one of them adds
/// it anew.
pub proof fn values_are_kept(
    values: Map<Seq<char>, Seq<char>>,
    results: Seq<Provided>,
    after: Map<Seq<char>, Seq<char>>,
    name: Seq<char>,
)
    requires
        adds_provided(values, results, after),
        values.contains_key(name),
        name != "providers"@,
        forall|j: int|
            0 <= j < results.len() && (#[trigger] results[j]).result is Some
                ==> !results[j].result.unwrap().values@.contains_key(name),
    ensures
        after.contains_key(name),
        after[name] == values[name],
{
    lemma_values_kept(values, results, results.len(), name);
}

proof fn lemma_values_kept(
    values: Map<Seq<char>, Seq<char>>,
    results: Seq<Provided>,
    n: nat,
    name: Seq<char>,
)
    requires
        n <= results.len(),
        values.contains_key(name),
        forall|j: int|
            0 <= j < results.len() && (#[trigger] results[j]).result is Some
                ==> !results[j].result.unwrap().values@.contains_key(name),
    ensures
        with_provided(values, results, n).contains_key(name),
        with_provided(values, results, n)[name] == values[name],
    decreases n,
{
    if n > 0 {
        lemma_values_kept(values, results, (n - 1) as nat, name);
        assert(results[n - 1] == results[n - 1]);
    }
}

/// Every provider that is not private is asked, in order, and no other.
pub proof fn public_providers_are_asked(private: Seq<bool>, n: nat)
    requires
        n <= private.len() <= usize::MAX,
    ensures
        forall|i: int|
            0 <= i < n ==> (#[trigger] public_positions(private, n).contains(i as usize)
                <==> !private[i]),
        forall|p: int|
            0 <= p < public_positions(private, n).len() ==> (#[trigger] public_positions(
                private,
                n,
            )[p]) < n,
        forall|p: int, q: int|
            0 <= p < q < public_positions(private, n).len() ==> (#[trigger] public_positions(
                private,
                n,
            )[p]) < #[trigger] public_positions(private, n)[q],
    decreases n,
{
    if n > 0 {
        let m = (n - 1) as nat;
        public_providers_are_asked(private, m);
        let before = public_positions(private, m);
        let all = public_positions(private, n);
        assert forall|i: int| 0 <= i < n implies (#[trigger] all.contains(i as usize)
            <==> !private[i]) by {
            if i < m {
                assert(before.contains(i as usize) <==> !private[i]);
                if before.contains(i as usize) {
                    let k = choose|k: int| 0 <= k < before.len() && before[k] == i as usize;
                    assert(all[k] == i as usize);
                }
                if all.contains(i as usize) {
                    let k = choose|k: int| 0 <= k < all.len() && all[k] == i as usize;
                    if k < before.len() {
                        assert(before[k] == i as usize);
                    }
                }
            } else if !private[i] {
                assert(all[all.len() - 1] == i as usize);
            } else if all.contains(i as usize) {
                let k = choose|k: int| 0 <= k < all.len() && all[k] == i as usize;
                assert(before[k] < m);
            }
        }
    }
}

} // verus!
