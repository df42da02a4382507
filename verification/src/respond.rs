//! Whether to respond, what the model is asked, and what is read in its answer.
use vstd::prelude::*;

use crate::number;
use crate::outside;
use crate::passages;
use crate::patterns;
use crate::patterns::{Class, Found, Pattern};
use crate::planner;
use crate::template;
use crate::text;
use crate::types::{ChannelType, Content, GenerateTextParams, ModelType, Room, Values};

verus! {

pub const SYSTEM_PROMPT_TEMPLATE: &'static str = r#"You are {{agentName}}.
{{#if system}}{{system}}{{/if}}

# About {{agentName}}:
{{bio}}

{{#if lore}}# Backstory:
{{lore}}
{{/if}}
{{#if knowledge}}# Knowledge:
{{knowledge}}
{{/if}}
{{#if topics}}# Topics of interest: {{topics}}{{/if}}
{{#if adjectives}}# Personality traits: {{adjectives}}{{/if}}

{{#if styleAll}}# Communication style:
{{styleAll}}
{{/if}}
{{#if styleChat}}# Chat style:
{{styleChat}}
{{/if}}
{{#if messageExamples}}# Example conversations:
{{messageExamples}}
{{/if}}"#;

pub const USER_PROMPT_TEMPLATE: &'static str = r#"{{#if providers}}# Context:
{{providers}}
{{/if}}
{{#if recentMessages}}# Recent conversation:
{{recentMessages}}
{{/if}}
{{#if actions}}# Available actions:
{{actions}}

When you want to take an action, include it in your response like: [ACTION_NAME]
Available actions: {{actionNames}}
{{/if}}
# Current message from {{senderName}}:
{{currentMessage}}

Respond as {{agentName}}.{{#if messageDirections}} {{messageDirections}}{{/if}}"#;

pub const SHOULD_RESPOND_TEMPLATE: &'static str =
    r#"# INSTRUCTIONS: Determine if {{agentName}} should respond to the message.

{{#if bio}}About {{agentName}}:
{{bio}}
{{/if}}

{{#if recentMessages}}# Recent conversation:
{{recentMessages}}
{{/if}}

# Current message from {{senderName}}:
{{currentMessage}}

Should {{agentName}} respond to this message? Consider:
- Is the message directed at {{agentName}}?
- Is it a direct message (always respond)?
- Would a response be natural and helpful?

Respond with ONLY one of: [RESPOND], [IGNORE], [STOP]"#;

// ---------------------------------------------------------------------------
// Whether to respond
// ---------------------------------------------------------------------------

/// The message is in a direct channel, or names the agent: `text` and `name`
/// are the message and the agent's name in small letters.
pub open spec fn addressed(
    channel: Option<ChannelType>,
    text: Option<Seq<char>>,
    name: Seq<char>,
) -> bool {
    channel == Some(ChannelType::Dm) || (text is Some && text::has(text.unwrap(), name))
}

/// Whether the message is in a direct channel, or names the agent.
pub fn is_addressed(channel: Option<ChannelType>, lower_text: &Option<String>, lower_name: &str) -> (r:
    bool)
    ensures
        r == addressed(channel, text::opt_text(*lower_text), lower_name@),
{
    match channel {
        Some(c) => {
            if c == ChannelType::Dm {
                return true;
            }
        },
        None => {},
    }
    match lower_text {
        Some(t) => text::contains(t.as_str(), lower_name),
        None => false,
    }
}

/// The channel type of a room that is known.
pub open spec fn channel_of(room: Option<Room>) -> Option<ChannelType> {
    match room {
        Some(r) => Some(r.channel_type),
        None => None,
    }
}

/// What `o` becomes in small letters.
pub open spec fn opt_lowercase(o: Option<String>) -> Option<Seq<char>> {
    match o {
        Some(s) => Some(outside::lowercase(s@)),
        None => None,
    }
}

/// Whether the agent responds without asking the model: to every message in a
/// direct channel, and where its name stands in the message, whatever the case
/// of the letters.
pub fn responds_at_once(room: &Option<Room>, message: &Option<String>, agent_name: &str) -> (r: bool)
    ensures
        r == addressed(channel_of(*room), opt_lowercase(*message), outside::lowercase(agent_name@)),
{
    let channel = match room {
        Some(r) => Some(r.channel_type),
        None => None,
    };
    let lower_name = outside::to_lowercase(agent_name);
    let lower_text = match message {
        Some(s) => Some(outside::to_lowercase(s.as_str())),
        None => None,
    };
    is_addressed(channel, &lower_text, lower_name.as_str())
}

/// The model is asked whether to respond.
pub open spec fn asks_for_decision(
    r: GenerateTextParams,
    agent_name: Seq<char>,
    values: Map<Seq<char>, Seq<char>>,
) -> bool {
    r.asks(
        ModelType::TextSmall,
        "You are a response decision engine for "@ + agent_name
            + ". Respond with ONLY [RESPOND], [IGNORE], or [STOP]."@,
        template::rendered(SHOULD_RESPOND_TEMPLATE@, values),
        10,
        number::POINT_3,
    )
}

/// What the model is asked to decide whether to respond.
pub fn should_respond_params(agent_name: &str, values: &Values) -> (r: GenerateTextParams)
    ensures
        asks_for_decision(r, agent_name@, values@),
{
    let prompt = template::render(SHOULD_RESPOND_TEMPLATE, values);
    let mut system = "You are a response decision engine for ".to_owned();
    system.append(agent_name);
    system.append(". Respond with ONLY [RESPOND], [IGNORE], or [STOP].");
    GenerateTextParams::new(ModelType::TextSmall, system, prompt, 10, number::POINT_3)
}

/// An answer in capital letters says to respond.
pub open spec fn is_yes(upper: Seq<char>) -> bool {
    text::has(upper, "RESPOND"@)
}

/// Whether a model's answer in capital letters says to respond.
pub fn says_respond(upper: &str) -> (r: bool)
    ensures
        r == is_yes(upper@),
{
    text::contains(upper, "RESPOND")
}

/// Whether a model's answer says to respond.
pub fn decides_to_respond(response: &str) -> (r: bool)
    ensures
        r == is_yes(outside::uppercase(response@)),
{
    says_respond(outside::to_uppercase(response).as_str())
}

// ---------------------------------------------------------------------------
// The response
// ---------------------------------------------------------------------------

/// The model is asked for a response.
pub open spec fn asks_for_response(
    r: GenerateTextParams,
    values: Map<Seq<char>, Seq<char>>,
) -> bool {
    r.asks(
        ModelType::TextLarge,
        template::rendered(SYSTEM_PROMPT_TEMPLATE@, values),
        template::rendered(USER_PROMPT_TEMPLATE@, values),
        2048,
        number::POINT_7,
    )
}

/// What the model is asked for the response.
pub fn response_params(values: &Values) -> (r: GenerateTextParams)
    ensures
        asks_for_response(r, values@),
{
    let system = template::render(SYSTEM_PROMPT_TEMPLATE, values);
    let user = template::render(USER_PROMPT_TEMPLATE, values);
    GenerateTextParams::new(ModelType::TextLarge, system, user, 2048, number::POINT_7)
}

/// A name in a tag that is an action, and not an answer to whether to respond.
pub open spec fn real_action(name: Seq<char>) -> bool {
    name != "RESPOND"@ && name != "IGNORE"@ && name != "STOP"@
}

/// The actions that a response names in tags, in order.
pub open spec fn actions_in(response: Seq<char>) -> Seq<Seq<char>> {
    patterns::group_texts(Pattern::ActionTag.matches(response, 0), 1).filter(
        |n: Seq<char>| real_action(n),
    )
}

/// A response without its action tags and without white space at its ends.
pub open spec fn clean_text(response: Seq<char>) -> Seq<char> {
    text::trimmed(patterns::concat(Pattern::ActionTag.gaps(response, 0, 0)))
}

/// The names among the first groups of matches that are actions.
pub fn real_actions(matches: &Vec<Vec<Option<String>>>) -> (r: Vec<String>)
    requires
        patterns::all_take_part(patterns::groups_of(matches@), 2),
    ensures
        text::texts(r@) == patterns::group_texts(patterns::groups_of(matches@), 1).filter(
            |n: Seq<char>| real_action(n),
        ),
{
    let ghost m = patterns::groups_of(matches@);
    let ghost names = patterns::group_texts(m, 1);
    let ghost p = |n: Seq<char>| real_action(n);
    let mut out: Vec<String> = Vec::new();
    let mut i: usize = 0;
    proof {
        reveal(Seq::filter);
        assert(text::texts(out@) =~= names.take(0).filter(p));
    }
    while i < matches.len()
        invariant
            i <= matches@.len(),
            m == patterns::groups_of(matches@),
            patterns::all_take_part(m, 2),
            names == patterns::group_texts(m, 1),
            p == (|n: Seq<char>| real_action(n)),
            text::texts(out@) == names.take(i as int).filter(p),
        decreases matches.len() - i,
    {
        proof {
            reveal(Seq::filter);
            assert(m[i as int].len() == 2);
            assert(m[i as int][1] is Some);
            assert(names.take(i + 1).drop_last() =~= names.take(i as int));
            assert(names.take(i + 1).last() == names[i as int]);
        }
        match &matches[i][1] {
            Some(name) => {
                assert(names[i as int] == name@);
                let n = name.as_str();
                if !text::same(n, "RESPOND") && !text::same(n, "IGNORE") && !text::same(n, "STOP") {
                    let ghost before = out@;
                    out.push(name.clone());
                    assert(text::texts(out@) =~= text::texts(before).push(name@));
                }
            },
            None => {
                assert(false);
            },
        }
        i = i + 1;
    }
    assert(names.take(matches@.len() as int) =~= names);
    out
}

/// The texts one after the other.
fn concat(parts: &Vec<String>) -> (r: String)
    ensures
        r@ == patterns::concat(text::texts(parts@)),
{
    let ghost all = text::texts(parts@);
    let mut out = String::new();
    let mut k: usize = 0;
    assert(out@ =~= patterns::concat(all.take(0)));
    while k < parts.len()
        invariant
            k <= parts@.len() == all.len(),
            all == text::texts(parts@),
            out@ == patterns::concat(all.take(k as int)),
        decreases parts.len() - k,
    {
        proof {
            assert(all.take(k + 1).drop_last() =~= all.take(k as int));
            assert(all.take(k + 1).last() == parts@[k as int]@);
        }
        out.append(parts[k].as_str());
        k = k + 1;
    }
    assert(all.take(all.len() as int) =~= all);
    out
}

/// Splits a response into its text without action tags and the actions that the
/// tags name.
pub fn extract_actions(response: &str) -> (r: (String, Vec<String>))
    ensures
        r.0@ == clean_text(response@),
        text::texts(r.1@) == actions_in(response@),
{
    proof {
        assert(Pattern::ActionTag.source() == patterns::ACTION_TAG@);
    }
    let matches = outside::regex_captures(patterns::ACTION_TAG, response);
    let gaps = outside::regex_split(patterns::ACTION_TAG, response);
    proof {
        let m = patterns::groups_of(matches@);
        assert(m == Pattern::ActionTag.matches(response@, 0));
        assert forall|k: int| 0 <= k < m.len() implies (#[trigger] m[k]).len() == 2 && forall|
            g: int,
        |
            0 <= g < 2 ==> (#[trigger] m[k][g]) is Some by {
            patterns::lemma_all_take_part(Pattern::ActionTag, response@, 0, k);
        }
    }
    let actions = real_actions(&matches);
    let rest = concat(&gaps);
    (text::trim(rest.as_str()), actions)
}

/// Text without an opening bracket names no action, and stays as it is but for the
/// white space at its ends.
pub proof fn untagged_text_stays(s: Seq<char>)
    requires
        !s.contains('['),
    ensures
        actions_in(s).len() == 0,
        clean_text(s) == text::trimmed(s),
{
    assert forall|j: int| 0 <= j < s.len() implies (#[trigger] Pattern::ActionTag.at(s, j)) is None by {
        lemma_tag_opens(s, j);
        assert(s[j] != '[');
    }
    patterns::lemma_no_match(Pattern::ActionTag, s, 0, 0);
    reveal(Seq::filter);
    reveal_with_fuel(patterns::concat, 2);
    assert(seq![s.subrange(0, s.len() as int)].drop_last() =~= Seq::<Seq<char>>::empty());
    assert(patterns::concat(seq![s.subrange(0, s.len() as int)]) =~= s);
}

/// An action tag begins with a bracket.
proof fn lemma_tag_opens(s: Seq<char>, j: int)
    requires
        0 <= j < s.len(),
    ensures
        Pattern::ActionTag.at(s, j) is Some ==> s[j] == '[',
{
    reveal(Pattern::at);
    if text::occurs_at(s, seq!['['], j) {
        assert(s.subrange(j, j + 1)[0] == '[');
    }
}

/// A name in brackets, in text that has no other bracket, is the one action, and
/// the text stays without it.
#[verifier::rlimit(50)]
pub proof fn tag_is_taken_out(before: Seq<char>, name: Seq<char>, behind: Seq<char>)
    requires
        !before.contains('['),
        !behind.contains('['),
        name.len() > 0,
        forall|i: int| 0 <= i < name.len() ==> patterns::tag_char(#[trigger] name[i]),
        real_action(name),
    ensures
        actions_in(before + seq!['['] + name + seq![']'] + behind) == seq![name],
        clean_text(before + seq!['['] + name + seq![']'] + behind) == text::trimmed(
            before + behind,
        ),
{
    let s = before + seq!['['] + name + seq![']'] + behind;
    let k = before.len() as int;
    let e = k + 1 + name.len();
    assert(s[k] == '[' && s[e] == ']');
    assert forall|j: int| k + 1 <= j < e implies Class::Tag.holds(#[trigger] s[j]) by {
        assert(s[j] == name[j - k - 1]);
    }
    patterns::lemma_run_end(s, k + 1, e, Class::Tag);
    let f = Found { end: e + 1, groups: seq![Some(name)] };
    assert(Pattern::ActionTag.at(s, k) == Some(f)) by {
        reveal(Pattern::at);
        assert(s.subrange(k, k + 1) =~= seq!['[']);
        assert(s.subrange(e, e + 1) =~= seq![']']);
        assert(s.subrange(k + 1, e) =~= name);
    }
    assert forall|j: int| 0 <= j < k implies (#[trigger] Pattern::ActionTag.at(s, j)) is None by {
        lemma_tag_opens(s, j);
        assert(s[j] == before[j]);
    }
    assert forall|j: int| f.end <= j < s.len() implies (#[trigger] Pattern::ActionTag.at(
        s,
        j,
    )) is None by {
        lemma_tag_opens(s, j);
        assert(s[j] == behind[j - f.end]);
    }
    patterns::lemma_one_match(Pattern::ActionTag, s, 0, 0, k, f);
    let m = Pattern::ActionTag.matches(s, 0);
    let names = patterns::group_texts(m, 1);
    assert((seq![Some(s.subrange(k, f.end))] + f.groups)[1] == Some(name));
    assert(names =~= seq![name]);
    assert(actions_in(s) =~= seq![name]) by {
        reveal(Seq::filter);
        reveal_with_fuel(Seq::filter, 2);
        assert(names.drop_last() =~= Seq::<Seq<char>>::empty());
    }
    let gaps = Pattern::ActionTag.gaps(s, 0, 0);
    assert(s.subrange(0, k) =~= before);
    assert(s.subrange(f.end, s.len() as int) =~= behind);
    assert(gaps == seq![before, behind]);
    reveal_with_fuel(patterns::concat, 3);
    assert(gaps.drop_last() =~= seq![before]);
    assert(gaps.drop_last().drop_last() =~= Seq::<Seq<char>>::empty());
    assert(patterns::concat(gaps) =~= before + behind);
}

/// The content is that of a response: its text, and its actions where it has any.
pub open spec fn is_content_of(r: Content, response: Seq<char>) -> bool {
    r.is(
        Some(clean_text(response)),
        if actions_in(response).len() == 0 {
            None
        } else {
            Some(actions_in(response))
        },
        None,
    )
}

/// The content of a response: its text, and its actions where it has any.
pub fn response_content(response: &str) -> (r: Content)
    ensures
        is_content_of(r, response@),
{
    let (clean, actions) = extract_actions(response);
    let mut c = Content::default();
    assert(text::texts(actions@).len() == actions@.len());
    c.text = Some(clean);
    if actions.len() > 0 {
        c.actions = Some(actions);
    }
    c
}

// ---------------------------------------------------------------------------
// Plans
// ---------------------------------------------------------------------------

/// What the model is asked for a plan of actions.
pub fn plan_params(values: &Values) -> (r: GenerateTextParams)
    ensures
        r.asks(
            ModelType::TextSmall,
            "You are an action planning engine. Respond ONLY with a JSON array of action steps."@,
            template::rendered(planner::ACTION_PLANNER_TEMPLATE@, values@),
            512,
            number::POINT_3,
        ),
{
    let prompt = template::render(planner::ACTION_PLANNER_TEMPLATE, values);
    GenerateTextParams::new(
        ModelType::TextSmall,
        "You are an action planning engine. Respond ONLY with a JSON array of action steps.".to_owned(),
        prompt,
        512,
        number::POINT_3,
    )
}

/// The first position of `c` in `s`.
pub open spec fn first_char(s: Seq<char>, c: char) -> Option<int> {
    text::first_at(s, seq![c], 0)
}

/// The last position of `c` in `s`.
pub open spec fn last_char(s: Seq<char>, c: char) -> Option<int> {
    text::last_at(s, seq![c], s.len() as int)
}

/// What stands from the first `open` to the last `close` in a text without the
/// white space at its ends; nothing where one of them is missing.
pub open spec fn bracketed(s: Seq<char>, open: char, close: char) -> Option<Seq<char>> {
    let t = text::trimmed(s);
    match (first_char(t, open), last_char(t, close)) {
        (Some(a), Some(b)) => Some(t.subrange(a, b + 1)),
        _ => None,
    }
}

/// The first `open` of the trimmed text does not stand behind its last `close`
/// by more than one place.
pub open spec fn brackets_in_order(s: Seq<char>, open: char, close: char) -> bool {
    let t = text::trimmed(s);
    match (first_char(t, open), last_char(t, close)) {
        (Some(a), Some(b)) => a <= b + 1,
        _ => true,
    }
}

/// Where the outermost brackets stand in a trimmed text.
pub fn bracket_span(t: &Vec<char>, open: char, close: char) -> (r: Option<(usize, usize)>)
    ensures
        match r {
            Some((a, b)) => first_char(t@, open) == Some(a as int) && last_char(t@, close) == Some(
                b as int,
            ) && a < t.len() && b < t.len(),
            None => first_char(t@, open) is None || last_char(t@, close) is None,
        },
{
    let mut o: Vec<char> = Vec::new();
    o.push(open);
    let mut c: Vec<char> = Vec::new();
    c.push(close);
    assert(o@ =~= seq![open]);
    assert(c@ =~= seq![close]);
    match text::find_in(t, &o, 0) {
        Some(a) => match text::rfind_in(t, &c) {
            Some(b) => Some((a, b)),
            None => None,
        },
        None => None,
    }
}

/// Whether the text can be cut at its outermost brackets.
pub fn brackets_ok(s: &str, open: char, close: char) -> (r: bool)
    ensures
        r == brackets_in_order(s@, open, close),
{
    let t = text::chars_of(text::trim(s).as_str());
    match bracket_span(&t, open, close) {
        Some((a, b)) => a <= b + 1,
        None => true,
    }
}

/// What stands from the first `open` to the last `close`.
pub fn bracketed_part(s: &str, open: char, close: char) -> (r: Option<String>)
    requires
        brackets_in_order(s@, open, close),
    ensures
        text::opt_text(r) == bracketed(s@, open, close),
{
    let t = text::chars_of(text::trim(s).as_str());
    match bracket_span(&t, open, close) {
        Some((a, b)) => Some(text::text_between(&t, a, b + 1)),
        None => None,
    }
}

/// The JSON array that a model's answer holds; an empty one where it holds
/// none.
pub fn json_array_part(response: &str) -> (r: String)
    requires
        brackets_in_order(response@, '[', ']'),
    ensures
        r@ == (match bracketed(response@, '[', ']') {
            Some(s) => s,
            None => "[]"@,
        }),
{
    match bracketed_part(response, '[', ']') {
        Some(s) => s,
        None => "[]".to_owned(),
    }
}

// ---------------------------------------------------------------------------
// What responses are taken for
// ---------------------------------------------------------------------------

/// A message in a direct channel is answered at once, and so is one that holds the
/// agent's name; any other is not.
pub proof fn addressed_messages_are_answered(
    room: Option<Room>,
    text: Option<Seq<char>>,
    name: Seq<char>,
    before: Seq<char>,
    behind: Seq<char>,
)
    ensures
        room is Some && room.unwrap().channel_type == ChannelType::Dm ==> addressed(
            channel_of(room),
            text,
            name,
        ),
        addressed(channel_of(room), Some(before + name + behind), name),
        (room is None || room.unwrap().channel_type != ChannelType::Dm) && (text is None
            || !text::has(text.unwrap(), name)) ==> !addressed(channel_of(room), text, name),
{
    passages::lemma_stands(before, name, behind);
}

/// An answer that holds the word for a response is a yes, and the two other answers
/// that the model may give are none.
#[verifier::rlimit(50)]
pub proof fn answers_are_understood(before: Seq<char>, behind: Seq<char>)
    ensures
        is_yes(before + "[RESPOND]"@ + behind),
        is_yes(before + "RESPOND"@ + behind),
        !is_yes("[IGNORE]"@),
        !is_yes("[STOP]"@),
{
    let yes = "RESPOND"@;
    passages::lemma_stands(before, yes, behind);
    assert(is_yes(before + "[RESPOND]"@ + behind)) by {
        assert("[RESPOND]"@ =~= seq!['['] + yes + seq![']']) by {
            reveal_strlit("[RESPOND]");
            reveal_strlit("RESPOND");
        }
        passages::lemma_stands(seq!['['], yes, seq![']']);
        passages::lemma_has(before, "[RESPOND]"@, behind, yes);
    }
    lemma_no(yes, "[IGNORE]"@);
    lemma_no(yes, "[STOP]"@);
}

/// The answers that are no yes.
proof fn lemma_no(yes: Seq<char>, no: Seq<char>)
    requires
        yes == "RESPOND"@,
        no == "[IGNORE]"@ || no == "[STOP]"@,
    ensures
        !text::has(no, yes),
{
    reveal_strlit("RESPOND");
    reveal_strlit("[IGNORE]");
    reveal_strlit("[STOP]");
    assert(yes.len() == 7 && yes[0] == 'R');
    assert(no.len() <= 8 && no[0] == '[' && (no.len() == 8 ==> no[1] == 'I'));
    assert forall|i: int| !#[trigger] text::occurs_at(no, yes, i) by {
        if text::occurs_at(no, yes, i) {
            assert(no.subrange(i, i + 7)[0] == no[i]);
        }
    }
}

/// The content of a response without a bracket is its text, without white space at its
/// ends, and names no action; a tag in it names its one action, and does not stand in
/// its text.
pub proof fn responses_are_read(
    c: Content,
    plain: Seq<char>,
    d: Content,
    before: Seq<char>,
    name: Seq<char>,
    behind: Seq<char>,
)
    requires
        is_content_of(c, plain),
        !plain.contains('['),
        is_content_of(d, before + seq!['['] + name + seq![']'] + behind),
        !before.contains('['),
        !behind.contains('['),
        name.len() > 0,
        forall|i: int| 0 <= i < name.len() ==> patterns::tag_char(#[trigger] name[i]),
        name != "RESPOND"@ && name != "IGNORE"@ && name != "STOP"@,
    ensures
        c.text is Some,
        c.text.unwrap()@ == text::trimmed(plain),
        c.actions is None,
        d.text is Some,
        d.text.unwrap()@ == text::trimmed(before + behind),
        d.actions is Some,
        text::texts(d.actions.unwrap()@) == seq![name],
{
    untagged_text_stays(plain);
    tag_is_taken_out(before, name, behind);
}

/// An array that stands in an answer without other brackets is what is taken of it.
pub proof fn arrays_are_taken_out(before: Seq<char>, inside: Seq<char>, behind: Seq<char>)
    requires
        !before.contains('['),
        !behind.contains(']'),
        text::trimmed(before + seq!['['] + inside + seq![']'] + behind) == before + seq!['[']
            + inside + seq![']'] + behind,
    ensures
        brackets_in_order(before + seq!['['] + inside + seq![']'] + behind, '[', ']'),
        bracketed(before + seq!['['] + inside + seq![']'] + behind, '[', ']') == Some(
            seq!['['] + inside + seq![']'],
        ),
{
    let t = before + seq!['['] + inside + seq![']'] + behind;
    let a = before.len() as int;
    let b = a + 1 + inside.len();
    let o = seq!['['];
    let c = seq![']'];
    assert(t.subrange(a, a + 1) =~= o);
    assert forall|j: int| 0 <= j < a implies !#[trigger] text::occurs_at(t, o, j) by {
        if text::occurs_at(t, o, j) {
            assert(t.subrange(j, j + 1)[0] == before[j]);
            assert(before.contains(before[j]));
        }
    }
    text::lemma_first_at_is(t, o, 0, a);
    assert(t.subrange(b, b + 1) =~= c);
    lemma_last(t, c, b, t.len() as int);
    assert(t.subrange(a, b + 1) =~= o + inside + c);
}

/// The last position of a text where no later one holds it.
pub proof fn lemma_last(t: Seq<char>, c: Seq<char>, b: int, to: int)
    requires
        0 <= b <= to <= t.len(),
        text::occurs_at(t, c, b),
        c.len() == 1,
        forall|j: int| b < j < t.len() ==> #[trigger] t[j] != c[0],
    ensures
        text::last_at(t, c, to) == Some(b),
    decreases to,
{
    if to > b {
        if text::occurs_at(t, c, to) {
            assert(t.subrange(to, to + 1)[0] == t[to]);
        }
        lemma_last(t, c, b, to - 1);
    }
}

} // verus!
