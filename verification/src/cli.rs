//! The program at the terminal: which services it uses, what a line that is
//! typed means, and how a reply is shown.
use vstd::prelude::*;

use crate::error;
use crate::ids::{AgentId, Uuid};
use crate::models::{AnthropicProvider, ModelNames, OpenAIProvider};
use crate::passages;
use crate::text;
use crate::time;
use crate::types::{ChannelType, Entity, Room, StreamEvent, Values};

verus! {

// ---------------------------------------------------------------------------
// The choice of a model service
// ---------------------------------------------------------------------------

/// The key that is used: the one that was passed, or else that of the
/// environment, or else that among the character's secrets.
pub open spec fn chosen_key(
    passed: Option<Seq<char>>,
    environment: Option<Seq<char>>,
    secrets: Map<Seq<char>, Seq<char>>,
    name: Seq<char>,
) -> Option<Seq<char>> {
    if passed is Some {
        passed
    } else if environment is Some {
        environment
    } else if secrets.contains_key(name) {
        Some(secrets[name])
    } else {
        None
    }
}

/// A key that is passed is used whatever else there is; without one that of the
/// environment; without either that among the secrets, under its name and no other.
pub proof fn passed_keys_come_first(
    key: Seq<char>,
    environment: Option<Seq<char>>,
    other: Seq<char>,
    secrets: Map<Seq<char>, Seq<char>>,
    name: Seq<char>,
)
    ensures
        chosen_key(Some(key), environment, secrets, name) == Some(key),
        chosen_key(None, Some(other), secrets, name) == Some(other),
        chosen_key(None, None, secrets.insert(name, key), name) == Some(key),
        chosen_key(None, None, secrets.remove(name), name) is None,
{
}

/// The key that is used, if there is one.
pub fn choose_key(
    passed: &Option<String>,
    environment: &Option<String>,
    secrets: &Values,
    name: &str,
) -> (r: Option<String>)
    ensures
        text::opt_text(r) == chosen_key(
            text::opt_text(*passed),
            text::opt_text(*environment),
            secrets@,
            name@,
        ),
{
    match passed {
        Some(k) => Some(k.clone()),
        None => match environment {
            Some(k) => Some(k.clone()),
            None => match secrets.get(name) {
                Some(k) => Some(k.clone()),
                None => None,
            },
        },
    }
}

/// What is said where there is no key for Anthropic.
pub const ANTHROPIC_KEY_MISSING: &'static str =
    "ANTHROPIC_API_KEY not set — pass --api-key or set the env var";

/// What is said where there is no key for OpenAI.
pub const OPENAI_KEY_MISSING: &'static str =
    "OPENAI_API_KEY not set — pass --openai-api-key or set the env var";

/// The access to Anthropic: with other models than those in use only where both
/// are given.
pub fn anthropic_provider(
    api_key: String,
    small_model: &Option<String>,
    large_model: &Option<String>,
    in_use: ModelNames,
) -> (r: AnthropicProvider)
    ensures
        r.api_key@ == api_key@,
        match (*small_model, *large_model) {
            (Some(s), Some(l)) => r.small_model@ == s@ && r.large_model@ == l@,
            _ => r.small_model@ == in_use.small@ && r.large_model@ == in_use.large@,
        },
{
    match (small_model, large_model) {
        (Some(s), Some(l)) => AnthropicProvider::with_models(api_key, s.clone(), l.clone()),
        _ => AnthropicProvider::new(api_key, in_use),
    }
}

/// The access to OpenAI: at another address where one is given, and with other
/// models only where both are.
pub fn openai_provider(
    api_key: String,
    base_url: &Option<String>,
    small_model: &Option<String>,
    large_model: &Option<String>,
) -> (r: OpenAIProvider)
    ensures
        r.api_key@ == api_key@,
        r.base_url@ == (match *base_url {
            Some(u) => text::drop_while_end(u@, |c: char| c == '/'),
            None => crate::models::DEFAULT_BASE_URL@,
        }),
        match (*small_model, *large_model) {
            (Some(s), Some(l)) => r.small_model@ == s@ && r.large_model@ == l@,
            _ => r.small_model@ == "gpt-4o-mini"@ && r.large_model@ == "gpt-4o"@,
        },
        r.embedding_model@ == "text-embedding-3-small"@,
{
    let mut provider = OpenAIProvider::new(api_key);
    match base_url {
        Some(u) => {
            provider = provider.with_base_url(u.as_str());
        },
        None => {},
    }
    match (small_model, large_model) {
        (Some(s), Some(l)) => provider.with_models(s.clone(), l.clone()),
        _ => provider,
    }
}

// ---------------------------------------------------------------------------
// The user and the room
// ---------------------------------------------------------------------------

/// An entity with one name.
pub fn named_entity(id: Uuid, agent_id: AgentId, name: &str) -> (r: Entity)
    ensures
        r.id == id,
        r.agent_id == agent_id,
        text::texts(r.names@) == seq![name@],
        r.metadata is None,
        r.created_at is Some,
        r.created_at.unwrap().valid(),
{
    let mut names: Vec<String> = Vec::new();
    names.push(name.to_owned());
    assert(text::texts(names@) =~= seq![name@]);
    Entity { id, agent_id, names, metadata: None, created_at: Some(time::now()) }
}

/// The room of the terminal.
pub fn cli_room(id: Uuid, agent_id: AgentId) -> (r: Room)
    ensures
        r.id == id,
        r.agent_id == agent_id,
        r.source@ == "cli"@,
        r.channel_type == ChannelType::Dm,
        text::opt_text(r.name) == Some("CLI Chat"@),
        r.channel_id is None,
        r.world_id is None,
        r.metadata is None,
        r.created_at is Some,
        r.created_at.unwrap().valid(),
{
    Room {
        id,
        agent_id,
        source: "cli".to_owned(),
        channel_type: ChannelType::Dm,
        name: Some("CLI Chat".to_owned()),
        channel_id: None,
        world_id: None,
        metadata: None,
        created_at: Some(time::now()),
    }
}

// ---------------------------------------------------------------------------
// The conversation
// ---------------------------------------------------------------------------

/// What a line that is typed means.
pub enum Input {
    /// Nothing.
    Blank,
    /// The end.
    Quit,
    /// A message.
    Message(String),
}

/// The text asks for the end.
pub open spec fn asks_to_quit(s: Seq<char>) -> bool {
    s == "exit"@ || s == "quit"@ || s == "/quit"@
}

/// What a line that is typed means.
pub fn read_line(line: &str) -> (r: Input)
    ensures
        ({
            let s = text::trimmed(line@);
            match r {
                Input::Blank => s.len() == 0,
                Input::Quit => asks_to_quit(s) && s.len() > 0,
                Input::Message(m) => m@ == s && s.len() > 0 && !asks_to_quit(s),
            }
        }),
{
    let input = text::trim(line);
    if input.as_str().unicode_len() == 0 {
        Input::Blank
    } else if text::same(input.as_str(), "exit") || text::same(input.as_str(), "quit")
        || text::same(input.as_str(), "/quit") {
        Input::Quit
    } else {
        Input::Message(input)
    }
}

/// How far a reply has been shown.
pub struct ReplyView {
    pub agent_name: String,
    pub got_token: bool,
}

/// What is printed for a step of a reply.
pub struct Printed {
    /// On the standard output.
    pub out: String,
    /// On the standard error output.
    pub err: String,
    /// The reply is over.
    pub last: bool,
}

/// What is printed at the end of a reply: its text where none of it was printed
/// yet, or that there is none.
pub open spec fn end_of_reply(
    name: Seq<char>,
    got_token: bool,
    full_text: Seq<char>,
) -> Seq<char> {
    if got_token {
        "\n\n"@
    } else if full_text.len() > 0 {
        full_text + "\n\n"@
    } else {
        "("@ + name + " chose not to respond)"@ + "\n\n"@
    }
}

/// This is printed for a step of a reply.
pub open spec fn shows(before: ReplyView, event: StreamEvent, after: ReplyView, r: Printed) -> bool {
    &&& after.agent_name == before.agent_name
    &&& after.got_token == (before.got_token || event is Token)
    &&& match event {
        StreamEvent::Token(t) => r.out@ == t@ && r.err@.len() == 0 && !r.last,
        StreamEvent::Done { full_text } => r.out@ == end_of_reply(
            before.agent_name@,
            before.got_token,
            full_text@,
        ) && r.err@.len() == 0 && r.last,
        StreamEvent::Error(e) => r.out@.len() == 0 && r.err@ == "\nStream error: "@ + e@ + "\n"@
            && r.last,
    }
}

/// A reply is printed once, with an empty line behind it, whether it comes in pieces or as
/// a whole: of a reply of which pieces were printed nothing is printed again at its end.
pub proof fn replies_are_printed_once(
    fresh: ReplyView,
    token: StreamEvent,
    shown: ReplyView,
    p: Printed,
    done: StreamEvent,
    over: ReplyView,
    q: Printed,
    whole: ReplyView,
    w: Printed,
)
    requires
        !fresh.got_token,
        token is Token,
        done is Done,
        done->full_text@ == token->Token_0@,
        done->full_text@.len() > 0,
        shows(fresh, token, shown, p),
        shows(shown, done, over, q),
        shows(fresh, done, whole, w),
    ensures
        p.out@ + q.out@ == done->full_text@ + seq!['\n', '\n'],
        w.out@ == done->full_text@ + seq!['\n', '\n'],
        p.err@.len() == 0 && q.err@.len() == 0 && w.err@.len() == 0,
        !p.last && q.last && w.last,
{
    reveal_strlit("\n\n");
    assert("\n\n"@ =~= seq!['\n', '\n']);
}

/// Where nothing comes of a reply, it is printed who chose not to respond; and a failure is
/// printed as an error, and as nothing else.
pub proof fn silence_and_failure_are_told(
    fresh: ReplyView,
    done: StreamEvent,
    over: ReplyView,
    p: Printed,
    error: StreamEvent,
    broken: ReplyView,
    q: Printed,
)
    requires
        !fresh.got_token,
        done is Done && done->full_text@.len() == 0,
        error is Error,
        shows(fresh, done, over, p),
        shows(fresh, error, broken, q),
    ensures
        text::has(p.out@, fresh.agent_name@) && p.last,
        text::has(q.err@, error->Error_0@) && q.out@.len() == 0 && q.last,
{
    let name = fresh.agent_name@;
    let tail = " chose not to respond)"@ + "\n\n"@;
    passages::lemma_stands("("@, name, tail);
    assert("("@ + name + tail =~= p.out@);
    passages::lemma_stands("\nStream error: "@, error->Error_0@, "\n"@);
}

impl ReplyView {
    /// What is printed before a reply.
    pub fn begin(agent_name: &str) -> (r: (Self, String))
        ensures
            r.0.agent_name@ == agent_name@,
            !r.0.got_token,
            r.1@ == "\n"@ + agent_name@ + " > "@,
    {
        let mut head = error::prefixed("\n", agent_name);
        head.append(" > ");
        (ReplyView { agent_name: agent_name.to_owned(), got_token: false }, head)
    }

    /// What is printed for a step of the reply.
    pub fn show(&mut self, event: &StreamEvent) -> (r: Printed)
        ensures
            shows(*old(self), *event, *final(self), r),
    {
        match event {
            StreamEvent::Token(t) => {
                self.got_token = true;
                Printed { out: t.clone(), err: String::new(), last: false }
            },
            StreamEvent::Done { full_text } => {
                let mut out = String::new();
                if !self.got_token {
                    if full_text.as_str().unicode_len() > 0 {
                        out = full_text.clone();
                    } else {
                        out = error::prefixed("(", self.agent_name.as_str());
                        out.append(" chose not to respond)");
                    }
                }
                let ghost head = out@;
                out.append("\n\n");
                assert(self.got_token ==> head + "\n\n"@ =~= "\n\n"@);
                Printed { out, err: String::new(), last: true }
            },
            StreamEvent::Error(e) => {
                let mut err = error::prefixed("\nStream error: ", e.as_str());
                err.append("\n");
                Printed { out: String::new(), err, last: true }
            },
        }
    }
}

} // verus!
