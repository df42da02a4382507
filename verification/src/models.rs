//! The model services: which model is asked, what a request holds, and what is
//! read in a reply.
use vstd::prelude::*;

use crate::error;
use crate::error::RustlizaError;
use crate::lines;
use crate::passages;
use crate::text;
use crate::types::{GenerateTextParams, ModelType};

verus! {

/// A copy of texts.
pub fn copy_texts(v: &Vec<String>) -> (r: Vec<String>)
    ensures
        text::texts(r@) == text::texts(v@),
{
    let ghost all = text::texts(v@);
    let mut out: Vec<String> = Vec::new();
    let mut i: usize = 0;
    assert(text::texts(out@) =~= all.take(0));
    while i < v.len()
        invariant
            i <= v@.len() == all.len(),
            all == text::texts(v@),
            text::texts(out@) == all.take(i as int),
        decreases v.len() - i,
    {
        let ghost before = out@;
        out.push(v[i].clone());
        proof {
            assert(text::texts(out@) =~= text::texts(before).push(all[i as int]));
            assert(all.take(i + 1) =~= all.take(i as int).push(all[i as int]));
        }
        i = i + 1;
    }
    assert(all.take(all.len() as int) =~= all);
    out
}

/// The model for a kind of task, of a small and a large one.
pub open spec fn model_of(small: Seq<char>, large: Seq<char>, t: ModelType) -> Seq<char> {
    match t {
        ModelType::TextSmall | ModelType::TextEmbedding => small,
        ModelType::TextLarge | ModelType::ImageDescription => large,
    }
}

/// The error for a reply with a status that is no success: what the service says
/// of it, or else the whole reply.
pub open spec fn status_error(
    what: Seq<char>,
    status: Seq<char>,
    said: Option<Seq<char>>,
    body: Seq<char>,
) -> Seq<char> {
    what + " error ("@ + status + "): "@ + (match said {
        Some(m) => m,
        None => body,
    })
}

/// The error for a reply with a status that is no success.
pub fn api_error(what: &str, status: &str, said: &Option<String>, body: &str) -> (r: RustlizaError)
    ensures
        r is ModelProvider,
        r->ModelProvider_0@ == status_error(what@, status@, text::opt_text(*said), body@),
{
    let mut out = what.to_owned();
    out.append(" error (");
    out.append(status);
    out.append("): ");
    match said {
        Some(m) => out.append(m.as_str()),
        None => out.append(body),
    }
    RustlizaError::ModelProvider(out)
}

/// What went wrong in an exchange with a service.
#[derive(Clone, Copy, Debug, PartialEq, Eq, Structural)]
pub enum Trouble {
    Request,
    StreamRequest,
    EmbeddingRequest,
    ReadReply,
    ParseReply,
    ParseEmbedding,
}

impl Trouble {
    /// The words for it.
    pub open spec fn words(self) -> Seq<char> {
        match self {
            Trouble::Request => "request failed: "@,
            Trouble::StreamRequest => "stream request failed: "@,
            Trouble::EmbeddingRequest => "embedding request failed: "@,
            Trouble::ReadReply => "failed to read response: "@,
            Trouble::ParseReply => "failed to parse response: "@,
            Trouble::ParseEmbedding => "failed to parse embedding: "@,
        }
    }

    /// The error for it.
    pub fn error(&self, why: &str) -> (r: RustlizaError)
        ensures
            r is ModelProvider,
            r->ModelProvider_0@ == self.words() + why@,
    {
        let head = match self {
            Trouble::Request => "request failed: ",
            Trouble::StreamRequest => "stream request failed: ",
            Trouble::EmbeddingRequest => "embedding request failed: ",
            Trouble::ReadReply => "failed to read response: ",
            Trouble::ParseReply => "failed to parse response: ",
            Trouble::ParseEmbedding => "failed to parse embedding: ",
        };
        RustlizaError::ModelProvider(error::prefixed(head, why))
    }
}

/// A message of a conversation with a model.
#[derive(Clone, Debug)]
pub struct ChatMessage {
    pub role: String,
    pub content: String,
}

/// The message says this.
pub open spec fn says(m: ChatMessage, role: Seq<char>, content: Seq<char>) -> bool {
    m.role@ == role && m.content@ == content
}

// ---------------------------------------------------------------------------
// Anthropic
// ---------------------------------------------------------------------------

pub const MESSAGES_API_URL: &'static str = "https://api.anthropic.com/v1/messages";

pub const ANTHROPIC_VERSION: &'static str = "2023-06-01";

pub const ANTHROPIC_BETA: &'static str = "prompt-caching-2024-07-31";

/// The dimensions of the embeddings that stand in for real ones.
pub const ANTHROPIC_DIMENSIONS: usize = 384;

/// The names of a small and a large model.
#[derive(Clone, Debug)]
pub struct ModelNames {
    pub small: String,
    pub large: String,
}

/// The access to Anthropic's models.
#[derive(Clone, Debug)]
pub struct AnthropicProvider {
    pub api_key: String,
    pub small_model: String,
    pub large_model: String,
}

/// A request for text.
#[derive(Clone, Debug)]
pub struct MessagesRequest {
    pub model: String,
    pub max_tokens: u32,
    /// The sampling temperature, by its IEEE 754 bit pattern.
    pub temperature: Option<u32>,
    /// The system prompt, which the service is to cache.
    pub system: Option<String>,
    pub messages: Vec<ChatMessage>,
    pub stop_sequences: Vec<String>,
    pub stream: Option<bool>,
}

/// A part of a reply.
#[derive(Clone, Debug)]
pub struct ContentBlock {
    pub block_type: String,
    pub text: String,
}

/// The texts of the blocks that are text.
pub open spec fn block_texts(blocks: Seq<ContentBlock>) -> Seq<Seq<char>> {
    blocks.filter(|b: ContentBlock| b.block_type@ == "text"@).map_values(
        |b: ContentBlock| b.text@,
    )
}

impl AnthropicProvider {
    /// Access with the models in use.
    pub fn new(api_key: String, in_use: ModelNames) -> (r: Self)
        ensures
            r == (AnthropicProvider {
                api_key,
                small_model: in_use.small,
                large_model: in_use.large,
            }),
    {
        AnthropicProvider { api_key, small_model: in_use.small, large_model: in_use.large }
    }

    /// Access with these models.
    pub fn with_models(api_key: String, small_model: String, large_model: String) -> (r: Self)
        ensures
            r == (AnthropicProvider { api_key, small_model, large_model }),
    {
        AnthropicProvider { api_key, small_model, large_model }
    }

    /// The model for a kind of task.
    pub fn model_for_type(&self, model_type: ModelType) -> (r: &str)
        ensures
            r@ == model_of(self.small_model@, self.large_model@, model_type),
    {
        match model_type {
            ModelType::TextSmall => self.small_model.as_str(),
            ModelType::TextLarge => self.large_model.as_str(),
            ModelType::TextEmbedding => self.small_model.as_str(),
            ModelType::ImageDescription => self.large_model.as_str(),
        }
    }

    /// Text is asked for with this request.
    pub open spec fn asks(self, params: GenerateTextParams, stream: bool, r: MessagesRequest) -> bool {
        &&& r.model@ == model_of(self.small_model@, self.large_model@, params.model_type)
        &&& r.max_tokens == (match params.max_tokens {
            Some(n) => n,
            None => 2048u32,
        })
        &&& r.temperature == params.temperature
        &&& text::opt_text(r.system) == if params.system_prompt@.len() == 0 {
            None
        } else {
            Some(params.system_prompt@)
        }
        &&& r.messages@.len() == 1
        &&& says(r.messages@[0], "user"@, params.prompt@)
        &&& text::texts(r.stop_sequences@) == text::texts(params.stop_sequences@)
        &&& r.stream == if stream {
            Some(true)
        } else {
            None
        }
    }

    /// The request for text.
    pub fn build_request(&self, params: &GenerateTextParams, stream: bool) -> (r: MessagesRequest)
        ensures
            self.asks(*params, stream, r),
    {
        let system = if params.system_prompt.as_str().unicode_len() == 0 {
            None
        } else {
            Some(params.system_prompt.clone())
        };
        let mut messages: Vec<ChatMessage> = Vec::new();
        messages.push(ChatMessage { role: "user".to_owned(), content: params.prompt.clone() });
        MessagesRequest {
            model: self.model_for_type(params.model_type).to_owned(),
            max_tokens: match params.max_tokens {
                Some(n) => n,
                None => 2048,
            },
            temperature: params.temperature,
            system,
            messages,
            stop_sequences: copy_texts(&params.stop_sequences),
            stream: if stream {
                Some(true)
            } else {
                None
            },
        }
    }
}

/// The text of a reply: that of its blocks of text, one after the other.
pub open spec fn reply_text(blocks: Seq<ContentBlock>) -> Seq<char> {
    lines::joined(block_texts(blocks), ""@)
}

/// The text of a reply: that of its blocks of text, one after the other.
pub fn join_blocks(blocks: &Vec<ContentBlock>) -> (r: String)
    ensures
        r@ == reply_text(blocks@),
{
    let ghost p = |b: ContentBlock| b.block_type@ == "text"@;
    let ghost f = |b: ContentBlock| b.text@;
    let mut out: Vec<String> = Vec::new();
    let mut i: usize = 0;
    proof {
        reveal(Seq::filter);
        assert(blocks@.take(0).filter(p) =~= Seq::<ContentBlock>::empty());
        assert(text::texts(out@) =~= blocks@.take(0).filter(p).map_values(f));
    }
    while i < blocks.len()
        invariant
            i <= blocks@.len(),
            p == (|b: ContentBlock| b.block_type@ == "text"@),
            f == (|b: ContentBlock| b.text@),
            text::texts(out@) == blocks@.take(i as int).filter(p).map_values(f),
        decreases blocks.len() - i,
    {
        proof {
            reveal(Seq::filter);
            assert(blocks@.take(i + 1).drop_last() =~= blocks@.take(i as int));
        }
        let ghost shown = blocks@.take(i as int).filter(p);
        let b = &blocks[i];
        if text::same(b.block_type.as_str(), "text") {
            let ghost before = out@;
            out.push(b.text.clone());
            proof {
                assert(text::texts(out@) =~= text::texts(before).push(b.text@));
                assert(shown.push(*b).map_values(f) =~= shown.map_values(f).push(f(*b)));
            }
        }
        i = i + 1;
    }
    assert(blocks@.take(blocks@.len() as int) =~= blocks@);
    lines::join(&out, "")
}

// ---------------------------------------------------------------------------
// OpenAI and services like it
// ---------------------------------------------------------------------------

pub const DEFAULT_BASE_URL: &'static str = "https://api.openai.com/v1";

/// The dimensions of the embeddings.
pub const OPENAI_DIMENSIONS: usize = 1536;

/// The access to a service that speaks OpenAI's protocol.
#[derive(Clone, Debug)]
pub struct OpenAIProvider {
    pub api_key: String,
    pub base_url: String,
    pub small_model: String,
    pub large_model: String,
    pub embedding_model: String,
}

/// A request for text.
#[derive(Clone, Debug)]
pub struct ChatRequest {
    pub model: String,
    pub messages: Vec<ChatMessage>,
    pub max_tokens: Option<u32>,
    /// The sampling temperature, by its IEEE 754 bit pattern.
    pub temperature: Option<u32>,
    pub stop: Vec<String>,
    pub stream: Option<bool>,
}

impl OpenAIProvider {
    /// Access with the models in use.
    pub fn new(api_key: String) -> (r: Self)
        ensures
            r.api_key@ == api_key@,
            r.base_url@ == DEFAULT_BASE_URL@,
            r.small_model@ == "gpt-4o-mini"@,
            r.large_model@ == "gpt-4o"@,
            r.embedding_model@ == "text-embedding-3-small"@,
    {
        OpenAIProvider {
            api_key,
            base_url: DEFAULT_BASE_URL.to_owned(),
            small_model: "gpt-4o-mini".to_owned(),
            large_model: "gpt-4o".to_owned(),
            embedding_model: "text-embedding-3-small".to_owned(),
        }
    }

    /// The same access at another address, whose trailing slashes do not count.
    pub fn with_base_url(self, url: &str) -> (r: Self)
        ensures
            r.base_url@ == text::drop_while_end(url@, |c: char| c == '/'),
            r == (OpenAIProvider { base_url: r.base_url, ..self }),
    {
        let mut r = self;
        r.base_url = text::trim_end_char(url, '/');
        r
    }

    /// The same access with these models.
    pub fn with_models(self, small_model: String, large_model: String) -> (r: Self)
        ensures
            r == (OpenAIProvider { small_model, large_model, ..self }),
    {
        let mut r = self;
        r.small_model = small_model;
        r.large_model = large_model;
        r
    }

    /// The same access with this model for embeddings.
    pub fn with_embedding_model(self, model: String) -> (r: Self)
        ensures
            r == (OpenAIProvider { embedding_model: model, ..self }),
    {
        let mut r = self;
        r.embedding_model = model;
        r
    }

    /// The model for a kind of task.
    pub fn model_for_type(&self, model_type: ModelType) -> (r: &str)
        ensures
            r@ == model_of(self.small_model@, self.large_model@, model_type),
    {
        match model_type {
            ModelType::TextSmall => self.small_model.as_str(),
            ModelType::TextLarge => self.large_model.as_str(),
            ModelType::TextEmbedding => self.small_model.as_str(),
            ModelType::ImageDescription => self.large_model.as_str(),
        }
    }

    /// The address for text.
    pub fn chat_url(&self) -> (r: String)
        ensures
            r@ == self.base_url@ + "/chat/completions"@,
    {
        error::prefixed(self.base_url.as_str(), "/chat/completions")
    }

    /// The address for embeddings.
    pub fn embeddings_url(&self) -> (r: String)
        ensures
            r@ == self.base_url@ + "/embeddings"@,
    {
        error::prefixed(self.base_url.as_str(), "/embeddings")
    }

    /// What authorizes a request.
    pub fn authorization(&self) -> (r: String)
        ensures
            r@ == "Bearer "@ + self.api_key@,
    {
        error::prefixed("Bearer ", self.api_key.as_str())
    }

    /// Text is asked for with this request: the system prompt, where there is one,
    /// comes first.
    pub open spec fn asks(self, params: GenerateTextParams, stream: bool, r: ChatRequest) -> bool {
        &&& r.model@ == model_of(self.small_model@, self.large_model@, params.model_type)
        &&& if params.system_prompt@.len() == 0 {
            r.messages@.len() == 1 && says(r.messages@[0], "user"@, params.prompt@)
        } else {
            r.messages@.len() == 2 && says(r.messages@[0], "system"@, params.system_prompt@)
                && says(r.messages@[1], "user"@, params.prompt@)
        }
        &&& r.max_tokens == params.max_tokens
        &&& r.temperature == params.temperature
        &&& text::texts(r.stop@) == text::texts(params.stop_sequences@)
        &&& r.stream == if stream {
            Some(true)
        } else {
            None
        }
    }

    /// The request for text: the system prompt, where there is one, comes first.
    pub fn chat_request(&self, params: &GenerateTextParams, stream: bool) -> (r: ChatRequest)
        ensures
            self.asks(*params, stream, r),
    {
        let mut messages: Vec<ChatMessage> = Vec::new();
        if params.system_prompt.as_str().unicode_len() > 0 {
            messages.push(
                ChatMessage { role: "system".to_owned(), content: params.system_prompt.clone() },
            );
        }
        messages.push(ChatMessage { role: "user".to_owned(), content: params.prompt.clone() });
        ChatRequest {
            model: self.model_for_type(params.model_type).to_owned(),
            messages,
            max_tokens: params.max_tokens,
            temperature: params.temperature,
            stop: copy_texts(&params.stop_sequences),
            stream: if stream {
                Some(true)
            } else {
                None
            },
        }
    }
}

/// The text of a reply: that of its first choice, or none.
pub fn first_choice(choices: &Vec<String>) -> (r: String)
    ensures
        r@ == if choices@.len() > 0 {
            choices@[0]@
        } else {
            Seq::empty()
        },
{
    if choices.len() > 0 {
        choices[0].clone()
    } else {
        let r = String::new();
        assert(r@ =~= Seq::<char>::empty());
        r
    }
}

/// What a piece of a streamed reply adds: the text of its first choice.
pub fn first_delta(choices: Vec<Option<String>>) -> (r: Option<String>)
    ensures
        r == if choices@.len() > 0 {
            choices@[0]
        } else {
            None
        },
{
    let mut choices = choices;
    if choices.len() > 0 {
        choices.remove(0)
    } else {
        None
    }
}

/// The embedding of a reply: its first, each number by its bit pattern.
pub fn first_embedding(data: Vec<Vec<u32>>) -> (r: Result<Vec<u32>, RustlizaError>)
    ensures
        match r {
            Ok(e) => data@.len() > 0 && e == data@[0],
            Err(e) => data@.len() == 0 && e is ModelProvider && e->ModelProvider_0@
                == "no embedding in response"@,
        },
{
    let mut data = data;
    if data.len() > 0 {
        Ok(data.remove(0))
    } else {
        Err(RustlizaError::ModelProvider("no embedding in response".to_owned()))
    }
}

// ---------------------------------------------------------------------------
// What is asked and what is read
// ---------------------------------------------------------------------------

/// Two services with the same models are asked the same: the same model, the whole prompt
/// as the last word, of the user, and the system prompt before it, where there is one;
/// with the same temperature, the same texts to stop at, and as a stream or not.
pub proof fn services_are_asked_the_same(
    a: AnthropicProvider,
    o: OpenAIProvider,
    params: GenerateTextParams,
    stream: bool,
    r: MessagesRequest,
    s: ChatRequest,
)
    requires
        a.small_model@ == o.small_model@,
        a.large_model@ == o.large_model@,
        a.asks(params, stream, r),
        o.asks(params, stream, s),
    ensures
        r.model@ == s.model@,
        params.model_type == ModelType::TextSmall ==> r.model@ == a.small_model@,
        params.model_type == ModelType::TextLarge ==> r.model@ == a.large_model@,
        r.messages@.last().content@ == params.prompt@,
        s.messages@.last().content@ == params.prompt@,
        r.messages@.last().role@ == "user"@ && s.messages@.last().role@ == "user"@,
        params.system_prompt@.len() > 0 ==> text::opt_text(r.system) == Some(
            params.system_prompt@,
        ) && s.messages@[0].content@ == params.system_prompt@ && s.messages@[0].role@
            == "system"@ && s.messages@.len() > 1,
        params.system_prompt@.len() == 0 ==> r.system is None && s.messages@.len() == 1,
        params.max_tokens is Some ==> Some(r.max_tokens) == s.max_tokens && s.max_tokens
            == params.max_tokens,
        r.temperature == s.temperature && r.temperature == params.temperature,
        text::texts(r.stop_sequences@) == text::texts(s.stop@),
        text::texts(r.stop_sequences@) == text::texts(params.stop_sequences@),
        r.stream == s.stream && (stream <==> r.stream == Some(true)),
{
}

/// The text of a reply is that of its blocks in their order: for two runs of blocks it is
/// that of the first and then that of the second; for one block it is its text where the
/// block is text, and nothing else.
pub proof fn replies_are_read_in_order(
    first: Seq<ContentBlock>,
    second: Seq<ContentBlock>,
    b: ContentBlock,
)
    ensures
        reply_text(first + second) == reply_text(first) + reply_text(second),
        b.block_type@ == "text"@ ==> reply_text(seq![b]) == b.text@,
        b.block_type@ != "text"@ ==> reply_text(seq![b]).len() == 0,
    decreases second.len(),
{
    reveal(Seq::filter);
    reveal_with_fuel(lines::joined, 2);
    reveal_strlit("");
    let p = |b: ContentBlock| b.block_type@ == "text"@;
    let f = |b: ContentBlock| b.text@;
    assert(""@ =~= Seq::<char>::empty());
    assert(seq![b].drop_last() =~= Seq::<ContentBlock>::empty());
    assert(Seq::<ContentBlock>::empty().filter(p) =~= Seq::<ContentBlock>::empty());
    if b.block_type@ == "text"@ {
        assert(seq![b].filter(p) =~= seq![b]);
        assert(block_texts(seq![b]) =~= seq![b.text@]);
    } else {
        assert(seq![b].filter(p) =~= Seq::<ContentBlock>::empty());
        assert(block_texts(seq![b]) =~= Seq::<Seq<char>>::empty());
    }
    if second.len() == 0 {
        assert(first + second =~= first);
        assert(block_texts(second) =~= Seq::<Seq<char>>::empty());
        assert(reply_text(first) + reply_text(second) =~= reply_text(first));
    } else {
        let front = second.drop_last();
        let last = second.last();
        replies_are_read_in_order(first, front, b);
        assert((first + second).drop_last() =~= first + front);
        assert((first + second).last() == last);
        lemma_last_block(first + second);
        lemma_last_block(second);
        assert(reply_text(first + second) =~= reply_text(first) + reply_text(second));
    }
}

/// The last block adds its text, where it is text.
proof fn lemma_last_block(blocks: Seq<ContentBlock>)
    requires
        blocks.len() > 0,
    ensures
        reply_text(blocks) == reply_text(blocks.drop_last()) + (if blocks.last().block_type@
            == "text"@ {
            blocks.last().text@
        } else {
            Seq::empty()
        }),
{
    reveal(Seq::filter);
    reveal_strlit("");
    let p = |b: ContentBlock| b.block_type@ == "text"@;
    let f = |b: ContentBlock| b.text@;
    let front = blocks.drop_last();
    let last = blocks.last();
    assert(""@ =~= Seq::<char>::empty());
    if last.block_type@ == "text"@ {
        let texts = block_texts(blocks);
        assert(texts =~= block_texts(front).push(last.text@)) by {
            assert(front.filter(p).push(last).map_values(f) =~= front.filter(p).map_values(f).push(
                f(last),
            ));
        }
        assert(texts.drop_last() =~= block_texts(front));
        assert(reply_text(blocks) =~= reply_text(front) + last.text@);
    } else {
        assert(blocks.filter(p) =~= front.filter(p));
        assert(reply_text(blocks) =~= reply_text(front) + Seq::<char>::empty());
    }
}

/// A failure is told with the service, the status and what the service says of it, in this
/// order; where it says nothing, with the whole reply.
pub proof fn failures_are_told(
    what: Seq<char>,
    status: Seq<char>,
    said: Option<Seq<char>>,
    body: Seq<char>,
)
    ensures
        passages::in_order(status_error(what, status, said, body), seq![what, status]),
        said is Some ==> passages::in_order(
            status_error(what, status, said, body),
            seq![status, said.unwrap()],
        ),
        said is None ==> passages::in_order(
            status_error(what, status, said, body),
            seq![status, body],
        ),
{
    let told = match said {
        Some(m) => m,
        None => body,
    };
    let whole = status_error(what, status, said, body);
    let e = Seq::<char>::empty();
    passages::lemma_two(e, what, " error ("@, status, "): "@ + told);
    assert(e + what + " error ("@ + status + ("): "@ + told) =~= whole);
    passages::lemma_two(what + " error ("@, status, "): "@, told, e);
    assert(what + " error ("@ + status + "): "@ + told + e =~= whole);
}

} // verus!
