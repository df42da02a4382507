use rustliza::models::{
    api_error, first_choice, first_delta, first_embedding, join_blocks, AnthropicProvider,
    ContentBlock, ModelNames, OpenAIProvider, Trouble,
};
use rustliza::retry::{is_retryable, Retry, RetryAction};
use rustliza::sse::{SseItem, SseStream};
use rustliza::types::{GenerateTextParams, ModelType, StreamEvent};
use rustliza::error::RustlizaError;
use rustliza::cli::{
    anthropic_provider, choose_key, cli_room, named_entity, openai_provider, read_line, Input,
    ReplyView,
};
use rustliza::types::{ChannelType, Values};
use rustliza::ids::Uuid;

fn names() -> ModelNames {
    ModelNames { small: "s".into(), large: "l".into() }
}

#[test]
fn requests_to_anthropic() {
    let p = AnthropicProvider::new("k".into(), names());
    assert_eq!(p.model_for_type(ModelType::TextSmall), "s");
    assert_eq!(p.model_for_type(ModelType::TextEmbedding), "s");
    assert_eq!(p.model_for_type(ModelType::TextLarge), "l");
    assert_eq!(p.model_for_type(ModelType::ImageDescription), "l");
    let mut params = GenerateTextParams::new(ModelType::TextLarge, "sys".into(), "hi".into(), 5, 70);
    params.stop_sequences = vec!["END".into()];
    let r = p.build_request(&params, true);
    assert_eq!(r.model, "l");
    assert_eq!(r.max_tokens, 5);
    assert_eq!(r.system, Some("sys".to_string()));
    assert_eq!(r.messages[0].role, "user");
    assert_eq!(r.messages[0].content, "hi");
    assert_eq!(r.stop_sequences, vec!["END"]);
    assert_eq!(r.stream, Some(true));
    params.system_prompt = "".into();
    params.max_tokens = None;
    let r = p.build_request(&params, false);
    assert!(r.system.is_none());
    assert_eq!(r.max_tokens, 2048);
    assert!(r.stream.is_none());
    let block = |t: &str, x: &str| ContentBlock { block_type: t.into(), text: x.into() };
    assert_eq!(join_blocks(&vec![block("text", "a"), block("tool", "b"), block("text", "c")]), "ac");
}

#[test]
fn requests_to_openai() {
    let p = OpenAIProvider::new("k".into())
        .with_base_url("http://x/v1//")
        .with_models("a".into(), "b".into())
        .with_embedding_model("e".into());
    assert_eq!(p.chat_url(), "http://x/v1/chat/completions");
    assert_eq!(p.embeddings_url(), "http://x/v1/embeddings");
    assert_eq!(p.authorization(), "Bearer k");
    let params = GenerateTextParams::new(ModelType::TextSmall, "sys".into(), "hi".into(), 5, 70);
    let r = p.chat_request(&params, false);
    assert_eq!(r.model, "a");
    assert_eq!(r.messages.len(), 2);
    assert_eq!(r.messages[0].role, "system");
    assert_eq!(r.messages[1].content, "hi");
    let params = GenerateTextParams::new(ModelType::TextSmall, "".into(), "hi".into(), 5, 70);
    let r = p.chat_request(&params, true);
    assert_eq!(r.messages.len(), 1);
    assert_eq!(r.stream, Some(true));
    assert_eq!(first_choice(&vec!["x".into(), "y".into()]), "x");
    assert_eq!(first_choice(&vec![]), "");
    assert_eq!(first_delta(vec![Some("x".into())]), Some("x".to_string()));
    assert_eq!(first_delta(vec![]), None);
    assert_eq!(first_embedding(vec![vec![1, 2]]).unwrap(), vec![1, 2]);
    assert_eq!(
        first_embedding(vec![]).unwrap_err().message(),
        "model provider error: no embedding in response"
    );
}

#[test]
fn failures_of_services() {
    assert_eq!(
        api_error("API", "429 Too Many Requests", &Some("slow down".into()), "{}").message(),
        "model provider error: API error (429 Too Many Requests): slow down"
    );
    assert_eq!(
        api_error("embedding", "500", &None, "body").message(),
        "model provider error: embedding error (500): body"
    );
    assert_eq!(Trouble::Request.error("e").message(), "model provider error: request failed: e");
    assert_eq!(
        Trouble::ParseEmbedding.error("e").message(),
        "model provider error: failed to parse embedding: e"
    );
}

#[test]
fn failed_calls_are_repeated() {
    let passing = || RustlizaError::ModelProvider("API error (529): overloaded".into());
    assert!(is_retryable(&passing()));
    assert!(!is_retryable(&RustlizaError::Other("x".into())));
    let mut r = Retry::new(3);
    assert!(matches!(r.first::<u8>(), RetryAction::Call));
    assert!(matches!(r.step::<u8>(Err(passing())), RetryAction::SleepThenCall(100)));
    assert!(matches!(r.step::<u8>(Err(passing())), RetryAction::SleepThenCall(200)));
    assert!(matches!(r.step::<u8>(Err(passing())), RetryAction::Finish(Err(_))));
    let mut r = Retry::new(3);
    assert!(matches!(r.step(Ok(5u8)), RetryAction::Finish(Ok(5))));
    let mut r = Retry::new(3);
    assert!(matches!(
        r.step::<u8>(Err(RustlizaError::Other("x".into()))),
        RetryAction::Finish(Err(_))
    ));
    match Retry::new(0).first::<u8>() {
        RetryAction::Finish(Err(e)) => assert_eq!(e.message(), "no attempts made"),
        _ => panic!(),
    }
}

/// What the stream carries when it arrives in these pieces.
fn payloads(pieces: &[&[u8]]) -> Vec<String> {
    let mut s = SseStream::new();
    let mut out = vec![];
    for p in pieces {
        s.feed(p);
        loop {
            match s.next() {
                SseItem::Data(d) => out.push(d),
                SseItem::Done => out.push("<end>".into()),
                SseItem::Starved => break,
            }
        }
    }
    out
}

#[test]
fn streams_are_read_however_they_are_cut() {
    let all = "event: x\r\ndata: {\"a\":1}\r\n\n: note\ndata: b\ndata:c\ndata: [DONE]\nrest".as_bytes();
    let expected = vec!["{\"a\":1}", "b", "<end>"];
    assert_eq!(payloads(&[all]), expected);
    for k in 0..all.len() {
        assert_eq!(payloads(&[&all[..k], &all[k..]]), expected);
    }
    let one_by_one: Vec<&[u8]> = all.chunks(1).collect();
    assert_eq!(payloads(&one_by_one), expected);
}

#[test]
fn bytes_that_are_no_text_are_dropped() {
    assert_eq!(payloads(&[b"data: a", &[0xff, b'\n'], b"b\n"]), vec!["ab"]);
}

#[test]
fn the_text_of_a_stream_is_its_tokens() {
    let mut s = SseStream::new();
    assert!(matches!(s.on_delta(Some("He".into())), Some(StreamEvent::Token(t)) if t == "He"));
    assert!(s.on_delta(None).is_none());
    assert!(s.on_delta(Some("".into())).is_none());
    assert!(s.on_delta(Some("y".into())).is_some());
    assert!(matches!(s.done(), StreamEvent::Done { full_text } if full_text == "Hey"));
    assert!(matches!(s.on_end(), Some(StreamEvent::Done { full_text }) if full_text == "Hey"));
    assert!(SseStream::new().on_end().is_none());
}

#[test]
fn keys_and_models_are_chosen() {
    let mut secrets = Values::new();
    secrets.insert("K".into(), "secret".into());
    let some = |s: &str| Some(s.to_string());
    assert_eq!(choose_key(&some("a"), &some("b"), &secrets, "K"), some("a"));
    assert_eq!(choose_key(&None, &some("b"), &secrets, "K"), some("b"));
    assert_eq!(choose_key(&None, &None, &secrets, "K"), some("secret"));
    assert_eq!(choose_key(&None, &None, &secrets, "L"), None);
    let p = anthropic_provider("k".into(), &some("x"), &None, names());
    assert_eq!(p.small_model, "s");
    let p = anthropic_provider("k".into(), &some("x"), &some("y"), names());
    assert_eq!((p.small_model.as_str(), p.large_model.as_str()), ("x", "y"));
    let p = openai_provider("k".into(), &some("http://h/"), &None, &some("y"));
    assert_eq!((p.base_url.as_str(), p.large_model.as_str()), ("http://h", "gpt-4o"));
    let p = openai_provider("k".into(), &None, &some("x"), &some("y"));
    assert_eq!(p.base_url, "https://api.openai.com/v1");
    assert_eq!(p.small_model, "x");
}

#[test]
fn lines_at_the_terminal() {
    assert!(matches!(read_line("  "), Input::Blank));
    for s in ["exit", " quit ", "/quit"] {
        assert!(matches!(read_line(s), Input::Quit));
    }
    assert!(matches!(read_line(" hi there "), Input::Message(m) if m == "hi there"));
    assert!(matches!(read_line("Exit"), Input::Message(_)));
    let e = named_entity(Uuid { bits: 1 }, Uuid { bits: 2 }, "User");
    assert_eq!(e.names, vec!["User"]);
    let r = cli_room(Uuid { bits: 3 }, Uuid { bits: 2 });
    assert_eq!((r.channel_type, r.source.as_str()), (ChannelType::Dm, "cli"));
}

#[test]
fn replies_at_the_terminal() {
    let (mut v, head) = ReplyView::begin("Ada");
    assert_eq!(head, "\nAda > ");
    let p = v.show(&StreamEvent::Done { full_text: "".into() });
    assert_eq!(p.out, "(Ada chose not to respond)\n\n");
    assert!(p.last);
    let p = v.show(&StreamEvent::Done { full_text: "all".into() });
    assert_eq!(p.out, "all\n\n");
    let p = v.show(&StreamEvent::Token("t".into()));
    assert_eq!((p.out.as_str(), p.last), ("t", false));
    let p = v.show(&StreamEvent::Done { full_text: "t".into() });
    assert_eq!(p.out, "\n\n");
    let p = v.show(&StreamEvent::Error("bad".into()));
    assert_eq!(p.err, "\nStream error: bad\n");
}
