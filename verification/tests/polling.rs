use rustliza::platforms::{TweetData, UserData};
use rustliza::polling::{PollAction, PollEvent, Polling};

fn me() -> UserData {
    UserData { id: "7".into(), name: "Eliza".into(), username: "eliza".into() }
}

fn tweet(id: &str) -> TweetData {
    TweetData { id: id.into(), text: "hi".into(), author_id: None, conversation_id: None }
}

fn asked(action: PollAction) -> String {
    match action {
        PollAction::Ask(url) => url,
        other => panic!("{:?}", other),
    }
}

const MENTIONS: &str = "https://api.twitter.com/2/users/7/mentions\
?tweet.fields=author_id,conversation_id,created_at&expansions=author_id";

fn mentioned(newest: Option<&str>) -> PollEvent {
    PollEvent::Mentioned {
        tweets: vec![tweet("100"), tweet("101")],
        users: vec![me()],
        newest_id: newest.map(|s| s.to_string()),
    }
}

#[test]
fn polls_go_on_behind_the_newest_tweet() {
    let (p, a) = Polling::start();
    assert!(matches!(a, PollAction::Identify));
    let (p, a) = p.step(PollEvent::Identified(me()));
    assert!(matches!(a, PollAction::Wait));
    let (p, a) = p.step(PollEvent::Elapsed);
    assert_eq!(asked(a), MENTIONS);
    let (p, a) = p.step(mentioned(Some("101")));
    match a {
        PollAction::Answer { tweets, users } => {
            assert_eq!(tweets.len(), 2);
            assert_eq!(tweets[1].id, "101");
            assert_eq!(users[0].username, "eliza");
        }
        other => panic!("{:?}", other),
    }
    let (p, a) = p.step(PollEvent::Elapsed);
    assert_eq!(asked(a), format!("{}&since_id=101", MENTIONS));
    let (p, a) = p.step(PollEvent::Unanswered);
    assert!(matches!(a, PollAction::Wait));
    let (p, a) = p.step(PollEvent::Elapsed);
    assert_eq!(asked(a), format!("{}&since_id=101", MENTIONS));
    let (p, _) = p.step(mentioned(None));
    let (p, a) = p.step(PollEvent::Elapsed);
    assert_eq!(asked(a), format!("{}&since_id=101", MENTIONS));
    let (p, _) = p.step(PollEvent::Unanswered);
    let (p, a) = p.step(PollEvent::Shutdown);
    assert!(matches!(p, Polling::Ended));
    assert!(matches!(a, PollAction::Leave));
    let (p, a) = p.step(PollEvent::Elapsed);
    assert!(matches!(p, Polling::Ended));
    assert!(matches!(a, PollAction::Leave));
}

#[test]
fn without_an_account_there_is_no_polling() {
    let (p, _) = Polling::start();
    let (p, a) = p.step(PollEvent::Unknown);
    assert!(matches!(p, Polling::Ended));
    assert!(matches!(a, PollAction::Leave));
}
