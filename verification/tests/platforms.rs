use rustliza::ids::Uuid;
use rustliza::platforms::{
    discord_id_to_uuid, discord_incoming, mention_incoming, mentions_url, next_since,
    replies, telegram_id_to_uuid, telegram_incoming, tweet_text, twitter_id_to_uuid,
    DiscordMessage, DiscordService, TelegramMessage, TelegramService, TelegramUser, TweetData,
    TwitterService, TwitterTrouble, UserData,
};
use rustliza::types::{ChannelType, Content, Memory};

/// The identifier that sixteen bytes make, with version and variant put in.
fn versioned(mut b: [u8; 16]) -> u128 {
    b[6] = (b[6] & 0x0f) | 0x40;
    b[8] = (b[8] & 0x3f) | 0x80;
    uuid::Uuid::from_bytes(b).as_u128()
}

fn from_low(low: [u8; 8]) -> u128 {
    let mut b = [0u8; 16];
    b[..8].copy_from_slice(&low);
    versioned(b)
}

#[test]
fn platform_numbers_become_identifiers() {
    for n in [0u64, 1, 255, 80351110224678912, u64::MAX] {
        assert_eq!(discord_id_to_uuid(n).bits, from_low(n.to_le_bytes()));
    }
    for n in [0i64, 42, -1, -1001234567890, i64::MIN, i64::MAX] {
        assert_eq!(telegram_id_to_uuid(n).bits, from_low(n.to_le_bytes()));
    }
    for s in ["", "unknown", "1460323737035677698", "é"] {
        let h = s.bytes().fold(0u64, |a, b| a.wrapping_mul(31).wrapping_add(b as u64));
        let mut b = [0u8; 16];
        b[..8].copy_from_slice(&h.to_le_bytes());
        b[8..].copy_from_slice(&h.to_be_bytes());
        assert_eq!(twitter_id_to_uuid(s).bits, versioned(b));
    }
}

#[test]
fn identifiers_have_a_version_and_lose_only_its_bits() {
    let text = discord_id_to_uuid(123).to_text();
    assert_eq!(text.as_bytes()[14], b'4');
    assert_eq!(text, "7b000000-0000-4000-8000-000000000000");
    assert_ne!(discord_id_to_uuid(1), discord_id_to_uuid(2));
    assert_eq!(discord_id_to_uuid(1), discord_id_to_uuid(1 | (1 << 52)));
    assert_ne!(discord_id_to_uuid(1), discord_id_to_uuid(1 | (1 << 51)));
}

fn discord(bot: bool, guild: Option<u64>) -> DiscordMessage {
    DiscordMessage {
        author_id: 10,
        author_name: "ada".into(),
        author_is_bot: bot,
        discriminator: Some(7),
        channel_id: 20,
        guild_id: guild,
        content: "hello".into(),
    }
}

#[test]
fn messages_on_discord() {
    let agent = Uuid { bits: 1 };
    assert!(discord_incoming(&discord(true, None), agent).is_none());
    let i = discord_incoming(&discord(false, None), agent).unwrap();
    assert_eq!(i.entity.id, discord_id_to_uuid(10));
    assert_eq!(i.entity.names, vec!["ada"]);
    assert_eq!(
        i.entity.metadata.unwrap().to_json(),
        "{\"discord_id\":\"10\",\"discriminator\":7}"
    );
    assert_eq!(i.room.channel_type, ChannelType::Dm);
    assert_eq!(i.room.name, Some("discord-20".to_string()));
    assert_eq!(i.room.channel_id, Some("20".to_string()));
    assert!(i.room.world_id.is_none());
    assert_eq!(i.memory.content.source, Some("discord".to_string()));
    assert_eq!(i.memory.content.text, Some("hello".to_string()));
    assert_eq!((i.memory.entity_id, i.memory.room_id), (i.entity.id, i.room.id));
    let i = discord_incoming(&discord(false, Some(30)), agent).unwrap();
    assert_eq!(i.room.channel_type, ChannelType::Group);
    assert_eq!(i.room.world_id, Some(discord_id_to_uuid(30)));
    assert_eq!(DiscordService::new("t".into()).name(), "discord");
}

#[test]
fn messages_on_telegram() {
    let agent = Uuid { bits: 1 };
    let mut m = TelegramMessage {
        text: None,
        from: None,
        chat_id: -5,
        chat_is_private: false,
        chat_title: Some("room".into()),
    };
    assert!(telegram_incoming(&m, agent).is_none());
    m.text = Some("hi".into());
    let i = telegram_incoming(&m, agent).unwrap();
    assert_eq!(i.entity.names, vec!["Unknown"]);
    assert_eq!(i.entity.id, telegram_id_to_uuid(0));
    assert_eq!(i.room.channel_type, ChannelType::Group);
    assert_eq!(i.room.channel_id, Some("-5".to_string()));
    assert_eq!(i.room.name, Some("room".to_string()));
    m.chat_is_private = true;
    m.from = Some(TelegramUser { id: 3, username: None, first_name: "Al".into() });
    let i = telegram_incoming(&m, agent).unwrap();
    assert_eq!(i.entity.names, vec!["Al"]);
    assert_eq!(i.room.channel_type, ChannelType::Dm);
    m.from = Some(TelegramUser { id: 3, username: Some("al".into()), first_name: "Al".into() });
    assert_eq!(telegram_incoming(&m, agent).unwrap().entity.names, vec!["al"]);
    assert_eq!(TelegramService::new("t".into()).name(), "telegram");
}

#[test]
fn mentions_on_twitter() {
    let agent = Uuid { bits: 1 };
    let users = vec![
        UserData { id: "7".into(), name: "Ada L".into(), username: "ada".into() },
        UserData { id: "7".into(), name: "Other".into(), username: "other".into() },
    ];
    let mut t = TweetData {
        id: "1234567890".into(),
        text: "hey".into(),
        author_id: Some("7".into()),
        conversation_id: Some("99".into()),
    };
    let i = mention_incoming(&t, &users, agent);
    assert_eq!(i.entity.names, vec!["Ada L"]);
    assert_eq!(i.entity.metadata.unwrap().to_json(), "{\"twitter_id\":\"7\",\"username\":\"ada\"}");
    assert_eq!(i.room.id, twitter_id_to_uuid("99"));
    assert_eq!(i.room.name, Some("twitter-12345678".to_string()));
    assert_eq!(i.room.channel_type, ChannelType::Feed);
    t.author_id = None;
    t.conversation_id = None;
    t.id = "12".into();
    let i = mention_incoming(&t, &users, agent);
    assert_eq!(i.entity.names, vec!["Unknown"]);
    assert_eq!(i.entity.id, twitter_id_to_uuid("unknown"));
    assert_eq!(i.room.id, twitter_id_to_uuid("12"));
    assert_eq!(i.room.name, Some("twitter-12".to_string()));
}

#[test]
fn polling_twitter() {
    assert_eq!(
        mentions_url("5", &None),
        "https://api.twitter.com/2/users/5/mentions?tweet.fields=author_id,conversation_id,created_at&expansions=author_id"
    );
    assert!(mentions_url("5", &Some("8".into())).ends_with("&since_id=8"));
    assert_eq!(next_since(Some("1".into()), None), Some("1".to_string()));
    assert_eq!(next_since(Some("1".into()), Some("2".into())), Some("2".to_string()));
    let s = TwitterService::new("tok".into());
    assert_eq!(s.poll_interval_ms, 30_000);
    assert_eq!(s.authorization(), "Bearer tok");
    assert_eq!(s.with_poll_interval(5).poll_interval_ms, 5);
    assert_eq!(TwitterTrouble::Refused.error("no").message(), "tweet failed: no");
    assert_eq!(TwitterTrouble::Poll.error("no").message(), "twitter poll failed: no");
}

#[test]
fn replies_and_tweets() {
    let m = |t: Option<&str>| {
        let mut c = Content::default();
        c.text = t.map(|s| s.to_string());
        Memory::new_message(Uuid::nil(), Uuid::nil(), Uuid::nil(), c)
    };
    assert_eq!(replies(&vec![m(Some("a")), m(None), m(Some("")), m(Some("b"))]), vec!["a", "b"]);
    assert_eq!(tweet_text(&"x".repeat(280)), "x".repeat(280));
    let cut = tweet_text(&"x".repeat(281));
    assert_eq!(cut, format!("{}…", "x".repeat(279)));
    let wide = format!("a{}", "é".repeat(150));
    assert_eq!(tweet_text(&wide), wide);
    assert_eq!(tweet_text(&"é".repeat(280)), "é".repeat(280));
    assert_eq!(tweet_text(&"é".repeat(281)), format!("{}…", "é".repeat(279)));
}
