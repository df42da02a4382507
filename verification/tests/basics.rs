use rustliza::bytes;
use rustliza::error::RustlizaError;
use rustliza::ids::Uuid;
use rustliza::lines;
use rustliza::number;
use rustliza::octets;
use rustliza::rank;
use rustliza::text;
use rustliza::time::{now, parse_datetime, Timestamp};
use rustliza::types::{ChannelType, MemoryType, Metadata};

#[test]
fn white_space_is_that_of_unicode() {
    for n in 0..=0x10ffffu32 {
        if let Some(c) = char::from_u32(n) {
            assert_eq!(text::is_white(c), c.is_whitespace(), "{:x}", n);
        }
    }
}

#[test]
fn trimming_matches_the_standard_library() {
    for s in ["", "  ", "a", " a b \n", "\u{a0}x\u{2003}", "\tend"] {
        assert_eq!(text::trim(s), s.trim());
    }
    assert_eq!(text::trim_end_char("a//", '/'), "a");
    assert_eq!(text::trim_start_char("$$A$", '$'), "A$");
    assert_eq!(text::trim_start_text("http://http://x", "http://"), "x");
}

#[test]
fn searching_and_replacing() {
    assert!(text::contains("abc", ""));
    assert!(text::contains("abc", "bc"));
    assert!(!text::contains("abc", "cb"));
    assert!(text::starts_with("data: x", "data: "));
    assert_eq!(text::strip_prefix("data: x", "data: "), Some("x".to_string()));
    assert_eq!(text::strip_prefix("dat", "data: "), None);
    assert_eq!(text::replace("a'b'c", "'", "'\\''"), "a'\\''b'\\''c");
    assert_eq!(text::replace_first("xx", "x", "y"), "yx");
    assert_eq!(text::replace_first("xx", "", "y"), "xx".replacen("", "y", 1));
}

#[test]
fn lines_and_words_match_the_standard_library() {
    for s in ["", "a", "a\n", "a\r\nb", "\n\n", "a\rb\n c ", " x  y\tz "] {
        let expected: Vec<String> = s.lines().map(|l| l.to_string()).collect();
        assert_eq!(lines::lines(s), expected, "{:?}", s);
        let expected: Vec<String> = s.split_whitespace().map(|l| l.to_string()).collect();
        assert_eq!(lines::words(s), expected, "{:?}", s);
    }
    assert_eq!(lines::join(&vec!["a".into(), "b".into()], ", "), "a, b");
    assert!(lines::eq_ignore_ascii_case("SoLana", "solana"));
    assert!(!lines::eq_ignore_ascii_case("é", "É"));
}

#[test]
fn numbers_as_text() {
    assert_eq!(number::decimal_text(0), "0");
    assert_eq!(number::decimal_text(u64::MAX), "18446744073709551615");
    assert_eq!(number::signed_text(-42), "-42");
    assert_eq!(number::signed_text(i64::MIN), "-9223372036854775808");
}

#[test]
fn cutting_in_bytes() {
    assert_eq!(bytes::len("é…"), 5);
    assert!(bytes::cuts("é…", 2));
    assert!(!bytes::cuts("é…", 1));
    assert_eq!(bytes::cut("é…x", 2), ("é".to_string(), "…x".to_string()));
}

#[test]
fn bytes_of_numbers() {
    let mut out = vec![9u8];
    octets::push_little_endian(&mut out, 0x0102_0304, 4);
    assert_eq!(out, vec![9, 4, 3, 2, 1]);
    let sixteen: Vec<u8> = (0..16).collect();
    assert_eq!(octets::from_big_endian(&sixteen), 0x00010203_04050607_08090a0b_0c0d0e0f);
}

#[test]
fn identifiers_read_back() {
    let u = Uuid { bits: 0x67e55044_10b1_426f_9247_bb680e5fe0c8 };
    assert_eq!(u.to_text(), "67e55044-10b1-426f-9247-bb680e5fe0c8");
    assert_eq!(Uuid::parse_str(&u.to_text()), Some(u));
    assert_eq!(Uuid::parse_str("67E5504410B1426F9247BB680E5FE0C8"), Some(u));
    assert_eq!(Uuid::parse_str("no"), None);
    let why = uuid::Uuid::parse_str("no").unwrap_err().to_string();
    assert_eq!(Uuid::read("no"), Err(why));
    assert_eq!(Uuid::nil().to_text(), "00000000-0000-0000-0000-000000000000");
    let (a, b) = (Uuid::new_v4(), Uuid::new_v4());
    assert_ne!(a, b);
    assert_eq!(a.to_text().as_bytes()[14], b'4');
}

#[test]
fn times_read_back() {
    let t = Timestamp { secs: 1_700_000_000, nanos: 123_000_000 };
    assert_eq!(t.to_rfc3339(), "2023-11-14T22:13:20.123+00:00");
    assert_eq!(parse_datetime(&t.to_rfc3339()), Some(t));
    assert_eq!(
        parse_datetime("2023-11-15T00:13:20.123+02:00"),
        Some(t)
    );
    assert_eq!(parse_datetime("yesterday"), None);
    let later = Timestamp { secs: 1_700_000_061, nanos: 0 };
    assert_eq!(t.seconds_until(&later), 60);
    assert_eq!(later.seconds_until(&t), -60);
    assert!(t.is_before(&later));
    assert!(!later.is_before(&t));
    assert!(now().is_valid());
    assert!(!Timestamp { secs: i64::MAX, nanos: 0 }.is_valid());
}

#[test]
fn errors_say_what_went_wrong() {
    let id = Uuid::nil();
    let cases = vec![
        (RustlizaError::Database("x".into()), "database error: x".to_string()),
        (RustlizaError::ModelProvider("x".into()), "model provider error: x".to_string()),
        (RustlizaError::CharacterLoad("x".into()), "character load error: x".to_string()),
        (RustlizaError::Template("x".into()), "template error: x".to_string()),
        (RustlizaError::ActionNotFound("x".into()), "action not found: x".to_string()),
        (RustlizaError::EntityNotFound(id), format!("entity not found: {}", id.to_text())),
        (RustlizaError::RoomNotFound(id), format!("room not found: {}", id.to_text())),
        (RustlizaError::Serialization("x".into()), "serialization error: x".to_string()),
        (RustlizaError::Io("x".into()), "io error: x".to_string()),
        (RustlizaError::Other("x".into()), "x".to_string()),
    ];
    for (e, expected) in cases {
        assert_eq!(e.message(), expected);
    }
}

#[test]
fn names_of_types_read_back() {
    for t in [
        MemoryType::Message,
        MemoryType::Document,
        MemoryType::Fragment,
        MemoryType::Description,
        MemoryType::Custom,
    ] {
        assert_eq!(MemoryType::from_name(t.name()), t);
        assert_eq!(t.label(), format!("{:?}", t));
    }
    assert_eq!(MemoryType::from_name("other"), MemoryType::Message);
    for t in [
        ChannelType::Itself,
        ChannelType::Dm,
        ChannelType::Group,
        ChannelType::VoiceDm,
        ChannelType::VoiceGroup,
        ChannelType::Feed,
        ChannelType::Thread,
        ChannelType::World,
        ChannelType::Forum,
        ChannelType::Api,
    ] {
        assert_eq!(ChannelType::from_name(t.name()), Some(t));
        assert_eq!(t.label(), format!("{:?}", t));
    }
    assert_eq!(ChannelType::from_name("dm"), None);
    assert_eq!(ChannelType::default(), ChannelType::Dm);
}

#[test]
fn metadata_is_json() {
    let id = Uuid { bits: 7 };
    let cases = vec![
        Metadata::Json("{\"a\":1}".into()),
        Metadata::Document { title: "a \"b\"\n".into(), total_length: 12 },
        Metadata::Fragment { document_id: id, chunk_index: 1, total_chunks: 3 },
        Metadata::Fact { source_message: id },
        Metadata::Reflection,
        Metadata::Twitter { twitter_id: "1".into(), username: "é\\".into() },
        Metadata::Discord { discord_id: 5, discriminator: Some(12) },
        Metadata::Discord { discord_id: 5, discriminator: None },
        Metadata::Telegram { telegram_id: 9, chat_id: -3 },
    ];
    for m in cases {
        let v: serde_json::Value = serde_json::from_str(&m.to_json()).unwrap();
        assert_eq!(v.to_string(), m.to_json());
    }
    let doc = Metadata::Document { title: "t".into(), total_length: 12 };
    assert_eq!(doc.to_json(), "{\"title\":\"t\",\"total_length\":12,\"type\":\"document\"}");
}

#[test]
fn ranking_is_stable_and_descending() {
    assert_eq!(rank::descending(&vec![1, 3, 2, 3]), vec![1, 3, 2, 0]);
    assert_eq!(rank::best(&vec![5, 1, 9, 0], 1, 2), vec![2, 0]);
    assert_eq!(rank::best(&vec![5, 1, 9, 0], 1, 10), vec![2, 0, 1]);
    let mut numbers = vec![0.5f64, -1.0, 3.25, 0.0, -0.0, f64::INFINITY, -2.5e-310];
    numbers.sort_by(|a, b| a.partial_cmp(b).unwrap());
    for w in numbers.windows(2) {
        assert!(rank::float_key(w[0].to_bits()) <= rank::float_key(w[1].to_bits()));
    }
    assert_eq!(rank::float_key((0.0f64).to_bits()), rank::float_key((-0.0f64).to_bits()));
}
