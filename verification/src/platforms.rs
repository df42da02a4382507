//! The platforms that messages come from: how their identifiers become those of
//! the agent, and what a message of theirs brings about.
use vstd::prelude::*;
use vstd::arithmetic::div_mod::lemma_div_denominator;
use vstd::utf8::*;

use crate::bytes;
use crate::error;
use crate::error::RustlizaError;
use crate::ids;
use crate::ids::{AgentId, Uuid};
use crate::number;
use crate::octets;
use crate::passages;
use crate::text;
use crate::time;
use crate::types::{ChannelType, Content, Entity, Memory, MemoryType, Metadata, Room};

verus! {

// ---------------------------------------------------------------------------
// Identifiers
// ---------------------------------------------------------------------------

/// Sixteen bytes with the version and the variant of a random identifier.
pub open spec fn versioned(b: Seq<u8>) -> Seq<u8> {
    b.update(6, (b[6] & 0x0f) | 0x40).update(8, (b[8] & 0x3f) | 0x80)
}

/// The bytes of the identifier for a number.
pub open spec fn id_bytes(n: nat) -> Seq<u8> {
    versioned(octets::little_endian(n, 8) + seq![0u8, 0u8, 0u8, 0u8, 0u8, 0u8, 0u8, 0u8])
}

/// A number as an unsigned one of 64 bits in two's complement.
pub open spec fn unsigned(n: int) -> nat {
    (if n >= 0 {
        n
    } else {
        n + 0x1_0000_0000_0000_0000
    }) as nat
}

/// A hash of bytes in 64 bits.
pub open spec fn hash_of(b: Seq<u8>) -> nat
    decreases b.len(),
{
    if b.len() == 0 {
        0
    } else {
        (hash_of(b.drop_last()) * 31 + b.last() as nat) % 0x1_0000_0000_0000_0000
    }
}

/// The bytes of the identifier for a hash: once in each order.
pub open spec fn hash_bytes(h: nat) -> Seq<u8> {
    versioned(octets::little_endian(h, 8) + octets::little_endian(h, 8).reverse())
}

/// Puts in the version and the variant, and makes the identifier.
fn id_from_bytes(b: Vec<u8>) -> (r: Uuid)
    requires
        b@.len() == 16,
    ensures
        r.bits == octets::big_endian(versioned(b@)),
{
    let mut b = b;
    let ghost start = b@;
    let six = (b[6] & 0x0f) | 0x40;
    let eight = (b[8] & 0x3f) | 0x80;
    b.set(6, six);
    b.set(8, eight);
    assert(b@ =~= versioned(start));
    Uuid { bits: octets::from_big_endian(&b) }
}

/// The identifier for a number.
fn id_of_number(n: u64) -> (r: Uuid)
    ensures
        r.bits == octets::big_endian(id_bytes(n as nat)),
{
    let mut b: Vec<u8> = Vec::new();
    octets::push_little_endian(&mut b, n, 8);
    proof {
        octets::lemma_little_endian_len(n as nat, 8);
        assert(b@ =~= octets::little_endian(n as nat, 8));
    }
    let mut i: usize = 0;
    while i < 8
        invariant
            i <= 8,
            b@.len() == 8 + i,
            octets::little_endian(n as nat, 8).len() == 8,
            b@ == octets::little_endian(n as nat, 8) + Seq::new(i as nat, |j: int| 0u8),
        decreases 8 - i,
    {
        b.push(0);
        i = i + 1;
        assert(b@ =~= octets::little_endian(n as nat, 8) + Seq::new(i as nat, |j: int| 0u8));
    }
    assert(b@ =~= octets::little_endian(n as nat, 8) + seq![0u8, 0u8, 0u8, 0u8, 0u8, 0u8, 0u8, 0u8]);
    id_from_bytes(b)
}

/// The identifier for a number of Discord.
pub fn discord_id_to_uuid(id: u64) -> (r: Uuid)
    ensures
        r.bits == octets::big_endian(id_bytes(id as nat)),
{
    id_of_number(id)
}

/// The identifier for a number of Telegram.
pub fn telegram_id_to_uuid(chat_id: i64) -> (r: Uuid)
    ensures
        r.bits == octets::big_endian(id_bytes(unsigned(chat_id as int))),
{
    let n: u64 = if chat_id >= 0 {
        chat_id as u64
    } else {
        (chat_id + 0x7fff_ffff_ffff_ffff + 1) as u64 + 0x8000_0000_0000_0000
    };
    id_of_number(n)
}

/// A hash of a text's bytes in 64 bits.
fn text_hash(s: &str) -> (r: u64)
    ensures
        r == hash_of(encode_utf8(s@)),
{
    let b = s.as_bytes();
    let mut h: u64 = 0;
    let mut i: usize = 0;
    while i < b.len()
        invariant
            i <= b@.len(),
            b@ == encode_utf8(s@),
            h == hash_of(b@.take(i as int)),
        decreases b.len() - i,
    {
        assert(b@.take(i + 1).drop_last() =~= b@.take(i as int));
        h = ((h as u128 * 31 + b[i] as u128) % 0x1_0000_0000_0000_0000) as u64;
        i = i + 1;
    }
    assert(b@.take(b@.len() as int) =~= b@);
    h
}

/// The identifier for a number of Twitter, which is given as text.
pub fn twitter_id_to_uuid(id: &str) -> (r: Uuid)
    ensures
        r.bits == octets::big_endian(hash_bytes(hash_of(encode_utf8(id@)))),
{
    let h = text_hash(id);
    let mut b: Vec<u8> = Vec::new();
    octets::push_little_endian(&mut b, h, 8);
    let ghost le = octets::little_endian(h as nat, 8);
    proof {
        octets::lemma_little_endian_len(h as nat, 8);
        assert(b@ =~= le);
    }
    let mut i: usize = 0;
    while i < 8
        invariant
            i <= 8,
            le.len() == 8,
            b@.len() == 8 + i,
            b@ == le + le.reverse().take(i as int),
        decreases 8 - i,
    {
        let x = b[7 - i];
        b.push(x);
        i = i + 1;
        assert(b@ =~= le + le.reverse().take(i as int));
    }
    assert(le.reverse().take(8) =~= le.reverse());
    id_from_bytes(b)
}

/// What stands before the last `k` bytes is the value without its lowest `k`
/// bytes.
proof fn lemma_high_bytes(b: Seq<u8>, k: nat)
    requires
        k <= b.len(),
    ensures
        octets::big_endian(b) / octets::pow256(k) == octets::big_endian(b.take(b.len() - k)),
        octets::pow256(k) > 0,
    decreases k,
{
    if k == 0 {
        assert(b.take(b.len() as int) =~= b);
    } else {
        lemma_high_bytes(b.drop_last(), (k - 1) as nat);
        assert(b.drop_last().take(b.len() - k) =~= b.take(b.len() - k));
        lemma_div_denominator(
            octets::big_endian(b) as int,
            256,
            octets::pow256((k - 1) as nat) as int,
        );
        assert(octets::big_endian(b) / 256 == octets::big_endian(b.drop_last()));
    }
}

/// The version and the variant of sixteen bytes.
proof fn lemma_version_digits(b: Seq<u8>)
    requires
        b.len() == 16,
    ensures
        ids::nibble(octets::big_endian(b), 12) == b[6] as nat / 16,
        ids::nibble(octets::big_endian(b), 16) == b[8] as nat / 16,
{
    let x = octets::big_endian(b);
    lemma_high_bytes(b, 9);
    lemma_high_bytes(b, 7);
    reveal_with_fuel(octets::pow256, 10);
    reveal_with_fuel(ids::pow16, 20);
    lemma_div_denominator(x as int, octets::pow256(9) as int, 16);
    lemma_div_denominator(x as int, octets::pow256(7) as int, 16);
    assert(ids::pow16(19) == octets::pow256(9) * 16);
    assert(ids::pow16(15) == octets::pow256(7) * 16);
    let six = b.take(7);
    let eight = b.take(9);
    assert(six.last() == b[6]);
    assert(eight.last() == b[8]);
    assert(octets::big_endian(six) == octets::big_endian(six.drop_last()) * 256 + b[6] as nat);
    assert(octets::big_endian(eight) == octets::big_endian(eight.drop_last()) * 256 + b[8] as nat);
}

/// Every identifier made from sixteen bytes in this way has the form of a random
/// one.
pub proof fn platform_ids_are_v4(b: Seq<u8>)
    requires
        b.len() == 16,
    ensures
        ids::is_v4(octets::big_endian(versioned(b))),
{
    let v = versioned(b);
    lemma_version_digits(v);
    let x = b[6];
    let y = b[8];
    assert(((x & 0x0f) | 0x40) / 16 == 4) by (bit_vector);
    assert(8 <= ((y & 0x3f) | 0x80) / 16 && ((y & 0x3f) | 0x80) / 16 <= 11) by (bit_vector);
}

/// Two numbers share an identifier exactly when their bytes agree but for the
/// upper half of the seventh, where the version stands.
pub proof fn ids_tell_numbers_apart(m: nat, n: nat)
    ensures
        octets::big_endian(id_bytes(m)) == octets::big_endian(id_bytes(n)) <==> {
            let a = octets::little_endian(m, 8);
            let b = octets::little_endian(n, 8);
            (forall|k: int| 0 <= k < 8 && k != 6 ==> a[k] == #[trigger] b[k]) && a[6] % 16 == b[6]
                % 16
        },
{
    octets::lemma_little_endian_len(m, 8);
    octets::lemma_little_endian_len(n, 8);
    let a = octets::little_endian(m, 8);
    let b = octets::little_endian(n, 8);
    let va = id_bytes(m);
    let vb = id_bytes(n);
    let x = a[6];
    let y = b[6];
    assert(((x & 0x0f) | 0x40) == ((y & 0x0f) | 0x40) <==> x % 16 == y % 16) by (bit_vector);
    assert(va[6] == (x & 0x0f) | 0x40);
    assert(vb[6] == (y & 0x0f) | 0x40);
    if octets::big_endian(va) == octets::big_endian(vb) {
        octets::lemma_big_endian_injective(va, vb);
        assert forall|k: int| 0 <= k < 8 && k != 6 implies a[k] == #[trigger] b[k] by {
            assert(va[k] == a[k]);
            assert(vb[k] == b[k]);
        }
    }
    if (forall|k: int| 0 <= k < 8 && k != 6 ==> a[k] == #[trigger] b[k]) && a[6] % 16 == b[6] % 16 {
        assert forall|k: int| 0 <= k < 16 implies va[k] == vb[k] by {
            if k < 8 && k != 6 {
                assert(a[k] == b[k]);
            }
        }
        assert(va =~= vb);
    }
}

// ---------------------------------------------------------------------------
// What a message brings about
// ---------------------------------------------------------------------------

/// What a message from a platform brings about: who sent it, where, and the
/// message itself.
pub struct Incoming {
    pub entity: Entity,
    pub room: Room,
    pub memory: Memory,
}

/// An entity with one name.
pub open spec fn is_sender(
    e: Entity,
    id: Uuid,
    agent_id: AgentId,
    name: Seq<char>,
    metadata: Metadata,
) -> bool {
    &&& e.id == id
    &&& e.agent_id == agent_id
    &&& text::texts(e.names@) == seq![name]
    &&& e.metadata == Some(metadata)
    &&& e.created_at is Some
    &&& e.created_at.unwrap().valid()
}

/// A room of a platform.
pub open spec fn is_place(
    r: Room,
    id: Uuid,
    agent_id: AgentId,
    source: Seq<char>,
    channel_type: ChannelType,
    name: Option<Seq<char>>,
    channel_id: Option<Seq<char>>,
    world_id: Option<Uuid>,
) -> bool {
    &&& r.id == id
    &&& r.agent_id == agent_id
    &&& r.source@ == source
    &&& r.channel_type == channel_type
    &&& text::opt_text(r.name) == name
    &&& text::opt_text(r.channel_id) == channel_id
    &&& r.world_id == world_id
    &&& r.metadata is None
    &&& r.created_at is Some
    &&& r.created_at.unwrap().valid()
}

/// A message that was said in a room.
pub open spec fn is_said(
    m: Memory,
    agent_id: AgentId,
    entity_id: Uuid,
    room_id: Uuid,
    said: Seq<char>,
    source: Seq<char>,
) -> bool {
    &&& m.created_at is Some
    &&& m.created_at.unwrap().valid()
    &&& ids::is_v4(m.id.bits as nat)
    &&& m.is_message(m.id, m.created_at.unwrap(), agent_id, entity_id, room_id)
    &&& m.content.is(Some(said), None, Some(source))
}

/// An entity with one name.
fn sender(id: Uuid, agent_id: AgentId, name: String, metadata: Metadata) -> (r: Entity)
    ensures
        is_sender(r, id, agent_id, name@, metadata),
{
    let mut names: Vec<String> = Vec::new();
    names.push(name);
    assert(text::texts(names@) =~= seq![name@]);
    Entity { id, agent_id, names, metadata: Some(metadata), created_at: Some(time::now()) }
}

/// The replies that are sent: the texts of the responses that have one that is
/// not empty.
pub open spec fn reply_texts(responses: Seq<Memory>) -> Seq<Seq<char>>
    decreases responses.len(),
{
    if responses.len() == 0 {
        Seq::empty()
    } else {
        let front = reply_texts(responses.drop_last());
        match responses.last().content.text {
            Some(t) => if t@.len() > 0 {
                front.push(t@)
            } else {
                front
            },
            None => front,
        }
    }
}

/// The replies that are sent.
pub fn replies(responses: &Vec<Memory>) -> (r: Vec<String>)
    ensures
        text::texts(r@) == reply_texts(responses@),
{
    let mut out: Vec<String> = Vec::new();
    let mut i: usize = 0;
    assert(text::texts(out@) =~= reply_texts(responses@.take(0)));
    while i < responses.len()
        invariant
            i <= responses@.len(),
            text::texts(out@) == reply_texts(responses@.take(i as int)),
        decreases responses.len() - i,
    {
        proof {
            assert(responses@.take(i + 1).drop_last() =~= responses@.take(i as int));
        }
        match &responses[i].content.text {
            Some(t) => if t.as_str().unicode_len() > 0 {
                let ghost before = out@;
                out.push(t.clone());
                assert(text::texts(out@) =~= text::texts(before).push(t@));
            },
            None => {},
        }
        i = i + 1;
    }
    assert(responses@.take(responses@.len() as int) =~= responses@);
    out
}

/// No reply that is sent is empty.
pub proof fn replies_are_not_empty(responses: Seq<Memory>)
    ensures
        forall|i: int|
            0 <= i < reply_texts(responses).len() ==> #[trigger] reply_texts(responses)[i].len()
                > 0,
    decreases responses.len(),
{
    if responses.len() > 0 {
        replies_are_not_empty(responses.drop_last());
        let front = reply_texts(responses.drop_last());
        let all = reply_texts(responses);
        assert forall|i: int| 0 <= i < all.len() implies #[trigger] all[i].len() > 0 by {
            if i < front.len() {
                assert(all[i] == front[i]);
                assert(front[i].len() > 0);
            }
        }
    }
}

// ---------------------------------------------------------------------------
// Discord
// ---------------------------------------------------------------------------

/// The access to Discord.
#[derive(Clone, Debug)]
pub struct DiscordService {
    pub token: String,
}

impl DiscordService {
    pub fn new(token: String) -> (r: Self)
        ensures
            r.token == token,
    {
        DiscordService { token }
    }

    pub fn name(&self) -> (r: &'static str)
        ensures
            r@ == "discord"@,
    {
        "discord"
    }
}

/// A message on Discord.
#[derive(Clone, Debug)]
pub struct DiscordMessage {
    pub author_id: u64,
    pub author_name: String,
    pub author_is_bot: bool,
    pub discriminator: Option<u16>,
    pub channel_id: u64,
    pub guild_id: Option<u64>,
    pub content: String,
}

/// The identifier for a number.
pub open spec fn number_id(n: nat) -> Uuid {
    Uuid { bits: octets::big_endian(id_bytes(n)) as u128 }
}

/// What a message on Discord brings about.
pub open spec fn discord_brings(msg: DiscordMessage, agent_id: AgentId, r: Incoming) -> bool {
    let sent_by = number_id(msg.author_id as nat);
    let sent_in = number_id(msg.channel_id as nat);
    &&& is_sender(
        r.entity,
        sent_by,
        agent_id,
        msg.author_name@,
        Metadata::Discord { discord_id: msg.author_id, discriminator: msg.discriminator },
    )
    &&& is_place(
        r.room,
        sent_in,
        agent_id,
        "discord"@,
        if msg.guild_id is None {
            ChannelType::Dm
        } else {
            ChannelType::Group
        },
        Some("discord-"@ + number::decimal(msg.channel_id as nat)),
        Some(number::decimal(msg.channel_id as nat)),
        match msg.guild_id {
            Some(g) => Some(number_id(g as nat)),
            None => None,
        },
    )
    &&& is_said(r.memory, agent_id, sent_by, sent_in, msg.content@, "discord"@)
}

/// This is taken of a message on Discord; nothing where a bot sent it.
pub open spec fn takes_discord(msg: DiscordMessage, agent_id: AgentId, r: Option<Incoming>) -> bool {
    &&& r is None <==> msg.author_is_bot
    &&& r is Some ==> discord_brings(msg, agent_id, r.unwrap())
}

/// What a message on Discord brings about; nothing where a bot sent it.
pub fn discord_incoming(msg: &DiscordMessage, agent_id: AgentId) -> (r: Option<Incoming>)
    ensures
        takes_discord(*msg, agent_id, r),
{
    if msg.author_is_bot {
        return None;
    }
    let entity_id = discord_id_to_uuid(msg.author_id);
    let room_id = discord_id_to_uuid(msg.channel_id);
    let world_id = match msg.guild_id {
        Some(g) => Some(discord_id_to_uuid(g)),
        None => None,
    };
    let channel = number::decimal_text(msg.channel_id);
    let entity = sender(
        entity_id,
        agent_id,
        msg.author_name.clone(),
        Metadata::Discord { discord_id: msg.author_id, discriminator: msg.discriminator },
    );
    let room = Room {
        id: room_id,
        agent_id,
        source: "discord".to_owned(),
        channel_type: if msg.guild_id.is_none() {
            ChannelType::Dm
        } else {
            ChannelType::Group
        },
        name: Some(error::prefixed("discord-", channel.as_str())),
        channel_id: Some(channel),
        world_id,
        metadata: None,
        created_at: Some(time::now()),
    };
    let memory = Memory::new_message(
        agent_id,
        entity_id,
        room_id,
        Content::text_from(msg.content.clone(), "discord"),
    );
    Some(Incoming { entity, room, memory })
}

// ---------------------------------------------------------------------------
// Telegram
// ---------------------------------------------------------------------------

/// The access to Telegram.
#[derive(Clone, Debug)]
pub struct TelegramService {
    pub token: String,
}

impl TelegramService {
    pub fn new(token: String) -> (r: Self)
        ensures
            r.token == token,
    {
        TelegramService { token }
    }

    pub fn name(&self) -> (r: &'static str)
        ensures
            r@ == "telegram"@,
    {
        "telegram"
    }
}

/// Who sent a message on Telegram.
#[derive(Clone, Debug)]
pub struct TelegramUser {
    pub id: i64,
    pub username: Option<String>,
    pub first_name: String,
}

/// A message on Telegram.
#[derive(Clone, Debug)]
pub struct TelegramMessage {
    pub text: Option<String>,
    pub from: Option<TelegramUser>,
    pub chat_id: i64,
    pub chat_is_private: bool,
    pub chat_title: Option<String>,
}

/// The number of a user; that of none is zero.
pub open spec fn telegram_user_id(user: Option<TelegramUser>) -> i64 {
    match user {
        Some(u) => u.id,
        None => 0,
    }
}

/// The name of a user: the user name, or else the first name.
pub open spec fn telegram_user_name(user: Option<TelegramUser>) -> Seq<char> {
    match user {
        Some(u) => match u.username {
            Some(n) => n@,
            None => u.first_name@,
        },
        None => "Unknown"@,
    }
}

/// What a message on Telegram brings about.
pub open spec fn telegram_brings(msg: TelegramMessage, agent_id: AgentId, r: Incoming) -> bool {
    let user_id = telegram_user_id(msg.from);
    let sent_by = number_id(unsigned(user_id as int));
    let sent_in = number_id(unsigned(msg.chat_id as int));
    &&& is_sender(
        r.entity,
        sent_by,
        agent_id,
        telegram_user_name(msg.from),
        Metadata::Telegram { telegram_id: user_id, chat_id: msg.chat_id },
    )
    &&& is_place(
        r.room,
        sent_in,
        agent_id,
        "telegram"@,
        if msg.chat_is_private {
            ChannelType::Dm
        } else {
            ChannelType::Group
        },
        text::opt_text(msg.chat_title),
        Some(number::signed_decimal(msg.chat_id as int)),
        None,
    )
    &&& is_said(r.memory, agent_id, sent_by, sent_in, text::text_or_empty(msg.text), "telegram"@)
}

/// This is taken of a message on Telegram; nothing where it has no text.
pub open spec fn takes_telegram(
    msg: TelegramMessage,
    agent_id: AgentId,
    r: Option<Incoming>,
) -> bool {
    &&& r is None <==> msg.text is None
    &&& r is Some ==> telegram_brings(msg, agent_id, r.unwrap())
}

/// What a message on Telegram brings about; nothing where it has no text.
pub fn telegram_incoming(msg: &TelegramMessage, agent_id: AgentId) -> (r: Option<Incoming>)
    ensures
        takes_telegram(*msg, agent_id, r),
{
    let said = match &msg.text {
        Some(t) => t.clone(),
        None => {
            return None;
        },
    };
    let user_id: i64 = match &msg.from {
        Some(u) => u.id,
        None => 0,
    };
    let username = match &msg.from {
        Some(u) => match &u.username {
            Some(n) => n.clone(),
            None => u.first_name.clone(),
        },
        None => "Unknown".to_owned(),
    };
    let entity_id = telegram_id_to_uuid(user_id);
    let room_id = telegram_id_to_uuid(msg.chat_id);
    let entity = sender(
        entity_id,
        agent_id,
        username,
        Metadata::Telegram { telegram_id: user_id, chat_id: msg.chat_id },
    );
    let room = Room {
        id: room_id,
        agent_id,
        source: "telegram".to_owned(),
        channel_type: if msg.chat_is_private {
            ChannelType::Dm
        } else {
            ChannelType::Group
        },
        name: msg.chat_title.clone(),
        channel_id: Some(number::signed_text(msg.chat_id)),
        world_id: None,
        metadata: None,
        created_at: Some(time::now()),
    };
    let memory = Memory::new_message(
        agent_id,
        entity_id,
        room_id,
        Content::text_from(said, "telegram"),
    );
    Some(Incoming { entity, room, memory })
}

// ---------------------------------------------------------------------------
// Twitter
// ---------------------------------------------------------------------------

/// The address of the agent's own account.
pub const TWITTER_ME_URL: &'static str = "https://api.twitter.com/2/users/me";

/// The address that tweets are posted to.
pub const TWITTER_POST_URL: &'static str = "https://api.twitter.com/2/tweets";

/// The access to Twitter.
#[derive(Clone, Debug)]
pub struct TwitterService {
    pub bearer_token: String,
    pub poll_interval_ms: u64,
}

impl TwitterService {
    /// Access that polls twice a minute.
    pub fn new(bearer_token: String) -> (r: Self)
        ensures
            r.bearer_token == bearer_token,
            r.poll_interval_ms == 30_000,
    {
        TwitterService { bearer_token, poll_interval_ms: 30_000 }
    }

    /// The same access with another interval between two polls.
    pub fn with_poll_interval(self, interval_ms: u64) -> (r: Self)
        ensures
            r == (TwitterService { poll_interval_ms: interval_ms, ..self }),
    {
        let mut r = self;
        r.poll_interval_ms = interval_ms;
        r
    }

    pub fn name(&self) -> (r: &'static str)
        ensures
            r@ == "twitter"@,
    {
        "twitter"
    }

    /// What authorizes a request.
    pub fn authorization(&self) -> (r: String)
        ensures
            r@ == "Bearer "@ + self.bearer_token@,
    {
        error::prefixed("Bearer ", self.bearer_token.as_str())
    }
}

/// A tweet.
#[derive(Clone, Debug)]
pub struct TweetData {
    pub id: String,
    pub text: String,
    pub author_id: Option<String>,
    pub conversation_id: Option<String>,
}

/// An account on Twitter.
#[derive(Clone, Debug)]
pub struct UserData {
    pub id: String,
    pub name: String,
    pub username: String,
}

/// The address of the mentions of a user, from a tweet on.
pub open spec fn mentions_address(user_id: Seq<char>, since: Option<Seq<char>>) -> Seq<char> {
    let all = "https://api.twitter.com/2/users/"@ + user_id
        + "/mentions?tweet.fields=author_id,conversation_id,created_at&expansions=author_id"@;
    match since {
        Some(s) => all + "&since_id="@ + s,
        None => all,
    }
}

/// The address of the mentions of a user, from a tweet on.
pub fn mentions_url(user_id: &str, since_id: &Option<String>) -> (r: String)
    ensures
        r@ == mentions_address(user_id@, text::opt_text(*since_id)),
{
    let mut url = error::prefixed("https://api.twitter.com/2/users/", user_id);
    url.append("/mentions?tweet.fields=author_id,conversation_id,created_at&expansions=author_id");
    match since_id {
        Some(s) => {
            url.append("&since_id=");
            url.append(s.as_str());
        },
        None => {},
    }
    url
}

/// The tweet from which the next poll goes on: the newest of the last reply, or
/// the one from which that went on.
pub fn next_since(since_id: Option<String>, newest_id: Option<String>) -> (r: Option<String>)
    ensures
        r == if newest_id is Some {
            newest_id
        } else {
            since_id
        },
{
    match newest_id {
        Some(id) => Some(id),
        None => since_id,
    }
}

/// The first account with this number.
pub open spec fn account_of(users: Seq<UserData>, id: Seq<char>, from: int) -> Option<UserData>
    decreases users.len() - from,
{
    if from < 0 || from >= users.len() {
        None
    } else if users[from].id@ == id {
        Some(users[from])
    } else {
        account_of(users, id, from + 1)
    }
}

/// The position of the first account with this number.
fn find_account(users: &Vec<UserData>, id: &str) -> (r: Option<usize>)
    ensures
        match r {
            Some(i) => i < users@.len() && account_of(users@, id@, 0) == Some(users@[i as int]),
            None => account_of(users@, id@, 0) is None,
        },
{
    let mut i: usize = 0;
    while i < users.len()
        invariant
            i <= users@.len(),
            account_of(users@, id@, 0) == account_of(users@, id@, i as int),
        decreases users.len() - i,
    {
        if text::same(users[i].id.as_str(), id) {
            return Some(i);
        }
        i = i + 1;
    }
    None
}

/// The number of the author.
pub open spec fn tweet_author(t: TweetData) -> Seq<char> {
    match t.author_id {
        Some(a) => a@,
        None => "unknown"@,
    }
}

/// The identifier for a number that is given as text.
pub open spec fn text_id(id: Seq<char>) -> Uuid {
    Uuid { bits: octets::big_endian(hash_bytes(hash_of(encode_utf8(id)))) as u128 }
}

/// The bytes of a tweet's number that name its room.
pub open spec fn shown_bytes(id: Seq<char>) -> int {
    if bytes::byte_len(id) < 8 {
        bytes::byte_len(id) as int
    } else {
        8
    }
}

/// What a mention brings about.
pub open spec fn mention_brings(
    t: TweetData,
    users: Seq<UserData>,
    agent_id: AgentId,
    r: Incoming,
) -> bool {
    let author = tweet_author(t);
    let account = account_of(users, author, 0);
    let sent_by = text_id(author);
    let sent_in = match t.conversation_id {
        Some(c) => text_id(c@),
        None => text_id(t.id@),
    };
    &&& is_place(
        r.room,
        sent_in,
        agent_id,
        "twitter"@,
        ChannelType::Feed,
        Some("twitter-"@ + bytes::byte_prefix(t.id@, shown_bytes(t.id@))),
        text::opt_text(t.conversation_id),
        None,
    )
    &&& is_said(r.memory, agent_id, sent_by, sent_in, t.text@, "twitter"@)
    &&& r.entity.metadata is Some
    &&& r.entity.metadata.unwrap() is Twitter
    &&& r.entity.metadata.unwrap()->twitter_id@ == author
    &&& r.entity.metadata.unwrap()->username@ == (match account {
        Some(a) => a.username@,
        None => "unknown"@,
    })
    &&& is_sender(
        r.entity,
        sent_by,
        agent_id,
        match account {
            Some(a) => a.name@,
            None => "Unknown"@,
        },
        r.entity.metadata.unwrap(),
    )
}

/// What a mention brings about. The room is named after the first eight bytes of
/// the tweet's number.
pub fn mention_incoming(
    tweet: &TweetData,
    users: &Vec<UserData>,
    agent_id: AgentId,
) -> (r: Incoming)
    requires
        bytes::cuts_at(tweet.id@, shown_bytes(tweet.id@)),
    ensures
        mention_brings(*tweet, users@, agent_id, r),
{
    let author = match &tweet.author_id {
        Some(a) => a.clone(),
        None => "unknown".to_owned(),
    };
    let (username, display_name) = match find_account(users, author.as_str()) {
        Some(i) => (users[i].username.clone(), users[i].name.clone()),
        None => ("unknown".to_owned(), "Unknown".to_owned()),
    };
    let entity_id = twitter_id_to_uuid(author.as_str());
    let room_id = match &tweet.conversation_id {
        Some(c) => twitter_id_to_uuid(c.as_str()),
        None => twitter_id_to_uuid(tweet.id.as_str()),
    };
    let size = bytes::len(tweet.id.as_str());
    let shown: usize = if size < 8 {
        size
    } else {
        8
    };
    let (head, _tail) = bytes::cut(tweet.id.as_str(), shown);
    let entity = sender(
        entity_id,
        agent_id,
        display_name,
        Metadata::Twitter { twitter_id: author, username },
    );
    let room = Room {
        id: room_id,
        agent_id,
        source: "twitter".to_owned(),
        channel_type: ChannelType::Feed,
        name: Some(error::prefixed("twitter-", head.as_str())),
        channel_id: tweet.conversation_id.clone(),
        world_id: None,
        metadata: None,
        created_at: Some(time::now()),
    };
    let memory = Memory::new_message(
        agent_id,
        entity_id,
        room_id,
        Content::text_from(tweet.text.clone(), "twitter"),
    );
    Incoming { entity, room, memory }
}

/// The most characters of a tweet.
pub const TWEET_CHARS: usize = 280;

/// A reply as a tweet: one that is too long is cut, with an ellipsis.
pub open spec fn as_tweet(reply: Seq<char>) -> Seq<char> {
    if reply.len() > TWEET_CHARS {
        reply.take(TWEET_CHARS - 1) + "…"@
    } else {
        reply
    }
}

/// A reply as a tweet.
pub fn tweet_text(reply: &str) -> (r: String)
    ensures
        r@ == as_tweet(reply@),
{
    if reply.unicode_len() > TWEET_CHARS {
        let cs = text::chars_of(reply);
        let mut head = text::text_between(&cs, 0, TWEET_CHARS - 1);
        assert(head@ =~= reply@.take(TWEET_CHARS - 1));
        head.append("…");
        head
    } else {
        reply.to_owned()
    }
}

/// A tweet is never longer than it may be, and one that is cut is as long as it
/// may be.
pub proof fn tweets_are_short(reply: Seq<char>)
    ensures
        as_tweet(reply).len() == if reply.len() > TWEET_CHARS {
            TWEET_CHARS as nat
        } else {
            reply.len()
        },
{
    reveal_strlit("…");
}

/// What went wrong in an exchange with Twitter.
#[derive(Clone, Copy, Debug, PartialEq, Eq, Structural)]
pub enum TwitterTrouble {
    Request,
    ReadReply,
    ParseUser,
    Poll,
    ReadPoll,
    ParsePoll,
    Post,
    Refused,
}

impl TwitterTrouble {
    /// The words for it.
    pub open spec fn words(self) -> Seq<char> {
        match self {
            TwitterTrouble::Request => "twitter request failed: "@,
            TwitterTrouble::ReadReply => "failed to read twitter response: "@,
            TwitterTrouble::ParseUser => "failed to parse twitter user: "@,
            TwitterTrouble::Poll => "twitter poll failed: "@,
            TwitterTrouble::ReadPoll => "twitter response read failed: "@,
            TwitterTrouble::ParsePoll => "twitter parse failed: "@,
            TwitterTrouble::Post => "tweet post failed: "@,
            TwitterTrouble::Refused => "tweet failed: "@,
        }
    }

    /// The error for it.
    pub fn error(&self, why: &str) -> (r: RustlizaError)
        ensures
            r is Other,
            r->Other_0@ == self.words() + why@,
    {
        let head = match self {
            TwitterTrouble::Request => "twitter request failed: ",
            TwitterTrouble::ReadReply => "failed to read twitter response: ",
            TwitterTrouble::ParseUser => "failed to parse twitter user: ",
            TwitterTrouble::Poll => "twitter poll failed: ",
            TwitterTrouble::ReadPoll => "twitter response read failed: ",
            TwitterTrouble::ParsePoll => "twitter parse failed: ",
            TwitterTrouble::Post => "tweet post failed: ",
            TwitterTrouble::Refused => "tweet failed: ",
        };
        RustlizaError::Other(error::prefixed(head, why))
    }
}

// ---------------------------------------------------------------------------
// Who said what, and where
// ---------------------------------------------------------------------------

/// What a message brings about belongs together: the message is from the entity and in
/// the room that come with it, all three are the agent's, and the message and the room
/// tell the same platform.
pub open spec fn belongs_together(r: Incoming, agent_id: AgentId) -> bool {
    &&& r.memory.entity_id == r.entity.id
    &&& r.memory.room_id == r.room.id
    &&& r.memory.agent_id == agent_id
    &&& r.entity.agent_id == agent_id
    &&& r.room.agent_id == agent_id
    &&& text::opt_text(r.memory.content.source) == Some(r.room.source@)
    &&& r.memory.memory_type == MemoryType::Message
}

/// A message on Discord is kept with its text, under the name and number of its author
/// and in its channel, and the channel is a private one exactly where it is of no guild.
pub proof fn discord_messages_are_kept(
    msg: DiscordMessage,
    agent_id: AgentId,
    taken: Option<Incoming>,
)
    requires
        takes_discord(msg, agent_id, taken),
        !msg.author_is_bot,
    ensures
        taken is Some,
        ({
            let r = taken.unwrap();
            &&& belongs_together(r, agent_id)
            &&& text::opt_text(r.memory.content.text) == Some(msg.content@)
            &&& text::texts(r.entity.names@).contains(msg.author_name@)
            &&& r.entity.metadata == Some(
                Metadata::Discord { discord_id: msg.author_id, discriminator: msg.discriminator },
            )
            &&& text::opt_text(r.room.channel_id) == Some(number::decimal(msg.channel_id as nat))
            &&& r.room.name is Some
            &&& text::has(r.room.name.unwrap()@, number::decimal(msg.channel_id as nat))
            &&& r.room.channel_type == ChannelType::Dm <==> msg.guild_id is None
            &&& r.room.world_id is None <==> msg.guild_id is None
        }),
{
    let r = taken.unwrap();
    assert(text::texts(r.entity.names@)[0] == msg.author_name@);
    let channel = number::decimal(msg.channel_id as nat);
    passages::lemma_stands("discord-"@, channel, Seq::empty());
    assert("discord-"@ + channel + Seq::<char>::empty() =~= r.room.name.unwrap()@);
}

/// The same author, channel and guild on Discord are always the same entity, room and
/// world; and where two authors share one entity, or two channels one room, their numbers
/// agree but for the upper half of the seventh byte.
pub proof fn discord_authors_are_known_again(
    first: DiscordMessage,
    second: DiscordMessage,
    agent_id: AgentId,
    r: Incoming,
    s: Incoming,
)
    requires
        discord_brings(first, agent_id, r),
        discord_brings(second, agent_id, s),
    ensures
        first.author_id == second.author_id ==> r.entity.id == s.entity.id,
        first.channel_id == second.channel_id ==> r.room.id == s.room.id,
        first.guild_id == second.guild_id ==> r.room.world_id == s.room.world_id,
        first.author_id == second.channel_id ==> r.entity.id == s.room.id,
        r.entity.id == s.entity.id ==> alike(first.author_id as nat, second.author_id as nat),
        r.room.id == s.room.id ==> alike(first.channel_id as nat, second.channel_id as nat),
{
    if r.entity.id == s.entity.id {
        lemma_number_id(first.author_id as nat, second.author_id as nat);
    }
    if r.room.id == s.room.id {
        lemma_number_id(first.channel_id as nat, second.channel_id as nat);
    }
}

/// The bytes of two numbers agree but for the upper half of the seventh.
pub open spec fn alike(m: nat, n: nat) -> bool {
    let a = octets::little_endian(m, 8);
    let b = octets::little_endian(n, 8);
    (forall|k: int| 0 <= k < 8 && k != 6 ==> a[k] == #[trigger] b[k]) && a[6] % 16 == b[6] % 16
}

/// Where the identifiers of two numbers are the same, the numbers are alike.
proof fn lemma_number_id(m: nat, n: nat)
    requires
        number_id(m) == number_id(n),
    ensures
        alike(m, n),
{
    ids_tell_numbers_apart(m, n);
    octets::lemma_little_endian_len(m, 8);
    octets::lemma_little_endian_len(n, 8);
    octets::lemma_big_endian_bound(id_bytes(m));
    octets::lemma_big_endian_bound(id_bytes(n));
    reveal_with_fuel(octets::pow256, 17);
    assert(octets::pow256(16) == 0x1_0000_0000_0000_0000_0000_0000_0000_0000nat);
}

/// A message on Telegram is kept with its text, under the user name of its sender or
/// else the first name, and in its chat, under the chat's title.
pub proof fn telegram_messages_are_kept(
    msg: TelegramMessage,
    agent_id: AgentId,
    taken: Option<Incoming>,
)
    requires
        takes_telegram(msg, agent_id, taken),
        msg.text is Some,
    ensures
        taken is Some,
        ({
            let r = taken.unwrap();
            &&& belongs_together(r, agent_id)
            &&& text::opt_text(r.memory.content.text) == text::opt_text(msg.text)
            &&& msg.from is Some && msg.from.unwrap().username is Some ==> text::texts(
                r.entity.names@,
            ).contains(msg.from.unwrap().username.unwrap()@)
            &&& msg.from is Some && msg.from.unwrap().username is None ==> text::texts(
                r.entity.names@,
            ).contains(msg.from.unwrap().first_name@)
            &&& msg.from is Some ==> r.entity.metadata == Some(
                Metadata::Telegram { telegram_id: msg.from.unwrap().id, chat_id: msg.chat_id },
            )
            &&& text::opt_text(r.room.name) == text::opt_text(msg.chat_title)
            &&& text::opt_text(r.room.channel_id) == Some(number::signed_decimal(msg.chat_id as int))
            &&& r.room.channel_type == ChannelType::Dm <==> msg.chat_is_private
        }),
{
    let r = taken.unwrap();
    assert(text::texts(r.entity.names@)[0] == telegram_user_name(msg.from));
}

/// The same sender and chat on Telegram are always the same entity and room, and a
/// private chat with a user, which has the user's number, is the room that shares the
/// user's identifier.
pub proof fn telegram_senders_are_known_again(
    first: TelegramMessage,
    second: TelegramMessage,
    agent_id: AgentId,
    r: Incoming,
    s: Incoming,
)
    requires
        telegram_brings(first, agent_id, r),
        telegram_brings(second, agent_id, s),
        first.from is Some,
        second.from is Some,
    ensures
        first.from.unwrap().id == second.from.unwrap().id ==> r.entity.id == s.entity.id,
        first.chat_id == second.chat_id ==> r.room.id == s.room.id,
        first.from.unwrap().id == second.chat_id ==> r.entity.id == s.room.id,
{
}

/// A mention is kept with its text, under the name of its author where the accounts tell
/// it, and in the room of its conversation.
pub proof fn mentions_are_kept(
    t: TweetData,
    users: Seq<UserData>,
    agent_id: AgentId,
    r: Incoming,
    i: int,
)
    requires
        mention_brings(t, users, agent_id, r),
        t.author_id is Some,
        0 <= i < users.len(),
        users[i].id@ == t.author_id.unwrap()@,
        forall|k: int| 0 <= k < i ==> (#[trigger] users[k]).id@ != users[i].id@,
    ensures
        belongs_together(r, agent_id),
        text::opt_text(r.memory.content.text) == Some(t.text@),
        text::texts(r.entity.names@).contains(users[i].name@),
        r.entity.metadata is Some && r.entity.metadata.unwrap() is Twitter,
        r.entity.metadata.unwrap()->twitter_id@ == users[i].id@,
        r.entity.metadata.unwrap()->username@ == users[i].username@,
        text::opt_text(r.room.channel_id) == text::opt_text(t.conversation_id),
        r.room.channel_type == ChannelType::Feed,
{
    lemma_account(users, users[i].id@, 0, i);
    assert(text::texts(r.entity.names@)[0] == users[i].name@);
}

/// The account that is found is the first with the number.
proof fn lemma_account(users: Seq<UserData>, id: Seq<char>, from: int, i: int)
    requires
        0 <= from <= i < users.len(),
        users[i].id@ == id,
        forall|k: int| from <= k < i ==> (#[trigger] users[k]).id@ != id,
    ensures
        account_of(users, id, from) == Some(users[i]),
    decreases i - from,
{
    if from < i {
        lemma_account(users, id, from + 1, i);
    }
}

/// All mentions of one conversation are in one room, and a tweet that is of no
/// conversation is in the room of those that name it as theirs. The same author is
/// always the same entity.
pub proof fn conversations_are_one_room(
    first: TweetData,
    second: TweetData,
    users: Seq<UserData>,
    agent_id: AgentId,
    r: Incoming,
    s: Incoming,
)
    requires
        mention_brings(first, users, agent_id, r),
        mention_brings(second, users, agent_id, s),
    ensures
        first.conversation_id is Some && text::opt_text(first.conversation_id) == text::opt_text(
            second.conversation_id,
        ) ==> r.room.id == s.room.id,
        first.conversation_id is None && text::opt_text(second.conversation_id) == Some(first.id@)
            ==> r.room.id == s.room.id,
        first.author_id is Some && text::opt_text(first.author_id) == text::opt_text(
            second.author_id,
        ) ==> r.entity.id == s.entity.id,
{
}

/// The responses are sent one by one, in their order: what is sent for two runs of
/// responses is what is sent for the first and then what is sent for the second, and for
/// one response its text, unless it has none or an empty one.
pub proof fn replies_are_sent_in_order(first: Seq<Memory>, second: Seq<Memory>, m: Memory)
    ensures
        reply_texts(first + second) == reply_texts(first) + reply_texts(second),
        m.content.text is Some && m.content.text.unwrap()@.len() > 0 ==> reply_texts(seq![m])
            == seq![m.content.text.unwrap()@],
        m.content.text is None || m.content.text.unwrap()@.len() == 0 ==> reply_texts(
            seq![m],
        ).len() == 0,
    decreases second.len(),
{
    reveal_with_fuel(reply_texts, 2);
    assert(seq![m].drop_last() =~= Seq::<Memory>::empty());
    assert(Seq::<Seq<char>>::empty().push(m.content.text.unwrap()@) =~= seq![
        m.content.text.unwrap()@,
    ]);
    if second.len() == 0 {
        assert(first + second =~= first);
        assert(reply_texts(first) + reply_texts(second) =~= reply_texts(first));
    } else {
        replies_are_sent_in_order(first, second.drop_last(), m);
        assert((first + second).drop_last() =~= first + second.drop_last());
        assert((first + second).last() == second.last());
        assert(reply_texts(first + second) =~= reply_texts(first) + reply_texts(second));
    }
}

/// A reply that fits is sent whole. Of one that does not, all but the last character of
/// what is sent is the beginning of the reply.
pub proof fn tweets_hold_the_reply(reply: Seq<char>)
    ensures
        reply.len() <= 280 ==> as_tweet(reply) == reply,
        reply.len() > 280 ==> as_tweet(reply).len() == 280 && as_tweet(reply).drop_last()
            == reply.take(279) && as_tweet(reply).last() == '…',
{
    reveal_strlit("…");
    if reply.len() > 280 {
        assert(as_tweet(reply).drop_last() =~= reply.take(279));
    }
}

/// The mentions are asked for of the user, and behind that from the tweet on, where there
/// is one. Without one the address is the same up to where the tweet would stand.
pub proof fn mentions_are_asked_for(user_id: Seq<char>, since: Seq<char>)
    ensures
        text::has(mentions_address(user_id, None), user_id),
        passages::in_order(mentions_address(user_id, Some(since)), seq![user_id, since]),
        mentions_address(user_id, Some(since)).len() == mentions_address(user_id, None).len()
            + "&since_id="@.len() + since.len(),
        mentions_address(user_id, Some(since)).take(mentions_address(user_id, None).len() as int)
            == mentions_address(user_id, None),
{
    let head = "https://api.twitter.com/2/users/"@;
    let tail =
        "/mentions?tweet.fields=author_id,conversation_id,created_at&expansions=author_id"@;
    let all = mentions_address(user_id, None);
    let from = mentions_address(user_id, Some(since));
    passages::lemma_stands(head, user_id, tail);
    passages::lemma_two(head, user_id, tail + "&since_id="@, since, Seq::empty());
    assert(head + user_id + (tail + "&since_id="@) + since + Seq::<char>::empty() =~= from);
    assert(from.take(all.len() as int) =~= all);
}

} // verus!
