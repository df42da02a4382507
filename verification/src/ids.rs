//! Identifiers of agents, entities, rooms, worlds and memories.
use vstd::prelude::*;

use crate::outside;

verus! {

/// A universally unique identifier: 128 bits, the first byte of its textual
/// form in the most significant place.
#[derive(Clone, Copy, Debug, PartialEq, Eq, Hash, Structural)]
pub struct Uuid {
    pub bits: u128,
}

pub type AgentId = Uuid;

pub type EntityId = Uuid;

pub type RoomId = Uuid;

pub type WorldId = Uuid;

pub type MemoryId = Uuid;

/// The lower-case hexadecimal digit for `n`.
pub open spec fn hex_digit(n: nat) -> char
    recommends
        n < 16,
{
    if n < 10 {
        ('0' as u32 + n) as char
    } else {
        ('a' as u32 + n - 10) as char
    }
}

/// `16` to the power `n`.
pub open spec fn pow16(n: nat) -> nat
    decreases n,
{
    if n == 0 {
        1
    } else {
        16 * pow16((n - 1) as nat)
    }
}

/// The `k`-th of the 32 hexadecimal digits of `bits`.
pub open spec fn nibble(bits: nat, k: int) -> nat {
    (bits / pow16((31 - k) as nat)) % 16
}

/// `bits` as 32 hexadecimal digits in groups of 8, 4, 4, 4 and 12, with a
/// hyphen between each two groups.
pub open spec fn hyphenated(bits: nat) -> Seq<char> {
    Seq::new(
        36,
        |i: int|
            if i == 8 || i == 13 || i == 18 || i == 23 {
                '-'
            } else {
                let hyphens: int = if i < 8 { 0 } else if i < 13 { 1 } else if i < 18 { 2 } else if i
                    < 23 { 3 } else { 4 };
                hex_digit(nibble(bits, i - hyphens))
            },
    )
}

/// The version digit is 4 and the variant bits are those of RFC 9562.
pub open spec fn is_v4(bits: nat) -> bool {
    nibble(bits, 12) == 4 && 8 <= nibble(bits, 16) <= 11
}

impl Uuid {
    /// The textual form of the identifier.
    pub open spec fn text(self) -> Seq<char> {
        hyphenated(self.bits as nat)
    }

    /// The identifier with all bits zero.
    pub fn nil() -> (r: Self)
        ensures
            r.bits == 0,
    {
        Uuid { bits: 0 }
    }

    /// The textual form of the identifier, which `parse_str` reads back.
    pub fn to_text(&self) -> (r: String)
        ensures
            r@ == self.text(),
            outside::uuid_parsed(r@) == Some(self.bits),
    {
        outside::uuid_to_string(self.bits)
    }

    /// The identifier that `s` writes, in any of the forms that are read.
    pub fn parse_str(s: &str) -> (r: Option<Self>)
        ensures
            match r {
                Some(u) => outside::uuid_parsed(s@) == Some(u.bits),
                None => outside::uuid_parsed(s@) is None,
            },
    {
        match outside::uuid_parse_str(s) {
            Ok(bits) => Some(Uuid { bits }),
            Err(_) => None,
        }
    }

    /// The identifier that `s` writes, or why it writes none.
    pub fn read(s: &str) -> (r: Result<Self, String>)
        ensures
            match r {
                Ok(u) => outside::uuid_read(s@) == Ok::<u128, Seq<char>>(u.bits),
                Err(e) => outside::uuid_read(s@) == Err::<u128, Seq<char>>(e@),
            },
    {
        match outside::uuid_parse_str(s) {
            Ok(bits) => Ok(Uuid { bits }),
            Err(e) => Err(e),
        }
    }

    /// A random identifier.
    pub fn new_v4() -> (r: Self)
        ensures
            is_v4(r.bits as nat),
    {
        Uuid { bits: outside::uuid_new_v4() }
    }
}

} // verus!
