//! The errors of the library.
use vstd::prelude::*;

use crate::ids::Uuid;

verus! {

#[derive(Clone, Debug)]
pub enum RustlizaError {
    Database(String),
    ModelProvider(String),
    CharacterLoad(String),
    Template(String),
    ActionNotFound(String),
    EntityNotFound(Uuid),
    RoomNotFound(Uuid),
    Serialization(String),
    Io(String),
    Other(String),
}

impl RustlizaError {
    /// What is shown for the error.
    pub open spec fn text(self) -> Seq<char> {
        match self {
            RustlizaError::Database(e) => "database error: "@ + e@,
            RustlizaError::ModelProvider(e) => "model provider error: "@ + e@,
            RustlizaError::CharacterLoad(e) => "character load error: "@ + e@,
            RustlizaError::Template(e) => "template error: "@ + e@,
            RustlizaError::ActionNotFound(e) => "action not found: "@ + e@,
            RustlizaError::EntityNotFound(id) => "entity not found: "@ + id.text(),
            RustlizaError::RoomNotFound(id) => "room not found: "@ + id.text(),
            RustlizaError::Serialization(e) => "serialization error: "@ + e@,
            RustlizaError::Io(e) => "io error: "@ + e@,
            RustlizaError::Other(e) => e@,
        }
    }

    /// What is shown for the error.
    pub fn message(&self) -> (r: String)
        ensures
            r@ == self.text(),
    {
        match self {
            RustlizaError::Database(e) => prefixed("database error: ", e.as_str()),
            RustlizaError::ModelProvider(e) => prefixed("model provider error: ", e.as_str()),
            RustlizaError::CharacterLoad(e) => prefixed("character load error: ", e.as_str()),
            RustlizaError::Template(e) => prefixed("template error: ", e.as_str()),
            RustlizaError::ActionNotFound(e) => prefixed("action not found: ", e.as_str()),
            RustlizaError::EntityNotFound(id) => prefixed(
                "entity not found: ",
                id.to_text().as_str(),
            ),
            RustlizaError::RoomNotFound(id) => prefixed("room not found: ", id.to_text().as_str()),
            RustlizaError::Serialization(e) => prefixed("serialization error: ", e.as_str()),
            RustlizaError::Io(e) => prefixed("io error: ", e.as_str()),
            RustlizaError::Other(e) => e.clone(),
        }
    }
}

/// `head` and behind it `tail`.
pub fn prefixed(head: &str, tail: &str) -> (r: String)
    ensures
        r@ == head@ + tail@,
{
    let mut out = head.to_owned();
    out.append(tail);
    out
}

} // verus!
