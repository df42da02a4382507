//! A runtime for conversational agents: the logic by which an agent reads what is
//! said to it, makes up its mind, answers and remembers.
//!
//! Requests, storage and streams are the business of the program around the
//! library; the library says what they are to be and what follows from what came
//! back.
pub mod api;
pub mod blocks;
pub mod bootstrap;
pub mod bytes;
pub mod chain;
pub mod character;
pub mod cli;
pub mod coding;
pub mod compose;
pub mod conditions;
pub mod error;
pub mod hooks;
pub mod ids;
pub mod knowledge;
pub mod lines;
pub mod metrics;
pub mod models;
pub mod number;
pub mod octets;
pub mod outside;
pub mod parody;
pub mod passages;
pub mod patterns;
pub mod pipeline;
pub mod planner;
pub mod platforms;
pub mod polling;
pub mod prompts;
pub mod rank;
pub mod readings;
pub mod records;
pub mod respond;
pub mod retry;
pub mod runtime;
pub mod search;
pub mod session;
pub mod sql;
pub mod sse;
pub mod storage;
pub mod summarize;
pub mod tags;
pub mod template;
pub mod text;
pub mod time;
pub mod tokens;
pub mod tools;
pub mod types;
pub mod vamp;
pub mod vamp_api;
