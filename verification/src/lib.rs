//! Verified message-passing node runtimes and small state machines.
//!
//! The heart of the crate is `broadcast`: a gossip node that floods
//! integer values across a fixed topology and answers read-back
//! requests, with its protocol rules stated as contracts and proved.
//! Around it stand the sibling node handlers (`echo`, `generate`,
//! `node`) and a few self-contained state machines (`conway`,
//! `counter`, `todos`, `tictactoe`, `search`, `chat`).

pub mod broadcast;
pub mod chat;
pub mod conway;
pub mod counter;
pub mod digits;
pub mod echo;
pub mod envelope;
pub mod errors;
pub mod generate;
pub mod ids;
pub mod laws;
pub mod node;
pub mod pattern;
pub mod search;
pub mod tictactoe;
pub mod todos;

