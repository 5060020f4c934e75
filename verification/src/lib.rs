//! Decision core of a chat-client automation server.
//!
//! What the server sees goes in as plain values, and what it has to do comes out as plain values.
//! Where deciding and doing take turns, a state machine says what is needed next and takes in the
//! answer.

pub mod seqs;
pub mod text;
pub mod text_map;
pub mod clock;

pub mod a11y;
pub mod titles;
pub mod multi_frame;
pub mod target_chat;
pub mod document;
pub mod send_message;

pub mod session;
pub mod health_monitor;

pub mod keys;
pub mod media;
pub mod messages;

pub mod live_db;
pub mod snapshot;
pub mod hot_query;
pub mod queries;
