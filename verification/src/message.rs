//! Channel messages: which way they travel and what they carry.
use vstd::prelude::*;

verus! {

/// Whether a channel message came in or goes out.
#[derive(Debug, Clone, Copy, PartialEq, Eq, Structural)]
pub enum MessageDirection {
    Incoming,
    Outgoing,
}

/// The content of a channel message. The audio duration and the location's
/// coordinates, which no decision here reads, are left out.
#[derive(Debug, Clone, PartialEq, Eq)]
pub enum MessageContent {
    Text(String),
    Image { url: String, caption: Option<String> },
    Audio { url: String },
    Video { url: String, caption: Option<String> },
    File { url: String, filename: String },
    Location,
    Reaction { emoji: String, target_message_id: String },
    System(String),
}

} // verus!
