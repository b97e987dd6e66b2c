//! The record being worked on, the request and response envelopes, and the
//! errors a proof-of-work request can end in.

use vstd::prelude::*;

verus! {

/// Mathematical view of a record: plain integers and character sequences.
pub ghost struct EventView {
    pub created_at: u64,
    pub kind: u32,
    pub tags: Seq<Seq<Seq<char>>>,
    pub content: Seq<char>,
    pub pubkey: Seq<char>,
}

/// The structured record whose digest is tuned: a creation timestamp, a kind
/// identifier, ordered tag entries (each an ordered sequence of strings),
/// free-form content, and an identity string. Field order is part of the
/// canonical serialization.
#[derive(Clone)]
pub struct NostrEvent {
    pub created_at: u64,
    pub kind: u32,
    pub tags: Vec<Vec<String>>,
    pub content: String,
    pub pubkey: String,
}

impl View for NostrEvent {
    type V = EventView;

    open spec fn view(&self) -> EventView {
        EventView {
            created_at: self.created_at,
            kind: self.kind,
            tags: self.tags.deep_view(),
            content: self.content@,
            pubkey: self.pubkey@,
        }
    }
}

/// One proof-of-work request: the record and the requested difficulty.
/// A `target_pow` of zero means "use the server default".
pub struct PowRequest {
    pub event: NostrEvent,
    pub target_pow: u32,
}

/// One proof-of-work response: the record with the nonce tag's value filled
/// in, and the difficulty actually achieved.
pub struct PowResponse {
    pub event: NostrEvent,
    pub pow: u32,
}

/// How a proof-of-work request can fail. Either way the request is dropped
/// and the connection stays open.
#[derive(Clone, Copy, Debug, PartialEq, Eq, Structural)]
pub enum PowError {
    /// The placeholder pattern was absent from the serialized record.
    FieldNotFound,
    /// The nonce counter space was exhausted without a winning candidate.
    SearchExhausted,
}

impl PowError {
    /// A human-readable description of the error.
    pub fn describe(&self) -> (r: &'static str)
        ensures
            *self is FieldNotFound ==> r@ == "nonce placeholder not found in the serialized event"@,
            *self is SearchExhausted ==> r@ == "nonce space exhausted"@,
    {
        proof {
            reveal_strlit("nonce placeholder not found in the serialized event");
            reveal_strlit("nonce space exhausted");
        }
        match self {
            PowError::FieldNotFound => "nonce placeholder not found in the serialized event",
            PowError::SearchExhausted => "nonce space exhausted",
        }
    }
}

} // verus!
