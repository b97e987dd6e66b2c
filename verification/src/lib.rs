//! A proof-of-work delegation library: a client-supplied record is extended
//! with a nonce tag, canonically serialized, and a nonce value is searched for
//! so that the SHA-256 digest of the serialized record has at least the
//! requested number of leading zero bits.

pub mod admission;
pub mod canon;
pub mod digest;
pub mod event;
pub mod handler;
pub mod hexfmt;
pub mod pow;
