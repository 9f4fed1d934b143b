//! A collaborative text-session engine: named conversations, each holding one
//! committed text buffer and per-participant draft buffers, mutated by
//! range-replace and commit operations under a permission hierarchy, with
//! routing of updates to the eligible participants.
//!
//! The engine itself is pure and in-memory: transport, wire decoding and
//! timestamps are the caller's concern. Commands arrive as already-parsed
//! values together with the issuing participant's identifier, and the engine
//! answers with the state change and the set of recipients that should hear
//! of it.
//!
//! The log of solidified messages is kept per conversation, beside that
//! conversation's committed buffer and drafts; membership is defined by
//! presence in a conversation's sets, not by a live connection.

pub mod convo;
pub mod dispatch;
pub mod errors;
pub mod ids;
pub mod nick;
pub mod perm;
pub mod registry;
pub mod selection;
pub mod textbuf;
pub mod workspace;

use vstd::prelude::*;

verus! {

} // verus!
