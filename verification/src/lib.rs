//! A typed, queryable view of a chat-history export document.
//!
//! The export is a nested JSON document describing conversations,
//! participants, and timestamped events.  This crate ingests such a
//! document (already parsed into a generic structured value) into a
//! strongly-typed schema, and offers the derived values a renderer
//! needs: decoded timestamps, a deduplicated participant index,
//! conversation lookup by participant name, plain-text extraction
//! from chat messages, and recovery of locally saved attachment
//! files from their URL-encoded remote names.

use vstd::prelude::*;

pub mod embed;
pub mod ingest;
pub mod json;
pub mod participants;
pub mod raw;
pub mod resolve;
pub mod select;
pub mod sort;
pub mod strutil;
pub mod text;
pub mod timestamp;
pub mod urldecode;

pub use crate::raw::Hangouts;

verus! {

/// Why a derived value could not be decoded.
#[derive(Debug, Clone, Copy, PartialEq, Eq, Structural)]
pub enum DecodeError {
    /// A raw timestamp held a non-digit, was too short, or named a
    /// time outside the representable range.
    MalformedTimestamp,
    /// A percent sequence was truncated or not hexadecimal, or the
    /// decoded bytes were not well-formed text.
    MalformedUrlEncoding,
}

} // verus!
