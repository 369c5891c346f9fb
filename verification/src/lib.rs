//! Codec for a tag-length-value binary record stream as used by legacy
//! spreadsheet interchange containers.
//!
//! The crate covers the variable-length size and identifier codecs, the
//! record envelope with its read/write protocol over an in-memory byte
//! stream, a streaming filtering scanner, and a generic field-marshalling
//! framework that packs structured values into fixed-width byte layouts.

use vstd::prelude::*;

pub mod biff_data;
pub mod biff_id;
pub mod biff_record;
pub mod biff_scanner;
pub mod biff_size;
pub mod common;
pub mod composites;
pub mod le_bytes;
pub mod reader;

verus! {

/// Outcome of parsing one field of a record header at some position of a
/// byte stream: the decoded value together with the number of bytes it
/// occupied, or the reason the header cannot be decoded there.
pub enum ParseOutcome<T> {
    /// A value was decoded from `n` bytes.
    Parsed { v: T, n: nat },
    /// The stream ended before the field was complete.
    Truncated,
    /// The bytes at this position lie outside the wire format.
    Malformed,
}

} // verus!
