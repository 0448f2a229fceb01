use vstd::prelude::*;

verus! {

/// Why a page could not be taken from a byte buffer.
#[derive(Clone, Copy, Debug, PartialEq, Eq, Structural)]
pub enum OggError {
    /// Fewer bytes are available than the fixed header, the segment table or
    /// the payload of the page needs.
    TruncatedInput,
    /// The magic is not `OggS`, the version is not zero, or the packet type
    /// byte is none of 0, 2 and 4.
    MalformedHeader,
    /// The stored checksum differs from the one computed over the page.
    ChecksumMismatch,
}

} // verus!
