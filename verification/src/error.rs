//! Errors of the tag codec and of chain construction.

use vstd::prelude::*;

verus! {

/// Why a byte string could not be read as a tag, a telemetry block or an
/// entry.
#[derive(Debug, Clone, Copy, PartialEq, Eq, Structural)]
pub enum RfidDataParseError {
    /// The bytes end before the layout does.
    Truncated,
}

impl RfidDataParseError {
    /// The text shown for the error.
    pub fn message(&self) -> (out: String)
        ensures
            out@ == "Failed to parse struct: failed to fill whole buffer"@,
    {
        "Failed to parse struct: failed to fill whole buffer".to_owned()
    }
}

/// Why a hand-off entry could not be appended to a tag.
#[derive(Debug, Clone, Copy, PartialEq, Eq, Structural)]
pub enum AppendError {
    /// The tag already carries as many entries as its counter can express.
    Full,
    /// The registry snapshot has no key for this distributor id.
    UnknownKey(u32),
    /// A key could not be read, the previous signature could not be opened,
    /// or no 256-byte signature could be made.
    Crypto,
}

/// Why no entry could be added to a mirror ledger.
#[derive(Debug, Clone, Copy, PartialEq, Eq, Structural)]
pub enum LedgerError {
    /// The table of reading texts lacks a reading of the ledger or of the
    /// reported tag, so their canonical form cannot be written.
    UnknownReading,
    /// No 256-byte signature could be made with the authority's key.
    Crypto,
}

} // verus!
