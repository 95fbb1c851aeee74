use vstd::prelude::*;

verus! {

/// Errors met while decoding a protocol data unit from bytes.
#[derive(Clone, Copy, Debug, PartialEq, Eq)]
pub enum PDUError {
    /// The input ended before a field could be read in full.
    ReadError,
    /// The version bits hold no known version.
    InvalidVersion(u8),
    /// The direction bit holds no known direction.
    InvalidDirection(u8),
    /// The byte holds no known transmission mode.
    InvalidTransmissionMode(u8),
    /// The CRC flag holds no known value.
    InvalidCRCFlag(u8),
    /// The file size flag holds no known value.
    InvalidFileSizeFlag(u8),
    /// The segmentation control bit holds no known value.
    InvalidSegmentControl(u8),
    /// The segment metadata flag holds no known value.
    InvalidSegmentMetadataFlag(u8),
    /// The CRC flag is set but the data field length on the wire, which
    /// counts the two CRC bytes, is below 2.
    InvalidDataFieldLength(u16),
    /// An identifier was given in a number of bytes other than 1, 2, 4 or 8.
    UnknownIDLength(u8),
}

/// The result of a decoding step.
pub type PDUResult<T> = Result<T, PDUError>;

} // verus!
