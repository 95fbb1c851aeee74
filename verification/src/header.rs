use vstd::prelude::*;

use crate::error::{PDUError, PDUResult};
use crate::variable_id::VariableID;
use vstd::slice::{slice_subrange, slice_to_vec};

verus! {

/// The condition code that a transaction ends with.
#[derive(Clone, Copy, Debug, Hash, PartialEq, Eq, Structural)]
pub enum Condition {
    NoError,
    PositiveLimitReached,
    KeepAliveLimitReached,
    InvalidTransmissionMode,
    FileStoreRejection,
    FileChecksumFailure,
    FilesizeError,
    NakLimitReached,
    InactivityDetected,
    InvalidFileStructure,
    CheckLimitReached,
    UnsupportedChecksumType,
    SuspendReceived,
    CancelReceived,
}

impl Condition {
    /// The number that stands for this value on the wire.
    pub open spec fn code(self) -> u8 {
        match self {
            Condition::NoError => 0,
            Condition::PositiveLimitReached => 1,
            Condition::KeepAliveLimitReached => 2,
            Condition::InvalidTransmissionMode => 3,
            Condition::FileStoreRejection => 4,
            Condition::FileChecksumFailure => 5,
            Condition::FilesizeError => 6,
            Condition::NakLimitReached => 7,
            Condition::InactivityDetected => 8,
            Condition::InvalidFileStructure => 9,
            Condition::CheckLimitReached => 10,
            Condition::UnsupportedChecksumType => 11,
            Condition::SuspendReceived => 14,
            Condition::CancelReceived => 15,
        }
    }

    /// The value that the number `n` stands for, if any.
    pub open spec fn from_code(n: u8) -> Option<Condition> {
        if n == 0 {
            Some(Condition::NoError)
        } else if n == 1 {
            Some(Condition::PositiveLimitReached)
        } else if n == 2 {
            Some(Condition::KeepAliveLimitReached)
        } else if n == 3 {
            Some(Condition::InvalidTransmissionMode)
        } else if n == 4 {
            Some(Condition::FileStoreRejection)
        } else if n == 5 {
            Some(Condition::FileChecksumFailure)
        } else if n == 6 {
            Some(Condition::FilesizeError)
        } else if n == 7 {
            Some(Condition::NakLimitReached)
        } else if n == 8 {
            Some(Condition::InactivityDetected)
        } else if n == 9 {
            Some(Condition::InvalidFileStructure)
        } else if n == 10 {
            Some(Condition::CheckLimitReached)
        } else if n == 11 {
            Some(Condition::UnsupportedChecksumType)
        } else if n == 14 {
            Some(Condition::SuspendReceived)
        } else if n == 15 {
            Some(Condition::CancelReceived)
        } else {
            None
        }
    }

    /// The number that stands for this value on the wire.
    pub fn to_u8(&self) -> (n: u8)
        ensures
            n == self.code(),
    {
        match self {
            Condition::NoError => 0,
            Condition::PositiveLimitReached => 1,
            Condition::KeepAliveLimitReached => 2,
            Condition::InvalidTransmissionMode => 3,
            Condition::FileStoreRejection => 4,
            Condition::FileChecksumFailure => 5,
            Condition::FilesizeError => 6,
            Condition::NakLimitReached => 7,
            Condition::InactivityDetected => 8,
            Condition::InvalidFileStructure => 9,
            Condition::CheckLimitReached => 10,
            Condition::UnsupportedChecksumType => 11,
            Condition::SuspendReceived => 14,
            Condition::CancelReceived => 15,
        }
    }

    /// The value that the number `n` stands for, or `None` where `n` stands for none.
    pub fn from_u8(n: u8) -> (value: Option<Condition>)
        ensures
            value == Condition::from_code(n),
    {
        if n == 0 {
            Some(Condition::NoError)
        } else if n == 1 {
            Some(Condition::PositiveLimitReached)
        } else if n == 2 {
            Some(Condition::KeepAliveLimitReached)
        } else if n == 3 {
            Some(Condition::InvalidTransmissionMode)
        } else if n == 4 {
            Some(Condition::FileStoreRejection)
        } else if n == 5 {
            Some(Condition::FileChecksumFailure)
        } else if n == 6 {
            Some(Condition::FilesizeError)
        } else if n == 7 {
            Some(Condition::NakLimitReached)
        } else if n == 8 {
            Some(Condition::InactivityDetected)
        } else if n == 9 {
            Some(Condition::InvalidFileStructure)
        } else if n == 10 {
            Some(Condition::CheckLimitReached)
        } else if n == 11 {
            Some(Condition::UnsupportedChecksumType)
        } else if n == 14 {
            Some(Condition::SuspendReceived)
        } else if n == 15 {
            Some(Condition::CancelReceived)
        } else {
            None
        }
    }
}

/// Each value has its fixed protocol number; every Condition is read back from
/// its number, and a number reads as a Condition
/// only if it is that value's number.
pub proof fn lemma_condition_code(x: Condition, n: u8)
    ensures
        Condition::NoError.code() == 0,
        Condition::PositiveLimitReached.code() == 1,
        Condition::KeepAliveLimitReached.code() == 2,
        Condition::InvalidTransmissionMode.code() == 3,
        Condition::FileStoreRejection.code() == 4,
        Condition::FileChecksumFailure.code() == 5,
        Condition::FilesizeError.code() == 6,
        Condition::NakLimitReached.code() == 7,
        Condition::InactivityDetected.code() == 8,
        Condition::InvalidFileStructure.code() == 9,
        Condition::CheckLimitReached.code() == 10,
        Condition::UnsupportedChecksumType.code() == 11,
        Condition::SuspendReceived.code() == 14,
        Condition::CancelReceived.code() == 15,
        Condition::from_code(x.code()) == Some(x),
        Condition::from_code(n) matches Some(y) ==> y.code() == n,
{
}

/// A three-bit unsigned number, such as the protocol version.
#[derive(Clone, Debug, PartialEq, Eq, Structural)]
pub enum U3 {
    Zero,
    One,
    Two,
    Three,
    Four,
    Five,
    Six,
    Seven,
}

impl U3 {
    /// The number that stands for this value on the wire.
    pub open spec fn code(self) -> u8 {
        match self {
            U3::Zero => 0,
            U3::One => 1,
            U3::Two => 2,
            U3::Three => 3,
            U3::Four => 4,
            U3::Five => 5,
            U3::Six => 6,
            U3::Seven => 7,
        }
    }

    /// The value that the number `n` stands for, if any.
    pub open spec fn from_code(n: u8) -> Option<U3> {
        if n == 0 {
            Some(U3::Zero)
        } else if n == 1 {
            Some(U3::One)
        } else if n == 2 {
            Some(U3::Two)
        } else if n == 3 {
            Some(U3::Three)
        } else if n == 4 {
            Some(U3::Four)
        } else if n == 5 {
            Some(U3::Five)
        } else if n == 6 {
            Some(U3::Six)
        } else if n == 7 {
            Some(U3::Seven)
        } else {
            None
        }
    }

    /// The number that stands for this value on the wire.
    pub fn to_u8(&self) -> (n: u8)
        ensures
            n == self.code(),
    {
        match self {
            U3::Zero => 0,
            U3::One => 1,
            U3::Two => 2,
            U3::Three => 3,
            U3::Four => 4,
            U3::Five => 5,
            U3::Six => 6,
            U3::Seven => 7,
        }
    }

    /// The value that the number `n` stands for, or `None` where `n` stands for none.
    pub fn from_u8(n: u8) -> (value: Option<U3>)
        ensures
            value == U3::from_code(n),
    {
        if n == 0 {
            Some(U3::Zero)
        } else if n == 1 {
            Some(U3::One)
        } else if n == 2 {
            Some(U3::Two)
        } else if n == 3 {
            Some(U3::Three)
        } else if n == 4 {
            Some(U3::Four)
        } else if n == 5 {
            Some(U3::Five)
        } else if n == 6 {
            Some(U3::Six)
        } else if n == 7 {
            Some(U3::Seven)
        } else {
            None
        }
    }
}

/// Each value has its fixed protocol number; every U3 is read back from
/// its number, and a number reads as a U3
/// only if it is that value's number.
pub proof fn lemma_u3_code(x: U3, n: u8)
    ensures
        U3::Zero.code() == 0,
        U3::One.code() == 1,
        U3::Two.code() == 2,
        U3::Three.code() == 3,
        U3::Four.code() == 4,
        U3::Five.code() == 5,
        U3::Six.code() == 6,
        U3::Seven.code() == 7,
        U3::from_code(x.code()) == Some(x),
        U3::from_code(n) matches Some(y) ==> y.code() == n,
{
}

/// Whether a PDU carries a file directive or file data.
#[derive(Clone, Debug, PartialEq, Eq, Structural)]
pub enum PDUType {
    FileDirective,
    FileData,
}

impl PDUType {
    /// The number that stands for this value on the wire.
    pub open spec fn code(self) -> u8 {
        match self {
            PDUType::FileDirective => 0,
            PDUType::FileData => 1,
        }
    }

    /// The value that the number `n` stands for, if any.
    pub open spec fn from_code(n: u8) -> Option<PDUType> {
        if n == 0 {
            Some(PDUType::FileDirective)
        } else if n == 1 {
            Some(PDUType::FileData)
        } else {
            None
        }
    }

    /// The number that stands for this value on the wire.
    pub fn to_u8(&self) -> (n: u8)
        ensures
            n == self.code(),
    {
        match self {
            PDUType::FileDirective => 0,
            PDUType::FileData => 1,
        }
    }

    /// The value that the number `n` stands for, or `None` where `n` stands for none.
    pub fn from_u8(n: u8) -> (value: Option<PDUType>)
        ensures
            value == PDUType::from_code(n),
    {
        if n == 0 {
            Some(PDUType::FileDirective)
        } else if n == 1 {
            Some(PDUType::FileData)
        } else {
            None
        }
    }
}

/// Each value has its fixed protocol number; every PDUType is read back from
/// its number, and a number reads as a PDUType
/// only if it is that value's number.
pub proof fn lemma_pdu_type_code(x: PDUType, n: u8)
    ensures
        PDUType::FileDirective.code() == 0,
        PDUType::FileData.code() == 1,
        PDUType::from_code(x.code()) == Some(x),
        PDUType::from_code(n) matches Some(y) ==> y.code() == n,
{
}

/// Whether a PDU travels toward the file receiver or the file sender.
#[derive(Clone, Debug, PartialEq, Eq, Structural)]
pub enum Direction {
    ToReceiver,
    ToSender,
}

impl Direction {
    /// The number that stands for this value on the wire.
    pub open spec fn code(self) -> u8 {
        match self {
            Direction::ToReceiver => 0,
            Direction::ToSender => 1,
        }
    }

    /// The value that the number `n` stands for, if any.
    pub open spec fn from_code(n: u8) -> Option<Direction> {
        if n == 0 {
            Some(Direction::ToReceiver)
        } else if n == 1 {
            Some(Direction::ToSender)
        } else {
            None
        }
    }

    /// The number that stands for this value on the wire.
    pub fn to_u8(&self) -> (n: u8)
        ensures
            n == self.code(),
    {
        match self {
            Direction::ToReceiver => 0,
            Direction::ToSender => 1,
        }
    }

    /// The value that the number `n` stands for, or `None` where `n` stands for none.
    pub fn from_u8(n: u8) -> (value: Option<Direction>)
        ensures
            value == Direction::from_code(n),
    {
        if n == 0 {
            Some(Direction::ToReceiver)
        } else if n == 1 {
            Some(Direction::ToSender)
        } else {
            None
        }
    }
}

/// Each value has its fixed protocol number; every Direction is read back from
/// its number, and a number reads as a Direction
/// only if it is that value's number.
pub proof fn lemma_direction_code(x: Direction, n: u8)
    ensures
        Direction::ToReceiver.code() == 0,
        Direction::ToSender.code() == 1,
        Direction::from_code(x.code()) == Some(x),
        Direction::from_code(n) matches Some(y) ==> y.code() == n,
{
}

/// Whether a transaction is acknowledged or unacknowledged.
#[derive(Clone, Copy, Debug, PartialEq, Eq, Structural)]
pub enum TransmissionMode {
    Acknowledged,
    Unacknowledged,
}

impl TransmissionMode {
    /// The number that stands for this value on the wire.
    pub open spec fn code(self) -> u8 {
        match self {
            TransmissionMode::Acknowledged => 0,
            TransmissionMode::Unacknowledged => 1,
        }
    }

    /// The value that the number `n` stands for, if any.
    pub open spec fn from_code(n: u8) -> Option<TransmissionMode> {
        if n == 0 {
            Some(TransmissionMode::Acknowledged)
        } else if n == 1 {
            Some(TransmissionMode::Unacknowledged)
        } else {
            None
        }
    }

    /// The number that stands for this value on the wire.
    pub fn to_u8(&self) -> (n: u8)
        ensures
            n == self.code(),
    {
        match self {
            TransmissionMode::Acknowledged => 0,
            TransmissionMode::Unacknowledged => 1,
        }
    }

    /// The value that the number `n` stands for, or `None` where `n` stands for none.
    pub fn from_u8(n: u8) -> (value: Option<TransmissionMode>)
        ensures
            value == TransmissionMode::from_code(n),
    {
        if n == 0 {
            Some(TransmissionMode::Acknowledged)
        } else if n == 1 {
            Some(TransmissionMode::Unacknowledged)
        } else {
            None
        }
    }
}

/// Each value has its fixed protocol number; every TransmissionMode is read back from
/// its number, and a number reads as a TransmissionMode
/// only if it is that value's number.
pub proof fn lemma_transmission_mode_code(x: TransmissionMode, n: u8)
    ensures
        TransmissionMode::Acknowledged.code() == 0,
        TransmissionMode::Unacknowledged.code() == 1,
        TransmissionMode::from_code(x.code()) == Some(x),
        TransmissionMode::from_code(n) matches Some(y) ==> y.code() == n,
{
}

/// Which directions of a transaction are traced.
#[derive(Clone, Debug, PartialEq, Eq, Structural)]
pub enum TraceControl {
    NoTrace,
    SourceOnly,
    DestinationOnly,
    BothDirections,
}

impl TraceControl {
    /// The number that stands for this value on the wire.
    pub open spec fn code(self) -> u8 {
        match self {
            TraceControl::NoTrace => 0,
            TraceControl::SourceOnly => 1,
            TraceControl::DestinationOnly => 2,
            TraceControl::BothDirections => 3,
        }
    }

    /// The value that the number `n` stands for, if any.
    pub open spec fn from_code(n: u8) -> Option<TraceControl> {
        if n == 0 {
            Some(TraceControl::NoTrace)
        } else if n == 1 {
            Some(TraceControl::SourceOnly)
        } else if n == 2 {
            Some(TraceControl::DestinationOnly)
        } else if n == 3 {
            Some(TraceControl::BothDirections)
        } else {
            None
        }
    }

    /// The number that stands for this value on the wire.
    pub fn to_u8(&self) -> (n: u8)
        ensures
            n == self.code(),
    {
        match self {
            TraceControl::NoTrace => 0,
            TraceControl::SourceOnly => 1,
            TraceControl::DestinationOnly => 2,
            TraceControl::BothDirections => 3,
        }
    }

    /// The value that the number `n` stands for, or `None` where `n` stands for none.
    pub fn from_u8(n: u8) -> (value: Option<TraceControl>)
        ensures
            value == TraceControl::from_code(n),
    {
        if n == 0 {
            Some(TraceControl::NoTrace)
        } else if n == 1 {
            Some(TraceControl::SourceOnly)
        } else if n == 2 {
            Some(TraceControl::DestinationOnly)
        } else if n == 3 {
            Some(TraceControl::BothDirections)
        } else {
            None
        }
    }
}

/// Each value has its fixed protocol number; every TraceControl is read back from
/// its number, and a number reads as a TraceControl
/// only if it is that value's number.
pub proof fn lemma_trace_control_code(x: TraceControl, n: u8)
    ensures
        TraceControl::NoTrace.code() == 0,
        TraceControl::SourceOnly.code() == 1,
        TraceControl::DestinationOnly.code() == 2,
        TraceControl::BothDirections.code() == 3,
        TraceControl::from_code(x.code()) == Some(x),
        TraceControl::from_code(n) matches Some(y) ==> y.code() == n,
{
}

/// Whether a PDU ends with a CRC.
#[derive(Clone, Copy, Debug, PartialEq, Eq, Structural)]
pub enum CRCFlag {
    NotPresent,
    Present,
}

impl CRCFlag {
    /// The number that stands for this value on the wire.
    pub open spec fn code(self) -> u8 {
        match self {
            CRCFlag::NotPresent => 0,
            CRCFlag::Present => 1,
        }
    }

    /// The value that the number `n` stands for, if any.
    pub open spec fn from_code(n: u8) -> Option<CRCFlag> {
        if n == 0 {
            Some(CRCFlag::NotPresent)
        } else if n == 1 {
            Some(CRCFlag::Present)
        } else {
            None
        }
    }

    /// The number that stands for this value on the wire.
    pub fn to_u8(&self) -> (n: u8)
        ensures
            n == self.code(),
    {
        match self {
            CRCFlag::NotPresent => 0,
            CRCFlag::Present => 1,
        }
    }

    /// The value that the number `n` stands for, or `None` where `n` stands for none.
    pub fn from_u8(n: u8) -> (value: Option<CRCFlag>)
        ensures
            value == CRCFlag::from_code(n),
    {
        if n == 0 {
            Some(CRCFlag::NotPresent)
        } else if n == 1 {
            Some(CRCFlag::Present)
        } else {
            None
        }
    }
}

/// Each value has its fixed protocol number; every CRCFlag is read back from
/// its number, and a number reads as a CRCFlag
/// only if it is that value's number.
pub proof fn lemma_crc_flag_code(x: CRCFlag, n: u8)
    ensures
        CRCFlag::NotPresent.code() == 0,
        CRCFlag::Present.code() == 1,
        CRCFlag::from_code(x.code()) == Some(x),
        CRCFlag::from_code(n) matches Some(y) ==> y.code() == n,
{
}

/// Whether the file size fields of a transaction take 4 or 8 bytes.
#[derive(Clone, Copy, Debug, PartialEq, Eq, Structural)]
pub enum FileSizeFlag {
    Small,
    Large,
}

impl FileSizeFlag {
    /// The number that stands for this value on the wire.
    pub open spec fn code(self) -> u8 {
        match self {
            FileSizeFlag::Small => 0,
            FileSizeFlag::Large => 1,
        }
    }

    /// The value that the number `n` stands for, if any.
    pub open spec fn from_code(n: u8) -> Option<FileSizeFlag> {
        if n == 0 {
            Some(FileSizeFlag::Small)
        } else if n == 1 {
            Some(FileSizeFlag::Large)
        } else {
            None
        }
    }

    /// The number that stands for this value on the wire.
    pub fn to_u8(&self) -> (n: u8)
        ensures
            n == self.code(),
    {
        match self {
            FileSizeFlag::Small => 0,
            FileSizeFlag::Large => 1,
        }
    }

    /// The value that the number `n` stands for, or `None` where `n` stands for none.
    pub fn from_u8(n: u8) -> (value: Option<FileSizeFlag>)
        ensures
            value == FileSizeFlag::from_code(n),
    {
        if n == 0 {
            Some(FileSizeFlag::Small)
        } else if n == 1 {
            Some(FileSizeFlag::Large)
        } else {
            None
        }
    }
}

/// Each value has its fixed protocol number; every FileSizeFlag is read back from
/// its number, and a number reads as a FileSizeFlag
/// only if it is that value's number.
pub proof fn lemma_file_size_flag_code(x: FileSizeFlag, n: u8)
    ensures
        FileSizeFlag::Small.code() == 0,
        FileSizeFlag::Large.code() == 1,
        FileSizeFlag::from_code(x.code()) == Some(x),
        FileSizeFlag::from_code(n) matches Some(y) ==> y.code() == n,
{
}

/// Whether record boundaries are preserved when a file is segmented.
#[derive(Clone, Copy, Debug, PartialEq, Eq, Structural)]
pub enum SegmentationControl {
    NotPreserved,
    Preserved,
}

impl SegmentationControl {
    /// The number that stands for this value on the wire.
    pub open spec fn code(self) -> u8 {
        match self {
            SegmentationControl::NotPreserved => 0,
            SegmentationControl::Preserved => 1,
        }
    }

    /// The value that the number `n` stands for, if any.
    pub open spec fn from_code(n: u8) -> Option<SegmentationControl> {
        if n == 0 {
            Some(SegmentationControl::NotPreserved)
        } else if n == 1 {
            Some(SegmentationControl::Preserved)
        } else {
            None
        }
    }

    /// The number that stands for this value on the wire.
    pub fn to_u8(&self) -> (n: u8)
        ensures
            n == self.code(),
    {
        match self {
            SegmentationControl::NotPreserved => 0,
            SegmentationControl::Preserved => 1,
        }
    }

    /// The value that the number `n` stands for, or `None` where `n` stands for none.
    pub fn from_u8(n: u8) -> (value: Option<SegmentationControl>)
        ensures
            value == SegmentationControl::from_code(n),
    {
        if n == 0 {
            Some(SegmentationControl::NotPreserved)
        } else if n == 1 {
            Some(SegmentationControl::Preserved)
        } else {
            None
        }
    }
}

/// Each value has its fixed protocol number; every SegmentationControl is read back from
/// its number, and a number reads as a SegmentationControl
/// only if it is that value's number.
pub proof fn lemma_segmentation_control_code(x: SegmentationControl, n: u8)
    ensures
        SegmentationControl::NotPreserved.code() == 0,
        SegmentationControl::Preserved.code() == 1,
        SegmentationControl::from_code(x.code()) == Some(x),
        SegmentationControl::from_code(n) matches Some(y) ==> y.code() == n,
{
}

/// Whether file data PDUs carry segment metadata.
#[derive(Clone, Copy, Debug, PartialEq, Eq, Structural)]
pub enum SegmentedData {
    NotPresent,
    Present,
}

impl SegmentedData {
    /// The number that stands for this value on the wire.
    pub open spec fn code(self) -> u8 {
        match self {
            SegmentedData::NotPresent => 0,
            SegmentedData::Present => 1,
        }
    }

    /// The value that the number `n` stands for, if any.
    pub open spec fn from_code(n: u8) -> Option<SegmentedData> {
        if n == 0 {
            Some(SegmentedData::NotPresent)
        } else if n == 1 {
            Some(SegmentedData::Present)
        } else {
            None
        }
    }

    /// The number that stands for this value on the wire.
    pub fn to_u8(&self) -> (n: u8)
        ensures
            n == self.code(),
    {
        match self {
            SegmentedData::NotPresent => 0,
            SegmentedData::Present => 1,
        }
    }

    /// The value that the number `n` stands for, or `None` where `n` stands for none.
    pub fn from_u8(n: u8) -> (value: Option<SegmentedData>)
        ensures
            value == SegmentedData::from_code(n),
    {
        if n == 0 {
            Some(SegmentedData::NotPresent)
        } else if n == 1 {
            Some(SegmentedData::Present)
        } else {
            None
        }
    }
}

/// Each value has its fixed protocol number; every SegmentedData is read back from
/// its number, and a number reads as a SegmentedData
/// only if it is that value's number.
pub proof fn lemma_segmented_data_code(x: SegmentedData, n: u8)
    ensures
        SegmentedData::NotPresent.code() == 0,
        SegmentedData::Present.code() == 1,
        SegmentedData::from_code(x.code()) == Some(x),
        SegmentedData::from_code(n) matches Some(y) ==> y.code() == n,
{
}

/// Whether a prompt asks for a NAK or for a keep-alive.
#[derive(Clone, Copy, Debug, PartialEq, Eq, Structural)]
pub enum NakOrKeepAlive {
    Nak,
    KeepAlive,
}

impl NakOrKeepAlive {
    /// The number that stands for this value on the wire.
    pub open spec fn code(self) -> u8 {
        match self {
            NakOrKeepAlive::Nak => 0,
            NakOrKeepAlive::KeepAlive => 1,
        }
    }

    /// The value that the number `n` stands for, if any.
    pub open spec fn from_code(n: u8) -> Option<NakOrKeepAlive> {
        if n == 0 {
            Some(NakOrKeepAlive::Nak)
        } else if n == 1 {
            Some(NakOrKeepAlive::KeepAlive)
        } else {
            None
        }
    }

    /// The number that stands for this value on the wire.
    pub fn to_u8(&self) -> (n: u8)
        ensures
            n == self.code(),
    {
        match self {
            NakOrKeepAlive::Nak => 0,
            NakOrKeepAlive::KeepAlive => 1,
        }
    }

    /// The value that the number `n` stands for, or `None` where `n` stands for none.
    pub fn from_u8(n: u8) -> (value: Option<NakOrKeepAlive>)
        ensures
            value == NakOrKeepAlive::from_code(n),
    {
        if n == 0 {
            Some(NakOrKeepAlive::Nak)
        } else if n == 1 {
            Some(NakOrKeepAlive::KeepAlive)
        } else {
            None
        }
    }
}

/// Each value has its fixed protocol number; every NakOrKeepAlive is read back from
/// its number, and a number reads as a NakOrKeepAlive
/// only if it is that value's number.
pub proof fn lemma_nak_or_keep_alive_code(x: NakOrKeepAlive, n: u8)
    ensures
        NakOrKeepAlive::Nak.code() == 0,
        NakOrKeepAlive::KeepAlive.code() == 1,
        NakOrKeepAlive::from_code(x.code()) == Some(x),
        NakOrKeepAlive::from_code(n) matches Some(y) ==> y.code() == n,
{
}

/// Whether a file was delivered in full.
#[derive(Clone, Copy, Debug, PartialEq, Eq, Structural)]
pub enum DeliveryCode {
    Complete,
    Incomplete,
}

impl DeliveryCode {
    /// The number that stands for this value on the wire.
    pub open spec fn code(self) -> u8 {
        match self {
            DeliveryCode::Complete => 0,
            DeliveryCode::Incomplete => 1,
        }
    }

    /// The value that the number `n` stands for, if any.
    pub open spec fn from_code(n: u8) -> Option<DeliveryCode> {
        if n == 0 {
            Some(DeliveryCode::Complete)
        } else if n == 1 {
            Some(DeliveryCode::Incomplete)
        } else {
            None
        }
    }

    /// The number that stands for this value on the wire.
    pub fn to_u8(&self) -> (n: u8)
        ensures
            n == self.code(),
    {
        match self {
            DeliveryCode::Complete => 0,
            DeliveryCode::Incomplete => 1,
        }
    }

    /// The value that the number `n` stands for, or `None` where `n` stands for none.
    pub fn from_u8(n: u8) -> (value: Option<DeliveryCode>)
        ensures
            value == DeliveryCode::from_code(n),
    {
        if n == 0 {
            Some(DeliveryCode::Complete)
        } else if n == 1 {
            Some(DeliveryCode::Incomplete)
        } else {
            None
        }
    }
}

/// Each value has its fixed protocol number; every DeliveryCode is read back from
/// its number, and a number reads as a DeliveryCode
/// only if it is that value's number.
pub proof fn lemma_delivery_code(x: DeliveryCode, n: u8)
    ensures
        DeliveryCode::Complete.code() == 0,
        DeliveryCode::Incomplete.code() == 1,
        DeliveryCode::from_code(x.code()) == Some(x),
        DeliveryCode::from_code(n) matches Some(y) ==> y.code() == n,
{
}

/// What became of a delivered file at the receiver.
#[derive(Clone, Copy, Debug, PartialEq, Eq, Structural)]
pub enum FileStatusCode {
    Discarded,
    FileStoreRejection,
    Retained,
    Unreported,
}

impl FileStatusCode {
    /// The number that stands for this value on the wire.
    pub open spec fn code(self) -> u8 {
        match self {
            FileStatusCode::Discarded => 0,
            FileStatusCode::FileStoreRejection => 1,
            FileStatusCode::Retained => 2,
            FileStatusCode::Unreported => 3,
        }
    }

    /// The value that the number `n` stands for, if any.
    pub open spec fn from_code(n: u8) -> Option<FileStatusCode> {
        if n == 0 {
            Some(FileStatusCode::Discarded)
        } else if n == 1 {
            Some(FileStatusCode::FileStoreRejection)
        } else if n == 2 {
            Some(FileStatusCode::Retained)
        } else if n == 3 {
            Some(FileStatusCode::Unreported)
        } else {
            None
        }
    }

    /// The number that stands for this value on the wire.
    pub fn to_u8(&self) -> (n: u8)
        ensures
            n == self.code(),
    {
        match self {
            FileStatusCode::Discarded => 0,
            FileStatusCode::FileStoreRejection => 1,
            FileStatusCode::Retained => 2,
            FileStatusCode::Unreported => 3,
        }
    }

    /// The value that the number `n` stands for, or `None` where `n` stands for none.
    pub fn from_u8(n: u8) -> (value: Option<FileStatusCode>)
        ensures
            value == FileStatusCode::from_code(n),
    {
        if n == 0 {
            Some(FileStatusCode::Discarded)
        } else if n == 1 {
            Some(FileStatusCode::FileStoreRejection)
        } else if n == 2 {
            Some(FileStatusCode::Retained)
        } else if n == 3 {
            Some(FileStatusCode::Unreported)
        } else {
            None
        }
    }
}

/// Each value has its fixed protocol number; every FileStatusCode is read back from
/// its number, and a number reads as a FileStatusCode
/// only if it is that value's number.
pub proof fn lemma_file_status_code(x: FileStatusCode, n: u8)
    ensures
        FileStatusCode::Discarded.code() == 0,
        FileStatusCode::FileStoreRejection.code() == 1,
        FileStatusCode::Retained.code() == 2,
        FileStatusCode::Unreported.code() == 3,
        FileStatusCode::from_code(x.code()) == Some(x),
        FileStatusCode::from_code(n) matches Some(y) ==> y.code() == n,
{
}

/// The status of a transaction as a peer reports it.
#[derive(Clone, Copy, Debug, PartialEq, Eq, Structural)]
pub enum TransactionStatus {
    Undefined,
    Active,
    Terminated,
    Unrecognized,
}

impl TransactionStatus {
    /// The number that stands for this value on the wire.
    pub open spec fn code(self) -> u8 {
        match self {
            TransactionStatus::Undefined => 0,
            TransactionStatus::Active => 1,
            TransactionStatus::Terminated => 2,
            TransactionStatus::Unrecognized => 3,
        }
    }

    /// The value that the number `n` stands for, if any.
    pub open spec fn from_code(n: u8) -> Option<TransactionStatus> {
        if n == 0 {
            Some(TransactionStatus::Undefined)
        } else if n == 1 {
            Some(TransactionStatus::Active)
        } else if n == 2 {
            Some(TransactionStatus::Terminated)
        } else if n == 3 {
            Some(TransactionStatus::Unrecognized)
        } else {
            None
        }
    }

    /// The number that stands for this value on the wire.
    pub fn to_u8(&self) -> (n: u8)
        ensures
            n == self.code(),
    {
        match self {
            TransactionStatus::Undefined => 0,
            TransactionStatus::Active => 1,
            TransactionStatus::Terminated => 2,
            TransactionStatus::Unrecognized => 3,
        }
    }

    /// The value that the number `n` stands for, or `None` where `n` stands for none.
    pub fn from_u8(n: u8) -> (value: Option<TransactionStatus>)
        ensures
            value == TransactionStatus::from_code(n),
    {
        if n == 0 {
            Some(TransactionStatus::Undefined)
        } else if n == 1 {
            Some(TransactionStatus::Active)
        } else if n == 2 {
            Some(TransactionStatus::Terminated)
        } else if n == 3 {
            Some(TransactionStatus::Unrecognized)
        } else {
            None
        }
    }
}

/// Each value has its fixed protocol number; every TransactionStatus is read back from
/// its number, and a number reads as a TransactionStatus
/// only if it is that value's number.
pub proof fn lemma_transaction_status_code(x: TransactionStatus, n: u8)
    ensures
        TransactionStatus::Undefined.code() == 0,
        TransactionStatus::Active.code() == 1,
        TransactionStatus::Terminated.code() == 2,
        TransactionStatus::Unrecognized.code() == 3,
        TransactionStatus::from_code(x.code()) == Some(x),
        TransactionStatus::from_code(n) matches Some(y) ==> y.code() == n,
{
}

/// The type code of a message to user.
#[derive(Clone, Copy, Debug, PartialEq, Eq, Structural)]
pub enum MessageType {
    ProxyPutRequest,
    ProxyMessageToUser,
    ProxyFileStoreRequest,
    ProxyFaultHandlerOverride,
    ProxyTransmissionMode,
    ProxyFlowLabel,
    ProxySegmentationControl,
    ProxyPutResponse,
    ProxyFileStoreResponse,
    ProxyPutCancel,
    OriginatingTransactionIDMessage,
    ProxyClosureRequest,
    DirectoryListingRequest,
    DirectoryListingResponse,
    RemoteStatusReportRequest,
    RemoteStatusReportResponse,
    RemoteSuspendRequest,
    RemoteSuspendResponse,
    RemoteResumeRequest,
    RemoteResumeResponse,
    SFORequest,
    SFOMessageToUser,
    SFOFlowLabel,
    SFOFaultHandlerOverride,
    SFOFileStoreRequest,
    SFOReport,
    SFOFileStoreResponse,
}

impl MessageType {
    /// The number that stands for this value on the wire.
    pub open spec fn code(self) -> u8 {
        match self {
            MessageType::ProxyPutRequest => 0x00,
            MessageType::ProxyMessageToUser => 0x01,
            MessageType::ProxyFileStoreRequest => 0x02,
            MessageType::ProxyFaultHandlerOverride => 0x03,
            MessageType::ProxyTransmissionMode => 0x04,
            MessageType::ProxyFlowLabel => 0x05,
            MessageType::ProxySegmentationControl => 0x06,
            MessageType::ProxyPutResponse => 0x07,
            MessageType::ProxyFileStoreResponse => 0x08,
            MessageType::ProxyPutCancel => 0x09,
            MessageType::OriginatingTransactionIDMessage => 0x0a,
            MessageType::ProxyClosureRequest => 0x0b,
            MessageType::DirectoryListingRequest => 0x10,
            MessageType::DirectoryListingResponse => 0x11,
            MessageType::RemoteStatusReportRequest => 0x20,
            MessageType::RemoteStatusReportResponse => 0x21,
            MessageType::RemoteSuspendRequest => 0x30,
            MessageType::RemoteSuspendResponse => 0x31,
            MessageType::RemoteResumeRequest => 0x38,
            MessageType::RemoteResumeResponse => 0x39,
            MessageType::SFORequest => 0x40,
            MessageType::SFOMessageToUser => 0x41,
            MessageType::SFOFlowLabel => 0x42,
            MessageType::SFOFaultHandlerOverride => 0x43,
            MessageType::SFOFileStoreRequest => 0x44,
            MessageType::SFOReport => 0x45,
            MessageType::SFOFileStoreResponse => 0x46,
        }
    }

    /// The value that the number `n` stands for, if any.
    pub open spec fn from_code(n: u8) -> Option<MessageType> {
        if n == 0x00 {
            Some(MessageType::ProxyPutRequest)
        } else if n == 0x01 {
            Some(MessageType::ProxyMessageToUser)
        } else if n == 0x02 {
            Some(MessageType::ProxyFileStoreRequest)
        } else if n == 0x03 {
            Some(MessageType::ProxyFaultHandlerOverride)
        } else if n == 0x04 {
            Some(MessageType::ProxyTransmissionMode)
        } else if n == 0x05 {
            Some(MessageType::ProxyFlowLabel)
        } else if n == 0x06 {
            Some(MessageType::ProxySegmentationControl)
        } else if n == 0x07 {
            Some(MessageType::ProxyPutResponse)
        } else if n == 0x08 {
            Some(MessageType::ProxyFileStoreResponse)
        } else if n == 0x09 {
            Some(MessageType::ProxyPutCancel)
        } else if n == 0x0a {
            Some(MessageType::OriginatingTransactionIDMessage)
        } else if n == 0x0b {
            Some(MessageType::ProxyClosureRequest)
        } else if n == 0x10 {
            Some(MessageType::DirectoryListingRequest)
        } else if n == 0x11 {
            Some(MessageType::DirectoryListingResponse)
        } else if n == 0x20 {
            Some(MessageType::RemoteStatusReportRequest)
        } else if n == 0x21 {
            Some(MessageType::RemoteStatusReportResponse)
        } else if n == 0x30 {
            Some(MessageType::RemoteSuspendRequest)
        } else if n == 0x31 {
            Some(MessageType::RemoteSuspendResponse)
        } else if n == 0x38 {
            Some(MessageType::RemoteResumeRequest)
        } else if n == 0x39 {
            Some(MessageType::RemoteResumeResponse)
        } else if n == 0x40 {
            Some(MessageType::SFORequest)
        } else if n == 0x41 {
            Some(MessageType::SFOMessageToUser)
        } else if n == 0x42 {
            Some(MessageType::SFOFlowLabel)
        } else if n == 0x43 {
            Some(MessageType::SFOFaultHandlerOverride)
        } else if n == 0x44 {
            Some(MessageType::SFOFileStoreRequest)
        } else if n == 0x45 {
            Some(MessageType::SFOReport)
        } else if n == 0x46 {
            Some(MessageType::SFOFileStoreResponse)
        } else {
            None
        }
    }

    /// The number that stands for this value on the wire.
    pub fn to_u8(&self) -> (n: u8)
        ensures
            n == self.code(),
    {
        match self {
            MessageType::ProxyPutRequest => 0x00,
            MessageType::ProxyMessageToUser => 0x01,
            MessageType::ProxyFileStoreRequest => 0x02,
            MessageType::ProxyFaultHandlerOverride => 0x03,
            MessageType::ProxyTransmissionMode => 0x04,
            MessageType::ProxyFlowLabel => 0x05,
            MessageType::ProxySegmentationControl => 0x06,
            MessageType::ProxyPutResponse => 0x07,
            MessageType::ProxyFileStoreResponse => 0x08,
            MessageType::ProxyPutCancel => 0x09,
            MessageType::OriginatingTransactionIDMessage => 0x0a,
            MessageType::ProxyClosureRequest => 0x0b,
            MessageType::DirectoryListingRequest => 0x10,
            MessageType::DirectoryListingResponse => 0x11,
            MessageType::RemoteStatusReportRequest => 0x20,
            MessageType::RemoteStatusReportResponse => 0x21,
            MessageType::RemoteSuspendRequest => 0x30,
            MessageType::RemoteSuspendResponse => 0x31,
            MessageType::RemoteResumeRequest => 0x38,
            MessageType::RemoteResumeResponse => 0x39,
            MessageType::SFORequest => 0x40,
            MessageType::SFOMessageToUser => 0x41,
            MessageType::SFOFlowLabel => 0x42,
            MessageType::SFOFaultHandlerOverride => 0x43,
            MessageType::SFOFileStoreRequest => 0x44,
            MessageType::SFOReport => 0x45,
            MessageType::SFOFileStoreResponse => 0x46,
        }
    }

    /// The value that the number `n` stands for, or `None` where `n` stands for none.
    pub fn from_u8(n: u8) -> (value: Option<MessageType>)
        ensures
            value == MessageType::from_code(n),
    {
        if n == 0x00 {
            Some(MessageType::ProxyPutRequest)
        } else if n == 0x01 {
            Some(MessageType::ProxyMessageToUser)
        } else if n == 0x02 {
            Some(MessageType::ProxyFileStoreRequest)
        } else if n == 0x03 {
            Some(MessageType::ProxyFaultHandlerOverride)
        } else if n == 0x04 {
            Some(MessageType::ProxyTransmissionMode)
        } else if n == 0x05 {
            Some(MessageType::ProxyFlowLabel)
        } else if n == 0x06 {
            Some(MessageType::ProxySegmentationControl)
        } else if n == 0x07 {
            Some(MessageType::ProxyPutResponse)
        } else if n == 0x08 {
            Some(MessageType::ProxyFileStoreResponse)
        } else if n == 0x09 {
            Some(MessageType::ProxyPutCancel)
        } else if n == 0x0a {
            Some(MessageType::OriginatingTransactionIDMessage)
        } else if n == 0x0b {
            Some(MessageType::ProxyClosureRequest)
        } else if n == 0x10 {
            Some(MessageType::DirectoryListingRequest)
        } else if n == 0x11 {
            Some(MessageType::DirectoryListingResponse)
        } else if n == 0x20 {
            Some(MessageType::RemoteStatusReportRequest)
        } else if n == 0x21 {
            Some(MessageType::RemoteStatusReportResponse)
        } else if n == 0x30 {
            Some(MessageType::RemoteSuspendRequest)
        } else if n == 0x31 {
            Some(MessageType::RemoteSuspendResponse)
        } else if n == 0x38 {
            Some(MessageType::RemoteResumeRequest)
        } else if n == 0x39 {
            Some(MessageType::RemoteResumeResponse)
        } else if n == 0x40 {
            Some(MessageType::SFORequest)
        } else if n == 0x41 {
            Some(MessageType::SFOMessageToUser)
        } else if n == 0x42 {
            Some(MessageType::SFOFlowLabel)
        } else if n == 0x43 {
            Some(MessageType::SFOFaultHandlerOverride)
        } else if n == 0x44 {
            Some(MessageType::SFOFileStoreRequest)
        } else if n == 0x45 {
            Some(MessageType::SFOReport)
        } else if n == 0x46 {
            Some(MessageType::SFOFileStoreResponse)
        } else {
            None
        }
    }
}

/// Each value has its fixed protocol number; every MessageType is read back from
/// its number, and a number reads as a MessageType
/// only if it is that value's number.
pub proof fn lemma_message_type_code(x: MessageType, n: u8)
    ensures
        MessageType::ProxyPutRequest.code() == 0x00,
        MessageType::ProxyMessageToUser.code() == 0x01,
        MessageType::ProxyFileStoreRequest.code() == 0x02,
        MessageType::ProxyFaultHandlerOverride.code() == 0x03,
        MessageType::ProxyTransmissionMode.code() == 0x04,
        MessageType::ProxyFlowLabel.code() == 0x05,
        MessageType::ProxySegmentationControl.code() == 0x06,
        MessageType::ProxyPutResponse.code() == 0x07,
        MessageType::ProxyFileStoreResponse.code() == 0x08,
        MessageType::ProxyPutCancel.code() == 0x09,
        MessageType::OriginatingTransactionIDMessage.code() == 0x0a,
        MessageType::ProxyClosureRequest.code() == 0x0b,
        MessageType::DirectoryListingRequest.code() == 0x10,
        MessageType::DirectoryListingResponse.code() == 0x11,
        MessageType::RemoteStatusReportRequest.code() == 0x20,
        MessageType::RemoteStatusReportResponse.code() == 0x21,
        MessageType::RemoteSuspendRequest.code() == 0x30,
        MessageType::RemoteSuspendResponse.code() == 0x31,
        MessageType::RemoteResumeRequest.code() == 0x38,
        MessageType::RemoteResumeResponse.code() == 0x39,
        MessageType::SFORequest.code() == 0x40,
        MessageType::SFOMessageToUser.code() == 0x41,
        MessageType::SFOFlowLabel.code() == 0x42,
        MessageType::SFOFaultHandlerOverride.code() == 0x43,
        MessageType::SFOFileStoreRequest.code() == 0x44,
        MessageType::SFOReport.code() == 0x45,
        MessageType::SFOFileStoreResponse.code() == 0x46,
        MessageType::from_code(x.code()) == Some(x),
        MessageType::from_code(n) matches Some(y) ==> y.code() == n,
{
}

impl FileSizeFlag {
    /// Size in bytes of an encoded file size: 4 for small, 8 for large.
    pub open spec fn spec_encoded_len(self) -> u16 {
        match self {
            FileSizeFlag::Small => 4,
            FileSizeFlag::Large => 8,
        }
    }

    /// Returns the size in bytes of the encoded file size (4 for small, 8 for large).
    pub fn encoded_len(&self) -> (len: u16)
        ensures
            len == self.spec_encoded_len(),
    {
        match self {
            FileSizeFlag::Small => 4,
            FileSizeFlag::Large => 8,
        }
    }
}

} // verus!

verus! {

/// Provides utility functions for encoding and decoding byte streams
pub trait PDUEncode: Sized {
    type PDUType;

    /// The number of bytes that `self` encodes to.
    spec fn spec_encoded_len(&self) -> nat;

    /// The bytes that `self` encodes to.
    spec fn spec_encode(&self) -> Seq<u8>;

    /// What decoding the start of `buffer` gives: the value and the number
    /// of bytes it took, or the error met.
    spec fn spec_decode(buffer: Seq<u8>) -> PDUResult<(Self::PDUType, usize)>;

    /// Whether `self` fits the wire format, so that encoding it is defined.
    spec fn encodable(&self) -> bool;

    /// Gets the encoded length must fit in a u16 for PDUs
    fn encoded_len(&self) -> (len: u16)
        ensures
            len == self.spec_encoded_len(),
    ;

    /// Encodes the PDU to a byte stream
    fn encode(self) -> (bytes: Vec<u8>)
        requires
            self.encodable(),
        ensures
            bytes@ == self.spec_encode(),
    ;

    /// Attempts to decode a PDU from the start of a byte stream; on success
    /// returns it with the number of bytes it took.
    fn decode(buffer: &[u8]) -> (res: PDUResult<(Self::PDUType, usize)>)
        ensures
            res == Self::spec_decode(buffer@),
    ;
}

/// Provides utility functions for encoding and decoding byte streams
/// For PDUs which require knowledge of the file size
pub trait FSSEncode: Sized {
    type PDUType;

    /// Gets the encoded length must fit in a u16 for PDUs
    fn encoded_len(&self, file_size_flag: FileSizeFlag) -> u16;

    /// Encodes the PDU to a byte stream
    fn encode(self, file_size_flag: FileSizeFlag) -> Vec<u8>;

    /// Attempts to decode a PDU from the start of a byte stream; on success
    /// returns it with the number of bytes it took.
    fn decode(buffer: &[u8], file_size_flag: FileSizeFlag) -> PDUResult<(Self::PDUType, usize)>;
}

/// Encoding and decoding for PDUs whose layout depends on segmentation and file size.
pub trait SegmentEncode: Sized {
    type PDUType;

    /// Gets the encoded length must fit in a u16 for PDUs
    fn encoded_len(&self, file_size_flag: FileSizeFlag) -> u16;

    /// Encodes the PDU to a byte stream
    fn encode(self, file_size_flag: FileSizeFlag) -> Vec<u8>;

    /// Attempts to decode a PDU from the start of a byte stream; on success
    /// returns it with the number of bytes it took.
    fn decode(
        buffer: &[u8],
        segmentation_flag: SegmentedData,
        file_size_flag: FileSizeFlag,
    ) -> PDUResult<(Self::PDUType, usize)>;
}

impl PDUEncode for TransmissionMode {
    type PDUType = Self;

    open spec fn spec_encoded_len(&self) -> nat {
        1
    }

    open spec fn spec_encode(&self) -> Seq<u8> {
        seq![self.code()]
    }

    open spec fn spec_decode(buffer: Seq<u8>) -> PDUResult<(TransmissionMode, usize)> {
        if buffer.len() < 1 {
            Err(PDUError::ReadError)
        } else {
            match TransmissionMode::from_code(buffer[0]) {
                Some(mode) => Ok((mode, 1usize)),
                None => Err(PDUError::InvalidTransmissionMode(buffer[0])),
            }
        }
    }

    open spec fn encodable(&self) -> bool {
        true
    }

    fn encoded_len(&self) -> (len: u16) {
        1
    }

    fn encode(self) -> (bytes: Vec<u8>) {
        let mut bytes: Vec<u8> = Vec::new();
        bytes.push(self.to_u8());
        assert(bytes@ =~= seq![self.code()]);
        bytes
    }

    fn decode(buffer: &[u8]) -> (res: PDUResult<(TransmissionMode, usize)>) {
        if buffer.len() < 1 {
            return Err(PDUError::ReadError);
        }
        let possible_mode = buffer[0];
        match TransmissionMode::from_u8(possible_mode) {
            Some(mode) => Ok((mode, 1)),
            None => Err(PDUError::InvalidTransmissionMode(possible_mode)),
        }
    }
}

/// An encoded file size takes 4 bytes for small files and 8 for large ones.
pub proof fn lemma_file_size_widths()
    ensures
        FileSizeFlag::Small.spec_encoded_len() == 4,
        FileSizeFlag::Large.spec_encoded_len() == 8,
{
}

/// Decoding the byte of a transmission mode gives it back.
pub proof fn lemma_transmission_mode_roundtrip(mode: TransmissionMode, rest: Seq<u8>)
    ensures
        TransmissionMode::spec_decode(mode.spec_encode() + rest) == Ok::<
            (TransmissionMode, usize),
            PDUError,
        >((mode, 1usize)),
{
    let s = mode.spec_encode() + rest;
    assert(s[0] == mode.code());
    lemma_transmission_mode_code(mode, 0);
}

} // verus!

verus! {

/// The fixed header that starts every protocol data unit.
#[derive(Clone, Debug, PartialEq, Eq, Structural)]
pub struct PDUHeader {
    pub version: U3,
    pub pdu_type: PDUType,
    pub direction: Direction,
    pub transmission_mode: TransmissionMode,
    pub crc_flag: CRCFlag,
    pub large_file_flag: FileSizeFlag,
    pub pdu_data_field_length: u16,
    pub segmentation_control: SegmentationControl,
    pub segment_metadata_flag: SegmentedData,
    pub source_entity_id: VariableID,
    pub transaction_sequence_number: VariableID,
    pub destination_entity_id: VariableID,
}

impl PDUHeader {
    /// First header byte: version, PDU type, direction, transmission mode,
    /// CRC flag and file size flag, from the high bits down.
    pub open spec fn first_byte(self) -> u8 {
        (self.version.code() << 5u8) | (self.pdu_type.code() << 4u8) | (self.direction.code()
            << 3u8) | (self.transmission_mode.code() << 2u8) | (self.crc_flag.code() << 1u8)
            | self.large_file_flag.code()
    }

    /// The data field length as written on the wire: it counts the two CRC
    /// bytes where a CRC is present.
    pub open spec fn wire_data_field_length(self) -> u16 {
        match self.crc_flag {
            CRCFlag::NotPresent => self.pdu_data_field_length,
            CRCFlag::Present => (self.pdu_data_field_length + 2) as u16,
        }
    }

    /// Fourth header byte: segmentation control, entity identifier length
    /// minus one, segment metadata flag, sequence number length minus one.
    pub open spec fn fourth_byte(self) -> u8 {
        (self.segmentation_control.code() << 7u8) | (((self.source_entity_id.spec_encoded_len()
            - 1) as u8) << 4u8) | (self.segment_metadata_flag.code() << 3u8) | ((
        self.transaction_sequence_number.spec_encoded_len() - 1) as u8)
    }

    /// The header that the four fixed bytes `b0`, `b1 b2` (the data field
    /// length) and `b3` describe, with the three identifiers given.
    pub open spec fn from_fields(
        b0: u8,
        b1: u8,
        b2: u8,
        b3: u8,
        source_entity_id: VariableID,
        transaction_sequence_number: VariableID,
        destination_entity_id: VariableID,
    ) -> PDUHeader {
        let crc_flag = CRCFlag::from_code((b0 & 0x2u8) >> 1u8).unwrap();
        let wire_length = crate::variable_id::u16_from_be(b1, b2);
        PDUHeader {
            version: U3::from_code((b0 & 0xE0u8) >> 5u8).unwrap(),
            pdu_type: PDUType::from_code((b0 & 0x10u8) >> 4u8).unwrap(),
            direction: Direction::from_code((b0 & 0x8u8) >> 3u8).unwrap(),
            transmission_mode: TransmissionMode::from_code((b0 & 0x4u8) >> 2u8).unwrap(),
            crc_flag,
            large_file_flag: FileSizeFlag::from_code(b0 & 0x1u8).unwrap(),
            pdu_data_field_length: match crc_flag {
                CRCFlag::NotPresent => wire_length,
                CRCFlag::Present => (wire_length - 2) as u16,
            },
            segmentation_control: SegmentationControl::from_code((b3 & 0x80u8) >> 7u8).unwrap(),
            segment_metadata_flag: SegmentedData::from_code((b3 & 0x8u8) >> 3u8).unwrap(),
            source_entity_id,
            transaction_sequence_number,
            destination_entity_id,
        }
    }

    /// Whether the CRC flag is set in the first header byte.
    pub open spec fn crc_bit(b0: u8) -> bool {
        (b0 & 0x2u8) >> 1u8 == 1u8
    }

    /// Number of bytes of each entity identifier, as the fourth byte gives it.
    pub open spec fn entity_id_length(b3: u8) -> int {
        ((b3 & 0x70u8) >> 4u8) + 1
    }

    /// Number of bytes of the sequence number, as the fourth byte gives it.
    pub open spec fn sequence_number_length(b3: u8) -> int {
        (b3 & 0x7u8) + 1
    }
}

} // verus!

verus! {

impl PDUEncode for PDUHeader {
    type PDUType = Self;

    open spec fn spec_encoded_len(&self) -> nat {
        4 + self.source_entity_id.spec_encoded_len()
            + self.transaction_sequence_number.spec_encoded_len()
            + self.destination_entity_id.spec_encoded_len()
    }

    open spec fn spec_encode(&self) -> Seq<u8> {
        seq![self.first_byte()] + crate::variable_id::be_bytes_u16(self.wire_data_field_length())
            + seq![self.fourth_byte()] + self.source_entity_id.be_bytes()
            + self.transaction_sequence_number.be_bytes() + self.destination_entity_id.be_bytes()
    }

    /// Where the CRC flag is set, the data field length on the wire counts
    /// the two CRC bytes, so a wire length below 2 is refused as soon as the
    /// length has been read.
    open spec fn spec_decode(buffer: Seq<u8>) -> PDUResult<(PDUHeader, usize)> {
        if buffer.len() < 3 {
            Err(PDUError::ReadError)
        } else if PDUHeader::crc_bit(buffer[0]) && crate::variable_id::u16_from_be(
            buffer[1],
            buffer[2],
        ) < 2 {
            Err(PDUError::InvalidDataFieldLength(crate::variable_id::u16_from_be(buffer[1], buffer[2])))
        } else if buffer.len() < 4 {
            Err(PDUError::ReadError)
        } else {
            let b3 = buffer[3];
            let source_end = 4 + PDUHeader::entity_id_length(b3);
            let sequence_end = source_end + PDUHeader::sequence_number_length(b3);
            let destination_end = sequence_end + PDUHeader::entity_id_length(b3);
            if buffer.len() < source_end {
                Err(PDUError::ReadError)
            } else {
                match VariableID::from_be(buffer.subrange(4, source_end)) {
                    Err(e) => Err(e),
                    Ok(source) => if buffer.len() < sequence_end {
                        Err(PDUError::ReadError)
                    } else {
                        match VariableID::from_be(buffer.subrange(source_end, sequence_end)) {
                            Err(e) => Err(e),
                            Ok(sequence) => if buffer.len() < destination_end {
                                Err(PDUError::ReadError)
                            } else {
                                match VariableID::from_be(
                                    buffer.subrange(sequence_end, destination_end),
                                ) {
                                    Err(e) => Err(e),
                                    Ok(destination) => Ok(
                                        (
                                            PDUHeader::from_fields(
                                                buffer[0],
                                                buffer[1],
                                                buffer[2],
                                                b3,
                                                source,
                                                sequence,
                                                destination,
                                            ),
                                            destination_end as usize,
                                        ),
                                    ),
                                }
                            },
                        }
                    },
                }
            }
        }
    }

    open spec fn encodable(&self) -> bool {
        self.crc_flag == CRCFlag::Present ==> self.pdu_data_field_length <= 0xFFFD
    }

    fn encoded_len(&self) -> (len: u16) {
        // version, type, direction, mode, crc_flag, file size
        1 +
        // pdu data length
        2
        // segmentation control, entity ID len, segment metadata flag, sequence_number len
         + 1 + self.source_entity_id.encoded_len() + self.transaction_sequence_number.encoded_len()
            + self.destination_entity_id.encoded_len()
    }

    fn encode(self) -> (bytes: Vec<u8>) {
        let first_byte = (self.version.to_u8() << 5u8) | (self.pdu_type.to_u8() << 4u8) | (
        self.direction.to_u8() << 3u8) | (self.transmission_mode.to_u8() << 2u8) | (
        self.crc_flag.to_u8() << 1u8) | self.large_file_flag.to_u8();
        let mut buffer: Vec<u8> = Vec::new();
        buffer.push(first_byte);
        // if the CRC is expected add 2 to the length of the "data" field
        let wire_length = match &self.crc_flag {
            CRCFlag::NotPresent => self.pdu_data_field_length,
            CRCFlag::Present => self.pdu_data_field_length + 2,
        };
        buffer.push((wire_length >> 8u16) as u8);
        buffer.push(wire_length as u8);
        let source_len = self.source_entity_id.encoded_len() as u8;
        let sequence_len = self.transaction_sequence_number.encoded_len() as u8;
        buffer.push(
            (self.segmentation_control.to_u8() << 7u8) | ((source_len - 1) << 4u8) | (
            self.segment_metadata_flag.to_u8() << 3u8) | (sequence_len - 1),
        );
        let mut source = self.source_entity_id.to_be_bytes();
        buffer.append(&mut source);
        let mut sequence = self.transaction_sequence_number.to_be_bytes();
        buffer.append(&mut sequence);
        let mut destination = self.destination_entity_id.to_be_bytes();
        buffer.append(&mut destination);
        assert(buffer@ =~= self.spec_encode());
        buffer
    }

    fn decode(buffer: &[u8]) -> (res: PDUResult<(PDUHeader, usize)>) {
        if buffer.len() < 1 {
            return Err(PDUError::ReadError);
        }
        let b0 = buffer[0];
        assert((b0 & 0xE0u8) >> 5u8 <= 7 && (b0 & 0x10u8) >> 4u8 <= 1 && (b0 & 0x8u8) >> 3u8 <= 1
            && (b0 & 0x4u8) >> 2u8 <= 1 && (b0 & 0x2u8) >> 1u8 <= 1 && b0 & 0x1u8 <= 1)
            by (bit_vector);

        let version = {
            let possible = (b0 & 0xE0u8) >> 5u8;
            U3::from_u8(possible).ok_or(PDUError::InvalidVersion(possible))?
        };

        let pdu_type = {
            let possible = (b0 & 0x10u8) >> 4u8;
            PDUType::from_u8(possible).ok_or(PDUError::InvalidVersion(possible))?
        };

        let direction = {
            let possible = (b0 & 0x8u8) >> 3u8;
            Direction::from_u8(possible).ok_or(PDUError::InvalidDirection(possible))?
        };

        let transmission_mode = {
            let possible = (b0 & 0x4u8) >> 2u8;
            TransmissionMode::from_u8(possible).ok_or(PDUError::InvalidTransmissionMode(possible))?
        };

        let crc_flag = {
            let possible = (b0 & 0x2u8) >> 1u8;
            CRCFlag::from_u8(possible).ok_or(PDUError::InvalidCRCFlag(possible))?
        };

        let large_file_flag = {
            let possible = b0 & 0x1u8;
            FileSizeFlag::from_u8(possible).ok_or(PDUError::InvalidFileSizeFlag(possible))?
        };

        if buffer.len() < 3 {
            return Err(PDUError::ReadError);
        }
        // CRC length is _included_ in the data_field_length
        // but it is not actually part of the message.
        // strip the crc length to preserve the original message
        let wire_length = ((buffer[1] as u16) << 8u16) | (buffer[2] as u16);
        let pdu_data_field_length = match &crc_flag {
            CRCFlag::NotPresent => wire_length,
            CRCFlag::Present => {
                if wire_length < 2 {
                    return Err(PDUError::InvalidDataFieldLength(wire_length));
                }
                wire_length - 2
            },
        };

        if buffer.len() < 4 {
            return Err(PDUError::ReadError);
        }
        let b3 = buffer[3];
        assert((b3 & 0x80u8) >> 7u8 <= 1 && (b3 & 0x8u8) >> 3u8 <= 1 && (b3 & 0x70u8) >> 4u8 <= 7
            && b3 & 0x7u8 <= 7) by (bit_vector);

        let segmentation_control = {
            let possible = (b3 & 0x80u8) >> 7u8;
            SegmentationControl::from_u8(possible).ok_or(
                PDUError::InvalidSegmentControl(possible),
            )?
        };

        let segment_metadata_flag = {
            let possible = (b3 & 0x8u8) >> 3u8;
            SegmentedData::from_u8(possible).ok_or(PDUError::InvalidSegmentMetadataFlag(possible))?
        };

        // CCSDS defines the lengths to be encoded as length - 1.
        // add one back to get actual value.
        let entity_id_length = (((b3 & 0x70u8) >> 4u8) + 1) as usize;
        let transaction_sequence_length = ((b3 & 0x7u8) + 1) as usize;

        let source_end = 4 + entity_id_length;
        if buffer.len() < source_end {
            return Err(PDUError::ReadError);
        }
        let source_entity_id = VariableID::try_from_bytes(slice_subrange(buffer, 4, source_end))?;

        let sequence_end = source_end + transaction_sequence_length;
        if buffer.len() < sequence_end {
            return Err(PDUError::ReadError);
        }
        let transaction_sequence_number = VariableID::try_from_bytes(
            slice_subrange(buffer, source_end, sequence_end),
        )?;

        let destination_end = sequence_end + entity_id_length;
        if buffer.len() < destination_end {
            return Err(PDUError::ReadError);
        }
        let destination_entity_id = VariableID::try_from_bytes(
            slice_subrange(buffer, sequence_end, destination_end),
        )?;

        Ok(
            (
                PDUHeader {
                    version,
                    pdu_type,
                    direction,
                    transmission_mode,
                    crc_flag,
                    large_file_flag,
                    pdu_data_field_length,
                    segmentation_control,
                    segment_metadata_flag,
                    source_entity_id,
                    transaction_sequence_number,
                    destination_entity_id,
                },
                destination_end,
            ),
        )
    }
}

} // verus!

verus! {

/// What reading a length byte and then that many bytes from the start of
/// `buffer` gives: the bytes and the number of bytes taken in all.
pub open spec fn spec_length_value_pair(buffer: Seq<u8>) -> PDUResult<(Seq<u8>, usize)> {
    if buffer.len() < 1 || buffer.len() < 1 + buffer[0] {
        Err(PDUError::ReadError)
    } else {
        Ok((buffer.subrange(1, 1 + buffer[0]), (1 + buffer[0]) as usize))
    }
}

/// What reading a type byte from the start of `buffer` gives: the byte and
/// the number of bytes taken.
pub open spec fn spec_type(buffer: Seq<u8>) -> PDUResult<(u8, usize)> {
    if buffer.len() < 1 {
        Err(PDUError::ReadError)
    } else {
        Ok((buffer[0], 1usize))
    }
}

/// What reading a type byte, a length byte and then that many bytes from
/// the start of `buffer` gives: the type, the bytes, and the number of
/// bytes taken in all.
pub open spec fn spec_type_length_value(buffer: Seq<u8>) -> PDUResult<(u8, Seq<u8>, usize)> {
    match spec_type(buffer) {
        Err(e) => Err(e),
        Ok((message_type, type_len)) => match spec_length_value_pair(buffer.skip(type_len as int)) {
            Err(e) => Err(e),
            Ok((value, value_len)) => Ok((message_type, value, (type_len + value_len) as usize)),
        },
    }
}

/// Reads a length byte and then that many bytes from the start of `buffer`;
/// returns those bytes and the number of bytes read in all.
pub fn read_length_value_pair(buffer: &[u8]) -> (res: PDUResult<(Vec<u8>, usize)>)
    ensures
        match res {
            Ok((value, read)) => spec_length_value_pair(buffer@) == Ok::<(Seq<u8>, usize), PDUError>(
                (value@, read),
            ),
            Err(e) => spec_length_value_pair(buffer@) == Err::<(Seq<u8>, usize), PDUError>(e),
        },
{
    if buffer.len() < 1 {
        return Err(PDUError::ReadError);
    }
    let length = buffer[0];
    let end = 1 + length as usize;
    if buffer.len() < end {
        return Err(PDUError::ReadError);
    }
    let vector = slice_to_vec(slice_subrange(buffer, 1, end));
    Ok((vector, end))
}

/// Reads one type byte from the start of `buffer`; returns it and the number
/// of bytes read.
pub fn read_type(buffer: &[u8]) -> (res: PDUResult<(u8, usize)>)
    ensures
        res == spec_type(buffer@),
{
    if buffer.len() < 1 {
        return Err(PDUError::ReadError);
    }
    Ok((buffer[0], 1))
}

/// Reads a type byte, a length byte and then that many bytes from the start
/// of `buffer`; returns the type, the bytes and the number of bytes read in all.
pub fn read_type_length_value(buffer: &[u8]) -> (res: PDUResult<(u8, Vec<u8>, usize)>)
    ensures
        match res {
            Ok((message_type, value, read)) => spec_type_length_value(buffer@) == Ok::<
                (u8, Seq<u8>, usize),
                PDUError,
            >((message_type, value@, read)),
            Err(e) => spec_type_length_value(buffer@) == Err::<(u8, Seq<u8>, usize), PDUError>(e),
        },
{
    let (message_type, type_len) = read_type(buffer)?;
    let (vector, value_len) = read_length_value_pair(slice_subrange(buffer, type_len, buffer.len()))?;
    proof {
        assert(buffer@.subrange(type_len as int, buffer@.len() as int) =~= buffer@.skip(
            type_len as int,
        ));
    }
    Ok((message_type, vector, type_len + value_len))
}

} // verus!

verus! {

/// Each field packed into the first header byte is read back from its bits.
proof fn lemma_first_byte_fields(b: u8, v: u8, t: u8, d: u8, m: u8, c: u8, f: u8)
    by (bit_vector)
    requires
        v <= 7,
        t <= 1,
        d <= 1,
        m <= 1,
        c <= 1,
        f <= 1,
        b == (v << 5u8) | (t << 4u8) | (d << 3u8) | (m << 2u8) | (c << 1u8) | f,
    ensures
        (b & 0xE0u8) >> 5u8 == v,
        (b & 0x10u8) >> 4u8 == t,
        (b & 0x8u8) >> 3u8 == d,
        (b & 0x4u8) >> 2u8 == m,
        (b & 0x2u8) >> 1u8 == c,
        b & 0x1u8 == f,
{
}

/// The fields of the first header byte cover all its bits.
proof fn lemma_first_byte_split(b: u8)
    by (bit_vector)
    ensures
        b == (((b & 0xE0u8) >> 5u8) << 5u8) | (((b & 0x10u8) >> 4u8) << 4u8) | (((b & 0x8u8) >> 3u8)
            << 3u8) | (((b & 0x4u8) >> 2u8) << 2u8) | (((b & 0x2u8) >> 1u8) << 1u8) | (b & 0x1u8),
        (b & 0xE0u8) >> 5u8 <= 7,
        (b & 0x10u8) >> 4u8 <= 1,
        (b & 0x8u8) >> 3u8 <= 1,
        (b & 0x4u8) >> 2u8 <= 1,
        (b & 0x2u8) >> 1u8 <= 1,
        b & 0x1u8 <= 1,
{
}

/// Each field packed into the fourth header byte is read back from its bits.
proof fn lemma_fourth_byte_fields(b: u8, sc: u8, a: u8, sm: u8, q: u8)
    by (bit_vector)
    requires
        sc <= 1,
        a <= 7,
        sm <= 1,
        q <= 7,
        b == (sc << 7u8) | (a << 4u8) | (sm << 3u8) | q,
    ensures
        (b & 0x80u8) >> 7u8 == sc,
        (b & 0x70u8) >> 4u8 == a,
        (b & 0x8u8) >> 3u8 == sm,
        b & 0x7u8 == q,
{
}

/// The fields of the fourth header byte cover all its bits.
proof fn lemma_fourth_byte_split(b: u8)
    by (bit_vector)
    ensures
        b == (((b & 0x80u8) >> 7u8) << 7u8) | ((((b & 0x70u8) >> 4u8)) << 4u8) | (((b & 0x8u8)
            >> 3u8) << 3u8) | (b & 0x7u8),
        (b & 0x80u8) >> 7u8 <= 1,
        (b & 0x70u8) >> 4u8 <= 7,
        (b & 0x8u8) >> 3u8 <= 1,
        b & 0x7u8 <= 7,
{
}

/// The encoding of a header has as many bytes as its encoded length, which
/// is between 7 and 28.
pub proof fn lemma_header_encoded_len(header: PDUHeader)
    ensures
        header.spec_encode().len() == header.spec_encoded_len(),
        7 <= header.spec_encoded_len() <= 28,
{
    crate::variable_id::lemma_be_bytes_len(header.source_entity_id);
    crate::variable_id::lemma_be_bytes_len(header.transaction_sequence_number);
    crate::variable_id::lemma_be_bytes_len(header.destination_entity_id);
}

/// Decoding the bytes of an encodable header, whose source and destination
/// entity identifiers have the same width, gives the header back and reads
/// exactly its encoded length, whatever bytes follow.
pub proof fn lemma_header_roundtrip(header: PDUHeader, rest: Seq<u8>)
    requires
        header.encodable(),
        header.source_entity_id.spec_encoded_len()
            == header.destination_entity_id.spec_encoded_len(),
    ensures
        PDUHeader::spec_decode(header.spec_encode() + rest) == Ok::<(PDUHeader, usize), PDUError>(
            (header, header.spec_encoded_len() as usize),
        ),
{
    let h = header;
    let e = h.spec_encode();
    let s = e + rest;
    let ls: int = h.source_entity_id.spec_encoded_len() as int;
    let lt: int = h.transaction_sequence_number.spec_encoded_len() as int;
    let ld: int = h.destination_entity_id.spec_encoded_len() as int;
    lemma_header_encoded_len(h);
    crate::variable_id::lemma_be_bytes_len(h.source_entity_id);
    crate::variable_id::lemma_be_bytes_len(h.transaction_sequence_number);
    crate::variable_id::lemma_be_bytes_len(h.destination_entity_id);
    let w = h.wire_data_field_length();
    assert(s[0] == h.first_byte());
    assert(s[1] == (w >> 8u16) as u8);
    assert(s[2] == w as u8);
    assert(s[3] == h.fourth_byte());

    lemma_u3_code(h.version, 0);
    lemma_pdu_type_code(h.pdu_type, 0);
    lemma_direction_code(h.direction, 0);
    lemma_transmission_mode_code(h.transmission_mode, 0);
    lemma_crc_flag_code(h.crc_flag, 0);
    lemma_file_size_flag_code(h.large_file_flag, 0);
    lemma_segmentation_control_code(h.segmentation_control, 0);
    lemma_segmented_data_code(h.segment_metadata_flag, 0);
    assert(h.version.code() <= 7);
    assert(h.pdu_type.code() <= 1);
    assert(h.direction.code() <= 1);
    assert(h.transmission_mode.code() <= 1);
    assert(h.crc_flag.code() <= 1);
    assert(h.large_file_flag.code() <= 1);
    assert(h.segmentation_control.code() <= 1);
    assert(h.segment_metadata_flag.code() <= 1);
    lemma_first_byte_fields(
        s[0],
        h.version.code(),
        h.pdu_type.code(),
        h.direction.code(),
        h.transmission_mode.code(),
        h.crc_flag.code(),
        h.large_file_flag.code(),
    );
    lemma_fourth_byte_fields(
        s[3],
        h.segmentation_control.code(),
        (ls - 1) as u8,
        h.segment_metadata_flag.code(),
        (lt - 1) as u8,
    );
    crate::variable_id::lemma_variable_id_roundtrip(VariableID::U16(w));
    assert(crate::variable_id::u16_from_be(s[1], s[2]) == w);

    assert(PDUHeader::entity_id_length(s[3]) == ls);
    assert(PDUHeader::sequence_number_length(s[3]) == lt);
    assert(s.subrange(4, 4 + ls) =~= h.source_entity_id.be_bytes());
    assert(s.subrange(4 + ls, 4 + ls + lt) =~= h.transaction_sequence_number.be_bytes());
    assert(s.subrange(4 + ls + lt, 4 + ls + lt + ld) =~= h.destination_entity_id.be_bytes());
    crate::variable_id::lemma_variable_id_roundtrip(h.source_entity_id);
    crate::variable_id::lemma_variable_id_roundtrip(h.transaction_sequence_number);
    crate::variable_id::lemma_variable_id_roundtrip(h.destination_entity_id);
    assert(PDUHeader::from_fields(
        s[0],
        s[1],
        s[2],
        s[3],
        h.source_entity_id,
        h.transaction_sequence_number,
        h.destination_entity_id,
    ) == h);
}

/// A header decoded from some bytes is encodable, has equally wide source
/// and destination entity identifiers, and encodes back to exactly the
/// bytes that were read.
pub proof fn lemma_header_decode_reencode(buffer: Seq<u8>)
    ensures
        PDUHeader::spec_decode(buffer) matches Ok((h, n)) ==> {
            &&& h.encodable()
            &&& h.source_entity_id.spec_encoded_len()
                == h.destination_entity_id.spec_encoded_len()
            &&& n == h.spec_encoded_len()
            &&& h.spec_encode() == buffer.take(n as int)
        },
{
    if let Ok((h, n)) = PDUHeader::spec_decode(buffer) {
        let b0 = buffer[0];
        let b3 = buffer[3];
        let ls = PDUHeader::entity_id_length(b3);
        let lt = PDUHeader::sequence_number_length(b3);
        lemma_first_byte_split(b0);
        lemma_fourth_byte_split(b3);
        lemma_u3_code(h.version, (b0 & 0xE0u8) >> 5u8);
        lemma_pdu_type_code(h.pdu_type, (b0 & 0x10u8) >> 4u8);
        lemma_direction_code(h.direction, (b0 & 0x8u8) >> 3u8);
        lemma_transmission_mode_code(h.transmission_mode, (b0 & 0x4u8) >> 2u8);
        lemma_crc_flag_code(h.crc_flag, (b0 & 0x2u8) >> 1u8);
        lemma_file_size_flag_code(h.large_file_flag, b0 & 0x1u8);
        lemma_segmentation_control_code(h.segmentation_control, (b3 & 0x80u8) >> 7u8);
        lemma_segmented_data_code(h.segment_metadata_flag, (b3 & 0x8u8) >> 3u8);
        assert(h.first_byte() == b0);

        let source_bytes = buffer.subrange(4, 4 + ls);
        let sequence_bytes = buffer.subrange(4 + ls, 4 + ls + lt);
        let destination_bytes = buffer.subrange(4 + ls + lt, 4 + ls + lt + ls);
        crate::variable_id::lemma_variable_id_bytes_roundtrip(source_bytes);
        crate::variable_id::lemma_variable_id_bytes_roundtrip(sequence_bytes);
        crate::variable_id::lemma_variable_id_bytes_roundtrip(destination_bytes);
        assert(h.fourth_byte() == b3);

        let w = crate::variable_id::u16_from_be(buffer[1], buffer[2]);
        crate::variable_id::lemma_variable_id_bytes_roundtrip(seq![buffer[1], buffer[2]]);
        assert(crate::variable_id::be_bytes_u16(w) == seq![buffer[1], buffer[2]]);
        assert(h.wire_data_field_length() == w);
        assert(h.spec_encode() =~= buffer.take(n as int));
    }
}

/// A length byte followed by that many bytes reads back as those bytes,
/// whatever follows them.
pub proof fn lemma_length_value_roundtrip(value: Seq<u8>, rest: Seq<u8>)
    requires
        value.len() <= 255,
    ensures
        spec_length_value_pair(seq![value.len() as u8] + value + rest) == Ok::<
            (Seq<u8>, usize),
            PDUError,
        >((value, (value.len() + 1) as usize)),
{
    let s = seq![value.len() as u8] + value + rest;
    assert(s[0] == value.len());
    assert(s.subrange(1, 1 + s[0]) =~= value);
}

/// A type byte, a length byte and that many bytes read back as the type and
/// those bytes, whatever follows them.
pub proof fn lemma_type_length_value_roundtrip(message_type: u8, value: Seq<u8>, rest: Seq<u8>)
    requires
        value.len() <= 255,
    ensures
        spec_type_length_value(seq![message_type, value.len() as u8] + value + rest) == Ok::<
            (u8, Seq<u8>, usize),
            PDUError,
        >((message_type, value, (value.len() + 2) as usize)),
{
    let s = seq![message_type, value.len() as u8] + value + rest;
    assert(s.skip(1) =~= seq![value.len() as u8] + value + rest);
    lemma_length_value_roundtrip(value, rest);
}

/// The big-endian value of two bytes is the arithmetic value of their digits.
proof fn lemma_u16_from_be_value(b1: u8, b2: u8)
    ensures
        crate::variable_id::u16_from_be(b1, b2) == b1 * 256 + b2,
{
    assert(((b1 as u16) << 8u16) | (b2 as u16) == b1 * 256 + b2) by (bit_vector);
}

/// Where each field stands in an encoded header: the version in the top
/// three bits of byte 0, then one bit each for PDU type, direction,
/// transmission mode, CRC flag and file size flag; bytes 1 and 2 hold the
/// data field length, big-endian, plus 2 where a CRC is present; byte 3
/// holds segmentation control in its top bit, the entity identifier width
/// minus one in the next three, the segment metadata flag, and the sequence
/// number width minus one in the low three; then the source identifier,
/// the sequence number and the destination identifier, each big-endian.
pub proof fn lemma_header_encode_layout(header: PDUHeader)
    requires
        header.encodable(),
    ensures
        ({
            let e = header.spec_encode();
            let ws = header.source_entity_id.spec_encoded_len() as int;
            let wt = header.transaction_sequence_number.spec_encoded_len() as int;
            let wd = header.destination_entity_id.spec_encoded_len() as int;
            &&& e.len() == 4 + ws + wt + wd
            &&& (e[0] & 0xE0u8) >> 5u8 == header.version.code()
            &&& (e[0] & 0x10u8) >> 4u8 == header.pdu_type.code()
            &&& (e[0] & 0x8u8) >> 3u8 == header.direction.code()
            &&& (e[0] & 0x4u8) >> 2u8 == header.transmission_mode.code()
            &&& (e[0] & 0x2u8) >> 1u8 == header.crc_flag.code()
            &&& e[0] & 0x1u8 == header.large_file_flag.code()
            &&& e[1] * 256 + e[2] == header.pdu_data_field_length + (if header.crc_flag
                == CRCFlag::Present {
                2int
            } else {
                0int
            })
            &&& (e[3] & 0x80u8) >> 7u8 == header.segmentation_control.code()
            &&& ((e[3] & 0x70u8) >> 4u8) + 1 == ws
            &&& (e[3] & 0x8u8) >> 3u8 == header.segment_metadata_flag.code()
            &&& (e[3] & 0x7u8) + 1 == wt
            &&& crate::variable_id::be_value(e.subrange(4, 4 + ws)) == header.source_entity_id.value()
            &&& crate::variable_id::be_value(e.subrange(4 + ws, 4 + ws + wt))
                == header.transaction_sequence_number.value()
            &&& crate::variable_id::be_value(e.subrange(4 + ws + wt, 4 + ws + wt + wd))
                == header.destination_entity_id.value()
        }),
{
    let h = header;
    let e = h.spec_encode();
    let ws: int = h.source_entity_id.spec_encoded_len() as int;
    let wt: int = h.transaction_sequence_number.spec_encoded_len() as int;
    let wd: int = h.destination_entity_id.spec_encoded_len() as int;
    lemma_header_encoded_len(h);
    crate::variable_id::lemma_be_bytes_value(h.source_entity_id);
    crate::variable_id::lemma_be_bytes_value(h.transaction_sequence_number);
    crate::variable_id::lemma_be_bytes_value(h.destination_entity_id);
    let w = h.wire_data_field_length();
    assert(e[0] == h.first_byte());
    assert(e[1] == (w >> 8u16) as u8);
    assert(e[2] == w as u8);
    assert(e[3] == h.fourth_byte());
    lemma_u3_code(h.version, 0);
    lemma_pdu_type_code(h.pdu_type, 0);
    lemma_direction_code(h.direction, 0);
    lemma_transmission_mode_code(h.transmission_mode, 0);
    lemma_crc_flag_code(h.crc_flag, 0);
    lemma_file_size_flag_code(h.large_file_flag, 0);
    lemma_segmentation_control_code(h.segmentation_control, 0);
    lemma_segmented_data_code(h.segment_metadata_flag, 0);
    assert(h.version.code() <= 7);
    assert(h.pdu_type.code() <= 1);
    assert(h.direction.code() <= 1);
    assert(h.transmission_mode.code() <= 1);
    assert(h.crc_flag.code() <= 1);
    assert(h.large_file_flag.code() <= 1);
    assert(h.segmentation_control.code() <= 1);
    assert(h.segment_metadata_flag.code() <= 1);
    lemma_first_byte_fields(
        e[0],
        h.version.code(),
        h.pdu_type.code(),
        h.direction.code(),
        h.transmission_mode.code(),
        h.crc_flag.code(),
        h.large_file_flag.code(),
    );
    lemma_fourth_byte_fields(
        e[3],
        h.segmentation_control.code(),
        (ws - 1) as u8,
        h.segment_metadata_flag.code(),
        (wt - 1) as u8,
    );
    crate::variable_id::lemma_variable_id_roundtrip(VariableID::U16(w));
    lemma_u16_from_be_value(e[1], e[2]);
    assert(e.subrange(4, 4 + ws) =~= h.source_entity_id.be_bytes());
    assert(e.subrange(4 + ws, 4 + ws + wt) =~= h.transaction_sequence_number.be_bytes());
    assert(e.subrange(4 + ws + wt, 4 + ws + wt + wd) =~= h.destination_entity_id.be_bytes());
}

/// When decoding succeeds and what it gives: the input must hold the four
/// fixed bytes, a data field length of at least 2 where the CRC flag
/// (bit 1 of byte 0) is set, identifier widths of 1, 2, 4 or 8 (the
/// entity identifier width less one in bits 4 to 6 of byte 3, the sequence
/// number width less one in its low three bits), and all three identifiers.
/// The decoded fields are then the bits of bytes 0 and 3, the big-endian
/// length of bytes 1 and 2 less the 2 CRC bytes where the flag is set, and
/// the identifiers spelt by the bytes that follow; the bytes read are the
/// four fixed ones and the three identifiers. Input shorter than the length
/// field gives `ReadError`; a length below 2 with the CRC flag set gives
/// `InvalidDataFieldLength` with that length.
pub proof fn lemma_header_decode_layout(buffer: Seq<u8>)
    ensures
        ({
            let crc = buffer.len() >= 3 && (buffer[0] & 0x2u8) >> 1u8 == 1u8;
            let wire = buffer[1] * 256 + buffer[2];
            let ws = ((buffer[3] & 0x70u8) >> 4u8) + 1;
            let wt = (buffer[3] & 0x7u8) + 1;
            let valid_width = |w: int| w == 1 || w == 2 || w == 4 || w == 8;
            &&& PDUHeader::spec_decode(buffer) is Ok <==> (buffer.len() >= 4 && !(crc && wire < 2)
                && valid_width(ws) && valid_width(wt) && buffer.len() >= 4 + 2 * ws + wt)
            &&& buffer.len() < 3 ==> PDUHeader::spec_decode(buffer) == Err::<
                (PDUHeader, usize),
                PDUError,
            >(PDUError::ReadError)
            &&& crc && wire < 2 ==> (PDUHeader::spec_decode(buffer) matches Err(
                PDUError::InvalidDataFieldLength(w),
            ) && w == wire)
            &&& PDUHeader::spec_decode(buffer) matches Ok((h, n)) ==> {
                &&& h.version.code() == (buffer[0] & 0xE0u8) >> 5u8
                &&& h.pdu_type.code() == (buffer[0] & 0x10u8) >> 4u8
                &&& h.direction.code() == (buffer[0] & 0x8u8) >> 3u8
                &&& h.transmission_mode.code() == (buffer[0] & 0x4u8) >> 2u8
                &&& h.crc_flag.code() == (buffer[0] & 0x2u8) >> 1u8
                &&& h.large_file_flag.code() == buffer[0] & 0x1u8
                &&& h.pdu_data_field_length + (if crc {
                    2int
                } else {
                    0int
                }) == wire
                &&& h.segmentation_control.code() == (buffer[3] & 0x80u8) >> 7u8
                &&& h.segment_metadata_flag.code() == (buffer[3] & 0x8u8) >> 3u8
                &&& h.source_entity_id.spec_encoded_len() == ws
                &&& h.transaction_sequence_number.spec_encoded_len() == wt
                &&& h.destination_entity_id.spec_encoded_len() == ws
                &&& h.source_entity_id.value() == crate::variable_id::be_value(
                    buffer.subrange(4, 4 + ws),
                )
                &&& h.transaction_sequence_number.value() == crate::variable_id::be_value(
                    buffer.subrange(4 + ws, 4 + ws + wt),
                )
                &&& h.destination_entity_id.value() == crate::variable_id::be_value(
                    buffer.subrange(4 + ws + wt, 4 + 2 * ws + wt),
                )
                &&& n == 4 + 2 * ws + wt
            }
        }),
{
    if buffer.len() >= 3 {
        lemma_u16_from_be_value(buffer[1], buffer[2]);
    }
    if buffer.len() >= 4 {
        let b0 = buffer[0];
        let b3 = buffer[3];
        let ws = PDUHeader::entity_id_length(b3);
        let wt = PDUHeader::sequence_number_length(b3);
        lemma_first_byte_split(b0);
        lemma_fourth_byte_split(b3);
        crate::variable_id::lemma_from_be_value(buffer.subrange(4, 4 + ws));
        crate::variable_id::lemma_from_be_value(buffer.subrange(4 + ws, 4 + ws + wt));
        crate::variable_id::lemma_from_be_value(buffer.subrange(4 + ws + wt, 4 + 2 * ws + wt));
        if let Ok((h, n)) = PDUHeader::spec_decode(buffer) {
            lemma_u3_code(h.version, (b0 & 0xE0u8) >> 5u8);
            lemma_pdu_type_code(h.pdu_type, (b0 & 0x10u8) >> 4u8);
            lemma_direction_code(h.direction, (b0 & 0x8u8) >> 3u8);
            lemma_transmission_mode_code(h.transmission_mode, (b0 & 0x4u8) >> 2u8);
            lemma_crc_flag_code(h.crc_flag, (b0 & 0x2u8) >> 1u8);
            lemma_file_size_flag_code(h.large_file_flag, b0 & 0x1u8);
            lemma_segmentation_control_code(h.segmentation_control, (b3 & 0x80u8) >> 7u8);
            lemma_segmented_data_code(h.segment_metadata_flag, (b3 & 0x8u8) >> 3u8);
        }
    }
}

} // verus!
