//! Protocol data unit headers of the CCSDS File Delivery Protocol: the
//! numeric codes of the header fields, the variable-length identifiers and
//! the fixed header itself, with their byte encodings.

pub mod error;
pub mod header;
pub mod variable_id;

pub use error::{PDUError, PDUResult};
pub use header::{
    read_length_value_pair, read_type, read_type_length_value, CRCFlag, Condition, DeliveryCode,
    Direction, FSSEncode, FileSizeFlag, FileStatusCode, MessageType, NakOrKeepAlive, PDUEncode,
    PDUHeader, PDUType, SegmentEncode, SegmentationControl, SegmentedData, TraceControl,
    TransactionStatus, TransmissionMode, U3,
};
pub use variable_id::VariableID;
