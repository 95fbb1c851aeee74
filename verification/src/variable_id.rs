use vstd::prelude::*;

use crate::error::{PDUError, PDUResult};

verus! {

/// An entity identifier or transaction sequence number, carried on the wire
/// as a big-endian unsigned integer of 1, 2, 4 or 8 bytes.
#[derive(Clone, Copy, Debug, PartialEq, Eq, Hash, Structural)]
pub enum VariableID {
    U8(u8),
    U16(u16),
    U32(u32),
    U64(u64),
}

/// The two big-endian bytes of `x`.
pub open spec fn be_bytes_u16(x: u16) -> Seq<u8> {
    seq![(x >> 8u16) as u8, x as u8]
}

/// The four big-endian bytes of `x`.
pub open spec fn be_bytes_u32(x: u32) -> Seq<u8> {
    seq![(x >> 24u32) as u8, (x >> 16u32) as u8, (x >> 8u32) as u8, x as u8]
}

/// The eight big-endian bytes of `x`.
pub open spec fn be_bytes_u64(x: u64) -> Seq<u8> {
    seq![
        (x >> 56u64) as u8,
        (x >> 48u64) as u8,
        (x >> 40u64) as u8,
        (x >> 32u64) as u8,
        (x >> 24u64) as u8,
        (x >> 16u64) as u8,
        (x >> 8u64) as u8,
        x as u8,
    ]
}

/// The `u16` whose big-endian bytes are `b0 b1`.
pub open spec fn u16_from_be(b0: u8, b1: u8) -> u16 {
    ((b0 as u16) << 8u16) | (b1 as u16)
}

/// The `u32` whose big-endian bytes are `s[0..4]`.
pub open spec fn u32_from_be(s: Seq<u8>) -> u32 {
    ((s[0] as u32) << 24u32) | ((s[1] as u32) << 16u32) | ((s[2] as u32) << 8u32) | (s[3] as u32)
}

/// The `u64` whose big-endian bytes are `s[0..8]`.
pub open spec fn u64_from_be(s: Seq<u8>) -> u64 {
    ((s[0] as u64) << 56u64) | ((s[1] as u64) << 48u64) | ((s[2] as u64) << 40u64) | ((s[3] as u64)
        << 32u64) | ((s[4] as u64) << 24u64) | ((s[5] as u64) << 16u64) | ((s[6] as u64) << 8u64)
        | (s[7] as u64)
}

/// The number that `bytes` spell as big-endian base-256 digits.
pub open spec fn be_value(bytes: Seq<u8>) -> nat
    decreases bytes.len(),
{
    if bytes.len() == 0 {
        0
    } else {
        be_value(bytes.drop_last()) * 256 + bytes.last() as nat
    }
}

impl VariableID {
    /// The number the identifier stands for.
    pub open spec fn value(self) -> nat {
        match self {
            VariableID::U8(x) => x as nat,
            VariableID::U16(x) => x as nat,
            VariableID::U32(x) => x as nat,
            VariableID::U64(x) => x as nat,
        }
    }

    /// The number of bytes of the identifier on the wire.
    pub open spec fn spec_encoded_len(self) -> nat {
        match self {
            VariableID::U8(_) => 1,
            VariableID::U16(_) => 2,
            VariableID::U32(_) => 4,
            VariableID::U64(_) => 8,
        }
    }

    /// The big-endian bytes of the identifier.
    pub open spec fn be_bytes(self) -> Seq<u8> {
        match self {
            VariableID::U8(x) => seq![x],
            VariableID::U16(x) => be_bytes_u16(x),
            VariableID::U32(x) => be_bytes_u32(x),
            VariableID::U64(x) => be_bytes_u64(x),
        }
    }

    /// The identifier that `bytes` encode: its width is the number of bytes.
    pub open spec fn from_be(bytes: Seq<u8>) -> PDUResult<VariableID> {
        if bytes.len() == 1 {
            Ok(VariableID::U8(bytes[0]))
        } else if bytes.len() == 2 {
            Ok(VariableID::U16(u16_from_be(bytes[0], bytes[1])))
        } else if bytes.len() == 4 {
            Ok(VariableID::U32(u32_from_be(bytes)))
        } else if bytes.len() == 8 {
            Ok(VariableID::U64(u64_from_be(bytes)))
        } else {
            Err(PDUError::UnknownIDLength(bytes.len() as u8))
        }
    }

    /// Number of bytes needed to encode the identifier.
    pub fn encoded_len(&self) -> (len: u16)
        ensures
            len == self.spec_encoded_len(),
    {
        match self {
            VariableID::U8(_) => 1,
            VariableID::U16(_) => 2,
            VariableID::U32(_) => 4,
            VariableID::U64(_) => 8,
        }
    }

    /// The identifier as big-endian bytes.
    pub fn to_be_bytes(self) -> (bytes: Vec<u8>)
        ensures
            bytes@ == self.be_bytes(),
    {
        let mut bytes: Vec<u8> = Vec::new();
        match self {
            VariableID::U8(x) => {
                bytes.push(x);
            },
            VariableID::U16(x) => {
                bytes.push((x >> 8u16) as u8);
                bytes.push(x as u8);
            },
            VariableID::U32(x) => {
                bytes.push((x >> 24u32) as u8);
                bytes.push((x >> 16u32) as u8);
                bytes.push((x >> 8u32) as u8);
                bytes.push(x as u8);
            },
            VariableID::U64(x) => {
                bytes.push((x >> 56u64) as u8);
                bytes.push((x >> 48u64) as u8);
                bytes.push((x >> 40u64) as u8);
                bytes.push((x >> 32u64) as u8);
                bytes.push((x >> 24u64) as u8);
                bytes.push((x >> 16u64) as u8);
                bytes.push((x >> 8u64) as u8);
                bytes.push(x as u8);
            },
        }
        assert(bytes@ =~= self.be_bytes());
        bytes
    }

    /// Reads an identifier from its big-endian bytes; the number of bytes
    /// gives its width, and must be 1, 2, 4 or 8.
    pub fn try_from_bytes(bytes: &[u8]) -> (res: PDUResult<VariableID>)
        ensures
            res == VariableID::from_be(bytes@),
    {
        let n = bytes.len();
        if n == 1 {
            Ok(VariableID::U8(bytes[0]))
        } else if n == 2 {
            Ok(VariableID::U16(((bytes[0] as u16) << 8u16) | (bytes[1] as u16)))
        } else if n == 4 {
            Ok(
                VariableID::U32(
                    ((bytes[0] as u32) << 24u32) | ((bytes[1] as u32) << 16u32) | ((bytes[2] as u32)
                        << 8u32) | (bytes[3] as u32),
                ),
            )
        } else if n == 8 {
            Ok(
                VariableID::U64(
                    ((bytes[0] as u64) << 56u64) | ((bytes[1] as u64) << 48u64) | ((bytes[2] as u64)
                        << 40u64) | ((bytes[3] as u64) << 32u64) | ((bytes[4] as u64) << 24u64) | ((
                    bytes[5] as u64) << 16u64) | ((bytes[6] as u64) << 8u64) | (bytes[7] as u64),
                ),
            )
        } else {
            Err(PDUError::UnknownIDLength(n as u8))
        }
    }
}

/// The bytes of an identifier have as many entries as its encoded length.
pub proof fn lemma_be_bytes_len(id: VariableID)
    ensures
        id.be_bytes().len() == id.spec_encoded_len(),
{
}

/// Reading back the bytes of an identifier gives the identifier.
pub proof fn lemma_variable_id_roundtrip(id: VariableID)
    ensures
        VariableID::from_be(id.be_bytes()) == Ok::<VariableID, PDUError>(id),
{
    match id {
        VariableID::U8(x) => {},
        VariableID::U16(x) => {
            assert(((((x >> 8u16) as u8) as u16) << 8u16) | ((x as u8) as u16) == x)
                by (bit_vector);
        },
        VariableID::U32(x) => {
            let s = be_bytes_u32(x);
            assert(((((x >> 24u32) as u8) as u32) << 24u32) | ((((x >> 16u32) as u8) as u32)
                << 16u32) | ((((x >> 8u32) as u8) as u32) << 8u32) | ((x as u8) as u32) == x)
                by (bit_vector);
            assert(u32_from_be(s) == x);
        },
        VariableID::U64(x) => {
            let s = be_bytes_u64(x);
            assert(((((x >> 56u64) as u8) as u64) << 56u64) | ((((x >> 48u64) as u8) as u64)
                << 48u64) | ((((x >> 40u64) as u8) as u64) << 40u64) | ((((x >> 32u64) as u8) as u64)
                << 32u64) | ((((x >> 24u64) as u8) as u64) << 24u64) | ((((x >> 16u64) as u8) as u64)
                << 16u64) | ((((x >> 8u64) as u8) as u64) << 8u64) | ((x as u8) as u64) == x)
                by (bit_vector);
            assert(u64_from_be(s) == x);
        },
    }
}

/// The identifier read from some bytes gives back those bytes.
pub proof fn lemma_variable_id_bytes_roundtrip(bytes: Seq<u8>)
    ensures
        VariableID::from_be(bytes) matches Ok(id) ==> id.be_bytes() == bytes
            && id.spec_encoded_len() == bytes.len(),
{
    if bytes.len() == 2 {
        let (b0, b1) = (bytes[0], bytes[1]);
        assert((((((b0 as u16) << 8u16) | (b1 as u16)) >> 8u16) as u8) == b0 && ((((b0 as u16)
            << 8u16) | (b1 as u16)) as u8) == b1) by (bit_vector);
        assert(be_bytes_u16(u16_from_be(b0, b1)) =~= bytes);
    } else if bytes.len() == 4 {
        let (b0, b1, b2, b3) = (bytes[0], bytes[1], bytes[2], bytes[3]);
        let x = u32_from_be(bytes);
        assert(x == ((b0 as u32) << 24u32) | ((b1 as u32) << 16u32) | ((b2 as u32) << 8u32) | (
        b3 as u32));
        assert(x == ((b0 as u32) << 24u32) | ((b1 as u32) << 16u32) | ((b2 as u32) << 8u32) | (
        b3 as u32) ==> (x >> 24u32) as u8 == b0 && (x >> 16u32) as u8 == b1 && (x >> 8u32) as u8
            == b2 && x as u8 == b3) by (bit_vector);
        assert(be_bytes_u32(x) =~= bytes);
    } else if bytes.len() == 8 {
        let (b0, b1, b2, b3, b4, b5, b6, b7) = (
            bytes[0],
            bytes[1],
            bytes[2],
            bytes[3],
            bytes[4],
            bytes[5],
            bytes[6],
            bytes[7],
        );
        let x = u64_from_be(bytes);
        assert(x == ((b0 as u64) << 56u64) | ((b1 as u64) << 48u64) | ((b2 as u64) << 40u64) | ((
        b3 as u64) << 32u64) | ((b4 as u64) << 24u64) | ((b5 as u64) << 16u64) | ((b6 as u64)
            << 8u64) | (b7 as u64));
        assert(x == ((b0 as u64) << 56u64) | ((b1 as u64) << 48u64) | ((b2 as u64) << 40u64) | ((
        b3 as u64) << 32u64) | ((b4 as u64) << 24u64) | ((b5 as u64) << 16u64) | ((b6 as u64)
            << 8u64) | (b7 as u64) ==> (x >> 56u64) as u8 == b0 && (x >> 48u64) as u8 == b1 && (x
            >> 40u64) as u8 == b2 && (x >> 32u64) as u8 == b3 && (x >> 24u64) as u8 == b4 && (x
            >> 16u64) as u8 == b5 && (x >> 8u64) as u8 == b6 && x as u8 == b7) by (bit_vector);
        assert(be_bytes_u64(x) =~= bytes);
    } else if bytes.len() == 1 {
        assert(seq![bytes[0]] =~= bytes);
    }
}

/// Taking one more byte appends one more base-256 digit.
proof fn lemma_be_value_take(s: Seq<u8>, k: int)
    requires
        1 <= k <= s.len(),
    ensures
        be_value(s.take(k)) == be_value(s.take(k - 1)) * 256 + s[k - 1],
{
    assert(s.take(k).drop_last() =~= s.take(k - 1));
}

/// The big-endian digits of a byte sequence of width 1, 2, 4 or 8, spelt out.
proof fn lemma_be_value_unfold(s: Seq<u8>)
    ensures
        s.len() == 1 ==> be_value(s) == s[0] as nat,
        s.len() == 2 ==> be_value(s) == s[0] * 256 + s[1],
        s.len() == 4 ==> be_value(s) == ((s[0] * 256 + s[1]) * 256 + s[2]) * 256 + s[3],
        s.len() == 8 ==> be_value(s) == ((((((s[0] * 256 + s[1]) * 256 + s[2]) * 256 + s[3]) * 256
            + s[4]) * 256 + s[5]) * 256 + s[6]) * 256 + s[7],
{
    if 1 <= s.len() <= 8 {
        assert(s.take(0).len() == 0);
        if s.len() >= 1 {
            lemma_be_value_take(s, 1);
        }
        if s.len() >= 2 {
            lemma_be_value_take(s, 2);
        }
        if s.len() >= 3 {
            lemma_be_value_take(s, 3);
        }
        if s.len() >= 4 {
            lemma_be_value_take(s, 4);
        }
        if s.len() >= 5 {
            lemma_be_value_take(s, 5);
        }
        if s.len() >= 6 {
            lemma_be_value_take(s, 6);
        }
        if s.len() >= 7 {
            lemma_be_value_take(s, 7);
        }
        if s.len() >= 8 {
            lemma_be_value_take(s, 8);
        }
        assert(s.take(s.len() as int) =~= s);
    }
}

/// Bytes of width 1, 2, 4 or 8 read as the identifier of that width whose
/// value they spell in big-endian order; bytes of any other width are
/// refused, naming the width.
pub proof fn lemma_from_be_value(bytes: Seq<u8>)
    ensures
        VariableID::from_be(bytes) is Ok <==> (bytes.len() == 1 || bytes.len() == 2 || bytes.len()
            == 4 || bytes.len() == 8),
        VariableID::from_be(bytes) matches Ok(id) ==> id.spec_encoded_len() == bytes.len()
            && id.value() == be_value(bytes),
        VariableID::from_be(bytes) is Err ==> VariableID::from_be(bytes) == Err::<
            VariableID,
            PDUError,
        >(PDUError::UnknownIDLength(bytes.len() as u8)),
{
    lemma_be_value_unfold(bytes);
    if bytes.len() == 2 {
        let (b0, b1) = (bytes[0], bytes[1]);
        assert(((b0 as u16) << 8u16) | (b1 as u16) == b0 * 256 + b1) by (bit_vector);
    } else if bytes.len() == 4 {
        let (b0, b1, b2, b3) = (bytes[0], bytes[1], bytes[2], bytes[3]);
        assert(((b0 as u32) << 24u32) | ((b1 as u32) << 16u32) | ((b2 as u32) << 8u32) | (b3 as u32)
            == ((b0 * 256 + b1) * 256 + b2) * 256 + b3) by (bit_vector);
    } else if bytes.len() == 8 {
        let (b0, b1, b2, b3, b4, b5, b6, b7) = (
            bytes[0],
            bytes[1],
            bytes[2],
            bytes[3],
            bytes[4],
            bytes[5],
            bytes[6],
            bytes[7],
        );
        assert(((b0 as u64) << 56u64) | ((b1 as u64) << 48u64) | ((b2 as u64) << 40u64) | ((
        b3 as u64) << 32u64) | ((b4 as u64) << 24u64) | ((b5 as u64) << 16u64) | ((b6 as u64)
            << 8u64) | (b7 as u64) == ((((((b0 * 256 + b1) * 256 + b2) * 256 + b3) * 256 + b4)
            * 256 + b5) * 256 + b6) * 256 + b7) by (bit_vector);
    }
}

/// An identifier of an integer type of 8, 16, 32 or 64 bits is 1, 2, 4 or
/// 8 bytes wide.
pub proof fn lemma_variable_id_widths(x8: u8, x16: u16, x32: u32, x64: u64)
    ensures
        VariableID::U8(x8).spec_encoded_len() == 1,
        VariableID::U16(x16).spec_encoded_len() == 2,
        VariableID::U32(x32).spec_encoded_len() == 4,
        VariableID::U64(x64).spec_encoded_len() == 8,
{
}

/// The bytes of an identifier are as many as its width, and spell its value
/// in big-endian order.
pub proof fn lemma_be_bytes_value(id: VariableID)
    ensures
        id.be_bytes().len() == id.spec_encoded_len(),
        be_value(id.be_bytes()) == id.value(),
{
    lemma_variable_id_roundtrip(id);
    lemma_from_be_value(id.be_bytes());
}

} // verus!
