# cfdp_core

The protocol data unit header layer of a CCSDS File Delivery Protocol
implementation, written in Verus.

- `src/header.rs`: the numeric codes of the header fields, the `PDUEncode`
  family of traits, the byte codecs of `TransmissionMode` and `PDUHeader`,
  the length/value readers, and the laws that tie encoding and decoding
  together (both round trips, encoded lengths, code tables).
- `src/variable_id.rs`: entity identifiers and sequence numbers of 1, 2, 4
  or 8 big-endian bytes.
- `src/error.rs`: decoding errors.
- `app/lib.rs`: adapters that read the same structures from any
  `std::io::Read`.
- `tests/`: scenarios on concrete bytes.

Every decoder works on a byte slice and returns what it decoded with the
number of bytes it read; its contract equates the result with a spec
function over the input bytes.
