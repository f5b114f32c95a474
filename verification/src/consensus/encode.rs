//! Consensus-encodable types.
//!
//! Anything that goes on the wire or on disk is encoded through the
//! [`Encodable`] and [`Decodable`] contracts defined here, so that the byte
//! format is identical on every platform: multi-byte integers are
//! little-endian, lengths are minimally encoded [`VarInt`]s, and decoding
//! rejects malformed or oversized input before allocating for it.

use vstd::prelude::*;

use crate::util::endian::le_bytes;
use crate::util::text::dec_chars;
use crate::util::text::push_dec_u64;
use crate::util::endian::le_value;
use crate::util::endian::lemma_le_bytes_len;
use crate::util::endian::lemma_le_value_bound;
use crate::util::endian::lemma_pow256_values;
use crate::util::endian::slice_to_u16_le;
use crate::util::endian::slice_to_u32_le;
use crate::util::endian::slice_to_u64_le;
use crate::util::endian::u16_to_array_le;
use crate::util::endian::u32_to_array_le;
use crate::util::endian::u64_to_array_le;

verus! {

/// The byte-source failure at this layer: the in-memory source ran out of
/// data before the requested width was read.
#[derive(Debug, Clone, Copy, PartialEq, Eq, Structural)]
pub enum IoError {
    /// More bytes were requested than the source still holds.
    UnexpectedEof,
}

/// Encoding error.
#[derive(Debug)]
pub enum Error {
    /// An I/O error.
    Io(IoError),
    /// Network magic was not expected.
    UnexpectedNetworkMagic {
        /// The expected network magic.
        expected: u32,
        /// The unexpected network magic.
        actual: u32,
    },
    /// Tried to allocate an oversized vector.
    OversizedVectorAllocation {
        /// The capacity requested.
        requested: usize,
        /// The maximum capacity.
        max: usize,
    },
    /// Checksum was invalid.
    InvalidChecksum {
        /// The expected checksum.
        expected: [u8; 4],
        /// The invalid checksum.
        actual: [u8; 4],
    },
    /// VarInt was encoded in a non-minimal way.
    NonMinimalVarInt,
    /// Network magic was unknown.
    UnknownNetworkMagic(u32),
    /// Parsing failed.
    ParseFailed(&'static str),
    /// Unsupported segwit flag.
    UnsupportedSegwitFlag(u8),
    /// Unrecognized network command.
    UnrecognizedNetworkCommand(String),
    /// Invalid inventory type.
    UnknownInventoryType(u32),
}

/// Two errors carry the same information. Text payloads are compared by
/// their character content, every other payload structurally.
pub open spec fn same_error(a: Error, b: Error) -> bool {
    match (a, b) {
        (Error::ParseFailed(x), Error::ParseFailed(y)) => x@ == y@,
        (Error::UnrecognizedNetworkCommand(x), Error::UnrecognizedNetworkCommand(y)) => x@ == y@,
        _ => a == b,
    }
}

/// The two hexadecimal digits of one byte.
pub open spec fn byte_hex(b: u8) -> Seq<char> {
    seq![
        crate::util::text::digit_char(b as int / 16),
        crate::util::text::digit_char(b as int % 16),
    ]
}

/// The hexadecimal rendering of a 4-byte checksum.
pub open spec fn checksum_hex(c: Seq<u8>) -> Seq<char>
    recommends
        c.len() == 4,
{
    byte_hex(c[0]) + byte_hex(c[1]) + byte_hex(c[2]) + byte_hex(c[3])
}

/// The diagnostic text of an error.
pub open spec fn error_text(e: Error) -> Seq<char> {
    match e {
        Error::Io(_) => "I/O error: unexpected end of data"@,
        Error::UnexpectedNetworkMagic { expected, actual } => "unexpected network magic: expected "@
            + dec_chars(expected as nat) + ", actual "@ + dec_chars(actual as nat),
        Error::OversizedVectorAllocation { requested, max } => "allocation of oversized vector: requested "@
            + dec_chars(requested as nat) + ", max "@ + dec_chars(max as nat),
        Error::InvalidChecksum { expected, actual } => "invalid checksum: expected "@
            + checksum_hex(expected@) + ", actual "@ + checksum_hex(actual@),
        Error::NonMinimalVarInt => "non-minimal varint"@,
        Error::UnknownNetworkMagic(m) => "unknown network magic: "@ + dec_chars(m as nat),
        Error::ParseFailed(m) => "parse failed: "@ + m@,
        Error::UnsupportedSegwitFlag(f) => "unsupported segwit version: "@ + dec_chars(f as nat),
        Error::UnrecognizedNetworkCommand(c) => "unrecognized network command: "@ + c@,
        Error::UnknownInventoryType(t) => "unknown inventory type: "@ + dec_chars(t as nat),
    }
}

impl Error {
    /// The diagnostic text of this error.
    pub fn message(&self) -> (r: String)
        ensures
            r@ == error_text(*self),
    {
        let mut s = String::new();
        match self {
            Error::Io(_) => {
                s.append("I/O error: unexpected end of data");
            },
            Error::UnexpectedNetworkMagic { expected, actual } => {
                s.append("unexpected network magic: expected ");
                push_dec_u64(&mut s, *expected as u64);
                s.append(", actual ");
                push_dec_u64(&mut s, *actual as u64);
            },
            Error::OversizedVectorAllocation { requested, max } => {
                s.append("allocation of oversized vector: requested ");
                push_dec_u64(&mut s, *requested as u64);
                s.append(", max ");
                push_dec_u64(&mut s, *max as u64);
            },
            Error::InvalidChecksum { expected, actual } => {
                s.append("invalid checksum: expected ");
                push_checksum_hex(&mut s, expected);
                s.append(", actual ");
                push_checksum_hex(&mut s, actual);
            },
            Error::NonMinimalVarInt => {
                s.append("non-minimal varint");
            },
            Error::UnknownNetworkMagic(m) => {
                s.append("unknown network magic: ");
                push_dec_u64(&mut s, *m as u64);
            },
            Error::ParseFailed(m) => {
                s.append("parse failed: ");
                s.append(m);
            },
            Error::UnsupportedSegwitFlag(f) => {
                s.append("unsupported segwit version: ");
                push_dec_u64(&mut s, *f as u64);
            },
            Error::UnrecognizedNetworkCommand(c) => {
                s.append("unrecognized network command: ");
                s.append(c.as_str());
            },
            Error::UnknownInventoryType(t) => {
                s.append("unknown inventory type: ");
                push_dec_u64(&mut s, *t as u64);
            },
        }
        s
    }
}

/// Append the hexadecimal rendering of a 4-byte checksum.
#[verifier::loop_isolation(false)]
fn push_checksum_hex(s: &mut String, c: &[u8; 4])
    ensures
        final(s)@ == old(s)@ + checksum_hex(c@),
{
    let mut i: usize = 0;
    while i < 4
        invariant
            i <= 4,
            s@ == old(s)@ + hex_prefix(c@, i as int),
        decreases 4 - i,
    {
        let b = *vstd::array::array_index_get(c, i);
        s.append(crate::util::text::digit_str(b / 16));
        s.append(crate::util::text::digit_str(b % 16));
        proof {
            assert(b == c@[i as int]);
            assert((b / 16) as int == b as int / 16);
            assert((b % 16) as int == b as int % 16);
            assert(byte_hex(c@[i as int]) =~= seq![
                crate::util::text::digit_char(b as int / 16),
            ] + seq![crate::util::text::digit_char(b as int % 16)]);
            assert(s@ =~= old(s)@ + hex_prefix(c@, i + 1));
        }
        i = i + 1;
    }
    proof {
        reveal_with_fuel(hex_prefix, 5);
        assert(hex_prefix(c@, 4) =~= checksum_hex(c@));
    }
}

/// The hexadecimal rendering of the first `n` bytes of a checksum.
pub open spec fn hex_prefix(c: Seq<u8>, n: int) -> Seq<char>
    decreases n,
{
    if n <= 0 {
        Seq::empty()
    } else {
        hex_prefix(c, n - 1) + byte_hex(c[n - 1])
    }
}

/// Maximum size, in bytes, of a vector we are allowed to decode.
pub const MAX_VEC_SIZE: usize = 4_000_000;

/// An in-memory byte source: a buffer together with a read position.
pub struct Cursor {
    /// The underlying buffer.
    pub data: Vec<u8>,
    /// The read position.
    pub pos: usize,
}

impl Cursor {
    /// The read position never passes the end of the buffer.
    pub open spec fn wf(&self) -> bool {
        self.pos <= self.data@.len()
    }

    /// The bytes not yet consumed.
    pub open spec fn remaining(&self) -> Seq<u8> {
        self.data@.skip(self.pos as int)
    }

    /// A fresh cursor over a copy of `data`, positioned at the start.
    pub fn new(data: &[u8]) -> (c: Cursor)
        ensures
            c.wf(),
            c.data@ == data@,
            c.pos == 0,
    {
        Cursor { data: vstd::slice::slice_to_vec(data), pos: 0 }
    }

    /// The current read position.
    pub fn position(&self) -> (r: usize)
        ensures
            r == self.pos,
    {
        self.pos
    }
}

/// Capabilities of a byte sink: emit fixed-width integers in little-endian
/// order, booleans as one byte, and raw byte runs. The in-memory sink never
/// fails, so every operation appends exactly its wire layout to the stream.
pub trait WriteExt {
    /// The bytes written to this sink so far.
    spec fn stream(&self) -> Seq<u8>;

    /// Output a 64-bit uint.
    fn emit_u64(&mut self, v: u64) -> (r: Result<(), Error>)
        requires
            old(self).stream().len() + 8 <= usize::MAX,
        ensures
            r is Ok,
            final(self).stream() == old(self).stream() + le_bytes(v as nat, 8),
    ;

    /// Output a 32-bit uint.
    fn emit_u32(&mut self, v: u32) -> (r: Result<(), Error>)
        requires
            old(self).stream().len() + 4 <= usize::MAX,
        ensures
            r is Ok,
            final(self).stream() == old(self).stream() + le_bytes(v as nat, 4),
    ;

    /// Output a 16-bit uint.
    fn emit_u16(&mut self, v: u16) -> (r: Result<(), Error>)
        requires
            old(self).stream().len() + 2 <= usize::MAX,
        ensures
            r is Ok,
            final(self).stream() == old(self).stream() + le_bytes(v as nat, 2),
    ;

    /// Output an 8-bit uint.
    fn emit_u8(&mut self, v: u8) -> (r: Result<(), Error>)
        requires
            old(self).stream().len() + 1 <= usize::MAX,
        ensures
            r is Ok,
            final(self).stream() == old(self).stream() + seq![v],
    ;

    /// Output a 64-bit int.
    fn emit_i64(&mut self, v: i64) -> (r: Result<(), Error>)
        requires
            old(self).stream().len() + 8 <= usize::MAX,
        ensures
            r is Ok,
            final(self).stream() == old(self).stream() + le_bytes((v as u64) as nat, 8),
    ;

    /// Output a 32-bit int.
    fn emit_i32(&mut self, v: i32) -> (r: Result<(), Error>)
        requires
            old(self).stream().len() + 4 <= usize::MAX,
        ensures
            r is Ok,
            final(self).stream() == old(self).stream() + le_bytes((v as u32) as nat, 4),
    ;

    /// Output a 16-bit int.
    fn emit_i16(&mut self, v: i16) -> (r: Result<(), Error>)
        requires
            old(self).stream().len() + 2 <= usize::MAX,
        ensures
            r is Ok,
            final(self).stream() == old(self).stream() + le_bytes((v as u16) as nat, 2),
    ;

    /// Output an 8-bit int.
    fn emit_i8(&mut self, v: i8) -> (r: Result<(), Error>)
        requires
            old(self).stream().len() + 1 <= usize::MAX,
        ensures
            r is Ok,
            final(self).stream() == old(self).stream() + seq![v as u8],
    ;

    /// Output a boolean as a single byte: `1` for true, `0` for false.
    fn emit_bool(&mut self, v: bool) -> (r: Result<(), Error>)
        requires
            old(self).stream().len() + 1 <= usize::MAX,
        ensures
            r is Ok,
            final(self).stream() == old(self).stream() + seq![
                if v {
                    1u8
                } else {
                    0u8
                },
            ],
    ;

    /// Output a byte slice as-is.
    fn emit_slice(&mut self, v: &[u8]) -> (r: Result<(), Error>)
        requires
            old(self).stream().len() + v@.len() <= usize::MAX,
        ensures
            r is Ok,
            final(self).stream() == old(self).stream() + v@,
    ;
}

impl WriteExt for Vec<u8> {
    open spec fn stream(&self) -> Seq<u8> {
        self@
    }

    fn emit_u64(&mut self, v: u64) -> (r: Result<(), Error>) {
        let a = u64_to_array_le(v);
        self.extend_from_slice(a.as_slice());
        Ok(())
    }

    fn emit_u32(&mut self, v: u32) -> (r: Result<(), Error>) {
        let a = u32_to_array_le(v);
        self.extend_from_slice(a.as_slice());
        Ok(())
    }

    fn emit_u16(&mut self, v: u16) -> (r: Result<(), Error>) {
        let a = u16_to_array_le(v);
        self.extend_from_slice(a.as_slice());
        Ok(())
    }

    fn emit_u8(&mut self, v: u8) -> (r: Result<(), Error>) {
        self.push(v);
        Ok(())
    }

    fn emit_i64(&mut self, v: i64) -> (r: Result<(), Error>) {
        self.emit_u64(v as u64)
    }

    fn emit_i32(&mut self, v: i32) -> (r: Result<(), Error>) {
        self.emit_u32(v as u32)
    }

    fn emit_i16(&mut self, v: i16) -> (r: Result<(), Error>) {
        self.emit_u16(v as u16)
    }

    fn emit_i8(&mut self, v: i8) -> (r: Result<(), Error>) {
        self.push(v as u8);
        Ok(())
    }

    fn emit_bool(&mut self, v: bool) -> (r: Result<(), Error>) {
        self.push(if v { 1 } else { 0 });
        Ok(())
    }

    fn emit_slice(&mut self, v: &[u8]) -> (r: Result<(), Error>) {
        self.extend_from_slice(v);
        Ok(())
    }
}

/// Capabilities of a byte source: read fixed-width little-endian integers,
/// booleans, and raw byte runs. Reading past the end of the source fails
/// with [`Error::Io`] and consumes nothing.
pub trait ReadExt {
    /// The whole underlying buffer.
    spec fn source(&self) -> Seq<u8>;

    /// How many bytes have been consumed so far.
    spec fn consumed(&self) -> int;

    /// The read position never passes the end of the buffer.
    spec fn wf(&self) -> bool;

    /// Read a 64-bit uint.
    fn read_u64(&mut self) -> (r: Result<u64, Error>)
        requires
            old(self).wf(),
        ensures
            final(self).wf(),
            final(self).source() == old(self).source(),
            old(self).consumed() + 8 <= old(self).source().len() ==> (r matches Ok(v) && v
                == le_value(old(self).source().subrange(old(self).consumed(), old(self).consumed() + 8))
                && final(self).consumed() == old(self).consumed() + 8),
            old(self).consumed() + 8 > old(self).source().len() ==> (r == Result::<u64, Error>::Err(
                Error::Io(IoError::UnexpectedEof),
            ) && final(self).consumed() == old(self).consumed()),
    ;

    /// Read a 32-bit uint.
    fn read_u32(&mut self) -> (r: Result<u32, Error>)
        requires
            old(self).wf(),
        ensures
            final(self).wf(),
            final(self).source() == old(self).source(),
            old(self).consumed() + 4 <= old(self).source().len() ==> (r matches Ok(v) && v
                == le_value(old(self).source().subrange(old(self).consumed(), old(self).consumed() + 4))
                && final(self).consumed() == old(self).consumed() + 4),
            old(self).consumed() + 4 > old(self).source().len() ==> (r == Result::<u32, Error>::Err(
                Error::Io(IoError::UnexpectedEof),
            ) && final(self).consumed() == old(self).consumed()),
    ;

    /// Read a 16-bit uint.
    fn read_u16(&mut self) -> (r: Result<u16, Error>)
        requires
            old(self).wf(),
        ensures
            final(self).wf(),
            final(self).source() == old(self).source(),
            old(self).consumed() + 2 <= old(self).source().len() ==> (r matches Ok(v) && v
                == le_value(old(self).source().subrange(old(self).consumed(), old(self).consumed() + 2))
                && final(self).consumed() == old(self).consumed() + 2),
            old(self).consumed() + 2 > old(self).source().len() ==> (r == Result::<u16, Error>::Err(
                Error::Io(IoError::UnexpectedEof),
            ) && final(self).consumed() == old(self).consumed()),
    ;

    /// Read an 8-bit uint.
    fn read_u8(&mut self) -> (r: Result<u8, Error>)
        requires
            old(self).wf(),
        ensures
            final(self).wf(),
            final(self).source() == old(self).source(),
            old(self).consumed() + 1 <= old(self).source().len() ==> (r matches Ok(v) && v
                == old(self).source()[old(self).consumed()] && final(self).consumed() == old(
                self,
            ).consumed() + 1),
            old(self).consumed() + 1 > old(self).source().len() ==> (r == Result::<u8, Error>::Err(
                Error::Io(IoError::UnexpectedEof),
            ) && final(self).consumed() == old(self).consumed()),
    ;

    /// Read a 64-bit int.
    fn read_i64(&mut self) -> (r: Result<i64, Error>)
        requires
            old(self).wf(),
        ensures
            final(self).wf(),
            final(self).source() == old(self).source(),
            old(self).consumed() + 8 <= old(self).source().len() ==> (r matches Ok(v) && v
                == le_value(old(self).source().subrange(old(self).consumed(), old(self).consumed() + 8))
                as u64 as i64 && final(self).consumed() == old(self).consumed() + 8),
            old(self).consumed() + 8 > old(self).source().len() ==> (r == Result::<i64, Error>::Err(
                Error::Io(IoError::UnexpectedEof),
            ) && final(self).consumed() == old(self).consumed()),
    ;

    /// Read a 32-bit int.
    fn read_i32(&mut self) -> (r: Result<i32, Error>)
        requires
            old(self).wf(),
        ensures
            final(self).wf(),
            final(self).source() == old(self).source(),
            old(self).consumed() + 4 <= old(self).source().len() ==> (r matches Ok(v) && v
                == le_value(old(self).source().subrange(old(self).consumed(), old(self).consumed() + 4))
                as u32 as i32 && final(self).consumed() == old(self).consumed() + 4),
            old(self).consumed() + 4 > old(self).source().len() ==> (r == Result::<i32, Error>::Err(
                Error::Io(IoError::UnexpectedEof),
            ) && final(self).consumed() == old(self).consumed()),
    ;

    /// Read a 16-bit int.
    fn read_i16(&mut self) -> (r: Result<i16, Error>)
        requires
            old(self).wf(),
        ensures
            final(self).wf(),
            final(self).source() == old(self).source(),
            old(self).consumed() + 2 <= old(self).source().len() ==> (r matches Ok(v) && v
                == le_value(old(self).source().subrange(old(self).consumed(), old(self).consumed() + 2))
                as u16 as i16 && final(self).consumed() == old(self).consumed() + 2),
            old(self).consumed() + 2 > old(self).source().len() ==> (r == Result::<i16, Error>::Err(
                Error::Io(IoError::UnexpectedEof),
            ) && final(self).consumed() == old(self).consumed()),
    ;

    /// Read an 8-bit int.
    fn read_i8(&mut self) -> (r: Result<i8, Error>)
        requires
            old(self).wf(),
        ensures
            final(self).wf(),
            final(self).source() == old(self).source(),
            old(self).consumed() + 1 <= old(self).source().len() ==> (r matches Ok(v) && v == old(
                self,
            ).source()[old(self).consumed()] as i8 && final(self).consumed() == old(self).consumed()
                + 1),
            old(self).consumed() + 1 > old(self).source().len() ==> (r == Result::<i8, Error>::Err(
                Error::Io(IoError::UnexpectedEof),
            ) && final(self).consumed() == old(self).consumed()),
    ;

    /// Read a boolean: any nonzero byte is true.
    fn read_bool(&mut self) -> (r: Result<bool, Error>)
        requires
            old(self).wf(),
        ensures
            final(self).wf(),
            final(self).source() == old(self).source(),
            old(self).consumed() + 1 <= old(self).source().len() ==> (r matches Ok(v) && v == (old(
                self,
            ).source()[old(self).consumed()] != 0) && final(self).consumed() == old(self).consumed()
                + 1),
            old(self).consumed() + 1 > old(self).source().len() ==> (r == Result::<
                bool,
                Error,
            >::Err(Error::Io(IoError::UnexpectedEof)) && final(self).consumed() == old(
                self,
            ).consumed()),
    ;

    /// Read exactly `len` bytes into a fresh buffer.
    fn read_slice(&mut self, len: usize) -> (r: Result<Vec<u8>, Error>)
        requires
            old(self).wf(),
        ensures
            final(self).wf(),
            final(self).source() == old(self).source(),
            old(self).consumed() + len <= old(self).source().len() ==> (r matches Ok(v) && v@
                == old(self).source().subrange(
                old(self).consumed(),
                old(self).consumed() + len,
            ) && final(self).consumed() == old(self).consumed() + len),
            old(self).consumed() + len > old(self).source().len() ==> (r == Result::<
                Vec<u8>,
                Error,
            >::Err(Error::Io(IoError::UnexpectedEof)) && final(self).consumed() == old(
                self,
            ).consumed()),
    ;
}

impl ReadExt for Cursor {
    open spec fn source(&self) -> Seq<u8> {
        self.data@
    }

    open spec fn consumed(&self) -> int {
        self.pos as int
    }

    open spec fn wf(&self) -> bool {
        0 <= self.consumed() <= self.source().len()
    }

    fn read_u64(&mut self) -> (r: Result<u64, Error>) {
        match self.read_slice(8) {
            Ok(v) => Ok(slice_to_u64_le(v.as_slice())),
            Err(e) => Err(e),
        }
    }

    fn read_u32(&mut self) -> (r: Result<u32, Error>) {
        match self.read_slice(4) {
            Ok(v) => Ok(slice_to_u32_le(v.as_slice())),
            Err(e) => Err(e),
        }
    }

    fn read_u16(&mut self) -> (r: Result<u16, Error>) {
        match self.read_slice(2) {
            Ok(v) => Ok(slice_to_u16_le(v.as_slice())),
            Err(e) => Err(e),
        }
    }

    fn read_u8(&mut self) -> (r: Result<u8, Error>) {
        if self.pos < self.data.len() {
            let b = self.data[self.pos];
            self.pos = self.pos + 1;
            Ok(b)
        } else {
            Err(Error::Io(IoError::UnexpectedEof))
        }
    }

    fn read_i64(&mut self) -> (r: Result<i64, Error>) {
        match self.read_u64() {
            Ok(v) => Ok(v as i64),
            Err(e) => Err(e),
        }
    }

    fn read_i32(&mut self) -> (r: Result<i32, Error>) {
        match self.read_u32() {
            Ok(v) => Ok(v as i32),
            Err(e) => Err(e),
        }
    }

    fn read_i16(&mut self) -> (r: Result<i16, Error>) {
        match self.read_u16() {
            Ok(v) => Ok(v as i16),
            Err(e) => Err(e),
        }
    }

    fn read_i8(&mut self) -> (r: Result<i8, Error>) {
        match self.read_u8() {
            Ok(v) => Ok(v as i8),
            Err(e) => Err(e),
        }
    }

    fn read_bool(&mut self) -> (r: Result<bool, Error>) {
        match self.read_u8() {
            Ok(v) => Ok(v != 0),
            Err(e) => Err(e),
        }
    }

    fn read_slice(&mut self, len: usize) -> (r: Result<Vec<u8>, Error>) {
        if len <= self.data.len() - self.pos {
            let s = vstd::slice::slice_subrange(self.data.as_slice(), self.pos, self.pos + len);
            let v = vstd::slice::slice_to_vec(s);
            self.pos = self.pos + len;
            Ok(v)
        } else {
            Err(Error::Io(IoError::UnexpectedEof))
        }
    }
}

/// Data which can be encoded in a consensus-consistent way.
///
/// The spec function [`Encodable::encoding`] is the canonical wire byte
/// sequence of a value; `consensus_encode` appends exactly those bytes.
pub trait Encodable {
    /// The canonical wire bytes of this value.
    spec fn encoding(&self) -> Seq<u8>;

    /// Whether this value can be encoded. Almost every type can always be
    /// encoded; a command string longer than its fixed budget cannot.
    spec fn encodable(&self) -> bool;

    /// The error reported when the value cannot be encoded; meaningful only
    /// for types where `encodable` can be false.
    spec fn enc_error(&self) -> Error;

    /// Encode the value, appending its wire bytes to `s` and returning how
    /// many bytes were written.
    fn consensus_encode(&self, s: &mut Vec<u8>) -> (r: Result<usize, Error>)
        requires
            old(s)@.len() + self.encoding().len() <= usize::MAX,
        ensures
            self.encodable() ==> (r matches Ok(n) && final(s)@ == old(s)@ + self.encoding() && n
                == self.encoding().len()),
            !self.encodable() ==> (r matches Err(e) && same_error(e, self.enc_error()) && final(s)@
                == old(s)@),
    ;
}

/// Data which can be decoded in a consensus-consistent way.
///
/// The spec function [`Decodable::decode_spec`] is the whole decoder: on any
/// byte sequence it gives either the decoded value (as its mathematical
/// `deep_view`) with the exact number of bytes consumed, or the error that
/// rejecting the input produces.
pub trait Decodable: Sized + DeepView {
    /// What decoding yields on `data`: the value and the number of bytes
    /// consumed, or the rejection error.
    spec fn decode_spec(data: Seq<u8>) -> Result<(Self::V, int), Error>;

    /// A successful decode consumes between zero and all of the input bytes.
    proof fn lemma_decode_consumes(data: Seq<u8>)
        ensures
            match Self::decode_spec(data) {
                Ok(p) => 0 <= p.1 <= data.len(),
                Err(_) => true,
            },
    ;

    /// Decode one value from the cursor, advancing it by exactly the bytes
    /// the value occupies on the wire.
    fn consensus_decode(d: &mut Cursor) -> (r: Result<Self, Error>)
        requires
            old(d).wf(),
        ensures
            final(d).wf(),
            final(d).data@ == old(d).data@,
            match Self::decode_spec(old(d).remaining()) {
                Ok(p) => r matches Ok(v) && v.deep_view() == p.0 && final(d).pos == old(d).pos
                    + p.1,
                Err(e) => (r matches Err(e2) && same_error(e2, e)) && final(d).pos >= old(d).pos,
            },
    ;
}

/// A variable-length unsigned integer: one of four length classes chosen by
/// magnitude, always the minimal class able to represent the value.
#[derive(PartialEq, Eq, PartialOrd, Ord, Clone, Debug, Structural)]
pub struct VarInt(pub u64);

impl DeepView for VarInt {
    type V = VarInt;

    open spec fn deep_view(&self) -> VarInt {
        *self
    }
}

/// The wire bytes of a variable-length integer: the value itself in one byte
/// below `0xFD`, else a marker byte `0xFD`/`0xFE`/`0xFF` followed by the
/// value in the smallest of 2, 4 or 8 little-endian bytes that holds it.
pub open spec fn varint_bytes(v: u64) -> Seq<u8> {
    if v <= 0xFC {
        seq![v as u8]
    } else if v <= 0xFFFF {
        seq![0xFDu8] + le_bytes(v as nat, 2)
    } else if v <= 0xFFFFFFFF {
        seq![0xFEu8] + le_bytes(v as nat, 4)
    } else {
        seq![0xFFu8] + le_bytes(v as nat, 8)
    }
}

/// A variable-length integer encoding is 1, 3, 5 or 9 bytes wide.
pub proof fn lemma_varint_bytes_len(v: u64)
    ensures
        varint_bytes(v).len() == if v <= 0xFC {
            1int
        } else if v <= 0xFFFF {
            3int
        } else if v <= 0xFFFFFFFF {
            5int
        } else {
            9int
        },
{
    lemma_le_bytes_len(v as nat, 2);
    lemma_le_bytes_len(v as nat, 4);
    lemma_le_bytes_len(v as nat, 8);
}

impl VarInt {
    /// The width of this value's encoding: 1 byte up to `0xFC`, 3 bytes up
    /// to `0xFFFF`, 5 bytes up to `0xFFFFFFFF`, and 9 bytes otherwise.
    pub fn len(&self) -> (r: usize)
        ensures
            r == self.encoding().len(),
    {
        proof {
            lemma_varint_bytes_len(self.0);
        }
        if self.0 <= 0xFC {
            1
        } else if self.0 <= 0xFFFF {
            3
        } else if self.0 <= 0xFFFFFFFF {
            5
        } else {
            9
        }
    }
}

impl Encodable for VarInt {
    open spec fn encoding(&self) -> Seq<u8> {
        varint_bytes(self.0)
    }

    open spec fn encodable(&self) -> bool {
        true
    }

    open spec fn enc_error(&self) -> Error {
        Error::NonMinimalVarInt
    }

    fn consensus_encode(&self, s: &mut Vec<u8>) -> (r: Result<usize, Error>) {
        proof {
            lemma_varint_bytes_len(self.0);
        }
        if self.0 <= 0xFC {
            s.emit_u8(self.0 as u8)?;
            Ok(1)
        } else if self.0 <= 0xFFFF {
            let ghost s0 = s@;
            s.emit_u8(0xFD)?;
            s.emit_u16(self.0 as u16)?;
            proof {
                assert(s@ =~= s0 + self.encoding());
            }
            Ok(3)
        } else if self.0 <= 0xFFFFFFFF {
            let ghost s0 = s@;
            s.emit_u8(0xFE)?;
            s.emit_u32(self.0 as u32)?;
            proof {
                assert(s@ =~= s0 + self.encoding());
            }
            Ok(5)
        } else {
            let ghost s0 = s@;
            s.emit_u8(0xFF)?;
            s.emit_u64(self.0)?;
            proof {
                assert(s@ =~= s0 + self.encoding());
            }
            Ok(9)
        }
    }
}

/// What decoding a variable-length integer yields on the given bytes:
/// the value and bytes consumed, or the rejection error. A payload that
/// does not exceed the previous length class's maximum is non-minimal
/// and rejected.
pub open spec fn varint_decode(data: Seq<u8>) -> Result<(VarInt, int), Error> {
    if data.len() < 1 {
            Err(Error::Io(IoError::UnexpectedEof))
        } else if data[0] == 0xFF {
            if data.len() < 9 {
                Err(Error::Io(IoError::UnexpectedEof))
            } else {
                let x = le_value(data.subrange(1, 9));
                if x < 0x100000000 {
                    Err(Error::NonMinimalVarInt)
                } else {
                    Ok((VarInt(x as u64), 9))
                }
            }
        } else if data[0] == 0xFE {
            if data.len() < 5 {
                Err(Error::Io(IoError::UnexpectedEof))
            } else {
                let x = le_value(data.subrange(1, 5));
                if x < 0x10000 {
                    Err(Error::NonMinimalVarInt)
                } else {
                    Ok((VarInt(x as u64), 5))
                }
            }
        } else if data[0] == 0xFD {
            if data.len() < 3 {
                Err(Error::Io(IoError::UnexpectedEof))
            } else {
                let x = le_value(data.subrange(1, 3));
                if x < 0xFD {
                    Err(Error::NonMinimalVarInt)
                } else {
                    Ok((VarInt(x as u64), 3))
                }
            }
    } else {
        Ok((VarInt(data[0] as u64), 1))
    }
}

impl Decodable for VarInt {
    open spec fn decode_spec(data: Seq<u8>) -> Result<(VarInt, int), Error> {
        varint_decode(data)
    }

    proof fn lemma_decode_consumes(data: Seq<u8>) {
    }

    fn consensus_decode(d: &mut Cursor) -> (r: Result<VarInt, Error>) {
        let ghost rem = old(d).remaining();
        let n = d.read_u8()?;
        assert(rem.len() >= 1 && n == rem[0]);
        match n {
            0xFF => {
                let ghost mid = d.pos as int;
                match d.read_u64() {
                    Ok(x) => {
                        proof {
                            lemma_le_value_bound(rem.subrange(1, 9));
                            lemma_pow256_values();
                            assert(d.data@.subrange(mid, mid + 8) =~= rem.subrange(1, 9));
                        }
                        if x < 0x100000000 {
                            Err(Error::NonMinimalVarInt)
                        } else {
                            Ok(VarInt(x))
                        }
                    },
                    Err(e) => Err(e),
                }
            },
            0xFE => {
                let ghost mid = d.pos as int;
                match d.read_u32() {
                    Ok(x) => {
                        proof {
                            lemma_le_value_bound(rem.subrange(1, 5));
                            lemma_pow256_values();
                            assert(d.data@.subrange(mid, mid + 4) =~= rem.subrange(1, 5));
                        }
                        if x < 0x10000 {
                            Err(Error::NonMinimalVarInt)
                        } else {
                            Ok(VarInt(x as u64))
                        }
                    },
                    Err(e) => Err(e),
                }
            },
            0xFD => {
                let ghost mid = d.pos as int;
                match d.read_u16() {
                    Ok(x) => {
                        proof {
                            lemma_le_value_bound(rem.subrange(1, 3));
                            lemma_pow256_values();
                            assert(d.data@.subrange(mid, mid + 2) =~= rem.subrange(1, 3));
                        }
                        if x < 0xFD {
                            Err(Error::NonMinimalVarInt)
                        } else {
                            Ok(VarInt(x as u64))
                        }
                    },
                    Err(e) => Err(e),
                }
            },
            n => Ok(VarInt(n as u64)),
        }
    }
}

impl Encodable for u8 {
    open spec fn encoding(&self) -> Seq<u8> {
        seq![*self]
    }

    open spec fn encodable(&self) -> bool {
        true
    }

    open spec fn enc_error(&self) -> Error {
        Error::NonMinimalVarInt
    }

    fn consensus_encode(&self, s: &mut Vec<u8>) -> (r: Result<usize, Error>) {
        s.emit_u8(*self)?;
        Ok(1)
    }
}

impl Decodable for u8 {
    open spec fn decode_spec(data: Seq<u8>) -> Result<(u8, int), Error> {
        if data.len() < 1 {
            Err(Error::Io(IoError::UnexpectedEof))
        } else {
            Ok((data[0], 1))
        }
    }

    proof fn lemma_decode_consumes(data: Seq<u8>) {
    }

    fn consensus_decode(d: &mut Cursor) -> (r: Result<u8, Error>) {
        d.read_u8()
    }
}

impl Encodable for u16 {
    open spec fn encoding(&self) -> Seq<u8> {
        le_bytes(*self as nat, 2)
    }

    open spec fn encodable(&self) -> bool {
        true
    }

    open spec fn enc_error(&self) -> Error {
        Error::NonMinimalVarInt
    }

    fn consensus_encode(&self, s: &mut Vec<u8>) -> (r: Result<usize, Error>) {
        proof {
            lemma_le_bytes_len(*self as nat, 2);
        }
        s.emit_u16(*self)?;
        Ok(2)
    }
}

/// What decoding a 16-bit little-endian integer yields on the given bytes.
pub open spec fn u16_dec(data: Seq<u8>) -> Result<(u16, int), Error> {
    if data.len() < 2 {
        Err(Error::Io(IoError::UnexpectedEof))
    } else {
        Ok((le_value(data.take(2)) as u16, 2))
    }
}

impl Decodable for u16 {
    open spec fn decode_spec(data: Seq<u8>) -> Result<(u16, int), Error> {
        u16_dec(data)
    }

    proof fn lemma_decode_consumes(data: Seq<u8>) {
    }

    fn consensus_decode(d: &mut Cursor) -> (r: Result<u16, Error>) {
        let ghost rem = old(d).remaining();
        let ghost c = d.pos as int;
        let r = d.read_u16();
        proof {
            if rem.len() >= 2 {
                assert(old(d).data@.subrange(c, c + 2) =~= rem.take(2));
            }
        }
        r
    }
}

impl Encodable for u32 {
    open spec fn encoding(&self) -> Seq<u8> {
        le_bytes(*self as nat, 4)
    }

    open spec fn encodable(&self) -> bool {
        true
    }

    open spec fn enc_error(&self) -> Error {
        Error::NonMinimalVarInt
    }

    fn consensus_encode(&self, s: &mut Vec<u8>) -> (r: Result<usize, Error>) {
        proof {
            lemma_le_bytes_len(*self as nat, 4);
        }
        s.emit_u32(*self)?;
        Ok(4)
    }
}

/// What decoding a 32-bit little-endian integer yields on the given bytes.
pub open spec fn u32_dec(data: Seq<u8>) -> Result<(u32, int), Error> {
    if data.len() < 4 {
        Err(Error::Io(IoError::UnexpectedEof))
    } else {
        Ok((le_value(data.take(4)) as u32, 4))
    }
}

impl Decodable for u32 {
    open spec fn decode_spec(data: Seq<u8>) -> Result<(u32, int), Error> {
        u32_dec(data)
    }

    proof fn lemma_decode_consumes(data: Seq<u8>) {
    }

    fn consensus_decode(d: &mut Cursor) -> (r: Result<u32, Error>) {
        let ghost rem = old(d).remaining();
        let ghost c = d.pos as int;
        let r = d.read_u32();
        proof {
            if rem.len() >= 4 {
                assert(old(d).data@.subrange(c, c + 4) =~= rem.take(4));
            }
        }
        r
    }
}

impl Encodable for u64 {
    open spec fn encoding(&self) -> Seq<u8> {
        le_bytes(*self as nat, 8)
    }

    open spec fn encodable(&self) -> bool {
        true
    }

    open spec fn enc_error(&self) -> Error {
        Error::NonMinimalVarInt
    }

    fn consensus_encode(&self, s: &mut Vec<u8>) -> (r: Result<usize, Error>) {
        proof {
            lemma_le_bytes_len(*self as nat, 8);
        }
        s.emit_u64(*self)?;
        Ok(8)
    }
}

/// What decoding a 64-bit little-endian integer yields on the given bytes.
pub open spec fn u64_dec(data: Seq<u8>) -> Result<(u64, int), Error> {
    if data.len() < 8 {
        Err(Error::Io(IoError::UnexpectedEof))
    } else {
        Ok((le_value(data.take(8)) as u64, 8))
    }
}

impl Decodable for u64 {
    open spec fn decode_spec(data: Seq<u8>) -> Result<(u64, int), Error> {
        u64_dec(data)
    }

    proof fn lemma_decode_consumes(data: Seq<u8>) {
    }

    fn consensus_decode(d: &mut Cursor) -> (r: Result<u64, Error>) {
        let ghost rem = old(d).remaining();
        let ghost c = d.pos as int;
        let r = d.read_u64();
        proof {
            if rem.len() >= 8 {
                assert(old(d).data@.subrange(c, c + 8) =~= rem.take(8));
            }
        }
        r
    }
}

impl Encodable for i8 {
    open spec fn encoding(&self) -> Seq<u8> {
        seq![*self as u8]
    }

    open spec fn encodable(&self) -> bool {
        true
    }

    open spec fn enc_error(&self) -> Error {
        Error::NonMinimalVarInt
    }

    fn consensus_encode(&self, s: &mut Vec<u8>) -> (r: Result<usize, Error>) {
        s.emit_i8(*self)?;
        Ok(1)
    }
}

impl Decodable for i8 {
    open spec fn decode_spec(data: Seq<u8>) -> Result<(i8, int), Error> {
        if data.len() < 1 {
            Err(Error::Io(IoError::UnexpectedEof))
        } else {
            Ok((data[0] as i8, 1))
        }
    }

    proof fn lemma_decode_consumes(data: Seq<u8>) {
    }

    fn consensus_decode(d: &mut Cursor) -> (r: Result<i8, Error>) {
        d.read_i8()
    }
}

impl Encodable for i16 {
    open spec fn encoding(&self) -> Seq<u8> {
        le_bytes((*self as u16) as nat, 2)
    }

    open spec fn encodable(&self) -> bool {
        true
    }

    open spec fn enc_error(&self) -> Error {
        Error::NonMinimalVarInt
    }

    fn consensus_encode(&self, s: &mut Vec<u8>) -> (r: Result<usize, Error>) {
        proof {
            lemma_le_bytes_len((*self as u16) as nat, 2);
        }
        s.emit_i16(*self)?;
        Ok(2)
    }
}

impl Decodable for i16 {
    open spec fn decode_spec(data: Seq<u8>) -> Result<(i16, int), Error> {
        if data.len() < 2 {
            Err(Error::Io(IoError::UnexpectedEof))
        } else {
            Ok((le_value(data.take(2)) as u16 as i16, 2))
        }
    }

    proof fn lemma_decode_consumes(data: Seq<u8>) {
    }

    fn consensus_decode(d: &mut Cursor) -> (r: Result<i16, Error>) {
        let ghost rem = old(d).remaining();
        let ghost c = d.pos as int;
        let r = d.read_i16();
        proof {
            if rem.len() >= 2 {
                assert(old(d).data@.subrange(c, c + 2) =~= rem.take(2));
            }
        }
        r
    }
}

impl Encodable for i32 {
    open spec fn encoding(&self) -> Seq<u8> {
        le_bytes((*self as u32) as nat, 4)
    }

    open spec fn encodable(&self) -> bool {
        true
    }

    open spec fn enc_error(&self) -> Error {
        Error::NonMinimalVarInt
    }

    fn consensus_encode(&self, s: &mut Vec<u8>) -> (r: Result<usize, Error>) {
        proof {
            lemma_le_bytes_len((*self as u32) as nat, 4);
        }
        s.emit_i32(*self)?;
        Ok(4)
    }
}

/// What decoding a signed 32-bit little-endian integer yields.
pub open spec fn i32_dec(data: Seq<u8>) -> Result<(i32, int), Error> {
    if data.len() < 4 {
        Err(Error::Io(IoError::UnexpectedEof))
    } else {
        Ok((le_value(data.take(4)) as u32 as i32, 4))
    }
}

impl Decodable for i32 {
    open spec fn decode_spec(data: Seq<u8>) -> Result<(i32, int), Error> {
        i32_dec(data)
    }

    proof fn lemma_decode_consumes(data: Seq<u8>) {
    }

    fn consensus_decode(d: &mut Cursor) -> (r: Result<i32, Error>) {
        let ghost rem = old(d).remaining();
        let ghost c = d.pos as int;
        let r = d.read_i32();
        proof {
            if rem.len() >= 4 {
                assert(old(d).data@.subrange(c, c + 4) =~= rem.take(4));
            }
        }
        r
    }
}

impl Encodable for i64 {
    open spec fn encoding(&self) -> Seq<u8> {
        le_bytes((*self as u64) as nat, 8)
    }

    open spec fn encodable(&self) -> bool {
        true
    }

    open spec fn enc_error(&self) -> Error {
        Error::NonMinimalVarInt
    }

    fn consensus_encode(&self, s: &mut Vec<u8>) -> (r: Result<usize, Error>) {
        proof {
            lemma_le_bytes_len((*self as u64) as nat, 8);
        }
        s.emit_i64(*self)?;
        Ok(8)
    }
}

/// What decoding a signed 64-bit little-endian integer yields.
pub open spec fn i64_dec(data: Seq<u8>) -> Result<(i64, int), Error> {
    if data.len() < 8 {
        Err(Error::Io(IoError::UnexpectedEof))
    } else {
        Ok((le_value(data.take(8)) as u64 as i64, 8))
    }
}

impl Decodable for i64 {
    open spec fn decode_spec(data: Seq<u8>) -> Result<(i64, int), Error> {
        i64_dec(data)
    }

    proof fn lemma_decode_consumes(data: Seq<u8>) {
    }

    fn consensus_decode(d: &mut Cursor) -> (r: Result<i64, Error>) {
        let ghost rem = old(d).remaining();
        let ghost c = d.pos as int;
        let r = d.read_i64();
        proof {
            if rem.len() >= 8 {
                assert(old(d).data@.subrange(c, c + 8) =~= rem.take(8));
            }
        }
        r
    }
}

impl Encodable for bool {
    open spec fn encoding(&self) -> Seq<u8> {
        seq![
            if *self {
                1u8
            } else {
                0u8
            },
        ]
    }

    open spec fn encodable(&self) -> bool {
        true
    }

    open spec fn enc_error(&self) -> Error {
        Error::NonMinimalVarInt
    }

    fn consensus_encode(&self, s: &mut Vec<u8>) -> (r: Result<usize, Error>) {
        s.emit_u8(if *self {
            1
        } else {
            0
        })?;
        Ok(1)
    }
}

/// What decoding a boolean yields: any nonzero byte is true.
pub open spec fn bool_dec(data: Seq<u8>) -> Result<(bool, int), Error> {
    if data.len() < 1 {
        Err(Error::Io(IoError::UnexpectedEof))
    } else {
        Ok(((data[0] != 0), 1))
    }
}

impl Decodable for bool {
    open spec fn decode_spec(data: Seq<u8>) -> Result<(bool, int), Error> {
        bool_dec(data)
    }

    proof fn lemma_decode_consumes(data: Seq<u8>) {
    }

    fn consensus_decode(d: &mut Cursor) -> (r: Result<bool, Error>) {
        match d.read_u8() {
            Ok(n) => Ok(n != 0),
            Err(e) => Err(e),
        }
    }
}

/// Encode an object into a byte vector holding exactly its wire bytes.
pub fn serialize<T: Encodable>(data: &T) -> (r: Vec<u8>)
    requires
        data.encodable(),
        data.encoding().len() <= usize::MAX,
    ensures
        r@ == data.encoding(),
{
    let mut encoder: Vec<u8> = Vec::new();
    let res = data.consensus_encode(&mut encoder);
    proof {
        assert(encoder@ =~= data.encoding());
    }
    encoder
}

/// Deserialize an object from a byte buffer; it is an error if the decoder
/// does not consume the whole buffer.
pub fn deserialize<T: Decodable>(data: &[u8]) -> (r: Result<T, Error>)
    ensures
        match T::decode_spec(data@) {
            Ok(p) => if p.1 == data@.len() {
                r matches Ok(v) && v.deep_view() == p.0
            } else {
                r matches Err(e) && same_error(
                    e,
                    Error::ParseFailed("data not consumed entirely when explicitly deserializing"),
                )
            },
            Err(e) => r matches Err(e2) && same_error(e2, e),
        },
{
    match deserialize_partial::<T>(data) {
        Ok((rv, consumed)) => {
            if consumed == data.len() {
                Ok(rv)
            } else {
                Err(Error::ParseFailed("data not consumed entirely when explicitly deserializing"))
            }
        },
        Err(e) => Err(e),
    }
}

/// Deserialize an object from the front of a byte buffer, returning the
/// value together with the number of bytes consumed.
pub fn deserialize_partial<T: Decodable>(data: &[u8]) -> (r: Result<(T, usize), Error>)
    ensures
        match T::decode_spec(data@) {
            Ok(p) => r matches Ok(pair) && pair.0.deep_view() == p.0 && pair.1 == p.1,
            Err(e) => r matches Err(e2) && same_error(e2, e),
        },
{
    let mut decoder = Cursor::new(data);
    proof {
        assert(decoder.remaining() =~= data@);
    }
    match T::consensus_decode(&mut decoder) {
        Ok(rv) => {
            let consumed = decoder.position();
            Ok((rv, consumed))
        },
        Err(e) => Err(e),
    }
}

} // verus!
