//! Network messages that describe peers and their capabilities.

use vstd::prelude::*;
use vstd::utf8::encode_utf8;

use crate::consensus::collections::bytes_enc;
use crate::consensus::collections::string_dec;
use crate::consensus::encode::bool_dec;
use crate::consensus::encode::i32_dec;
use crate::consensus::encode::i64_dec;
use crate::consensus::encode::u32_dec;
use crate::consensus::encode::u64_dec;
use crate::consensus::encode::Cursor;
use crate::consensus::encode::Decodable;
use crate::consensus::encode::Encodable;
use crate::consensus::encode::Error;
use crate::consensus::encode::IoError;
use crate::network::address::address_dec;
use crate::network::address::address_enc;
use crate::network::address::Address;
use crate::network::address::AddressV;
use crate::network::constants;
use crate::network::constants::serviceflags_dec;
use crate::network::constants::ServiceFlags;
use crate::util::endian::le_bytes;
use crate::util::endian::lemma_le_bytes_len;

verus! {

/// The `version` message: the handshake a peer opens a connection with.
#[derive(PartialEq, Eq, Clone, Debug)]
pub struct VersionMessage {
    /// The peer-to-peer network protocol version.
    pub version: u32,
    /// A bitmask describing the services supported by this node.
    pub services: ServiceFlags,
    /// The time at which this `version` message was sent.
    pub timestamp: i64,
    /// The network address of the peer receiving the message.
    pub receiver: Address,
    /// The network address of the peer sending the message.
    pub sender: Address,
    /// A random nonce used to detect loops in the network.
    pub nonce: u64,
    /// A string describing the peer's software.
    pub user_agent: String,
    /// The height of the maximum-work blockchain the peer is aware of.
    pub start_height: i32,
    /// Whether the receiving peer should relay messages to the sender.
    pub relay: bool,
}

/// The mathematical value of a [`VersionMessage`].
pub ghost struct VersionMessageV {
    /// The peer-to-peer network protocol version.
    pub version: u32,
    /// A bitmask describing the services supported by this node.
    pub services: ServiceFlags,
    /// The time at which this `version` message was sent.
    pub timestamp: i64,
    /// The network address of the peer receiving the message.
    pub receiver: AddressV,
    /// The network address of the peer sending the message.
    pub sender: AddressV,
    /// A random nonce used to detect loops in the network.
    pub nonce: u64,
    /// The characters describing the peer's software.
    pub user_agent: Seq<char>,
    /// The height of the maximum-work blockchain the peer is aware of.
    pub start_height: i32,
    /// Whether the receiving peer should relay messages to the sender.
    pub relay: bool,
}

impl DeepView for VersionMessage {
    type V = VersionMessageV;

    open spec fn deep_view(&self) -> VersionMessageV {
        VersionMessageV {
            version: self.version,
            services: self.services,
            timestamp: self.timestamp,
            receiver: self.receiver.deep_view(),
            sender: self.sender.deep_view(),
            nonce: self.nonce,
            user_agent: self.user_agent@,
            start_height: self.start_height,
            relay: self.relay,
        }
    }
}

impl VersionMessage {
    /// Builds a version message with the current protocol version, and
    /// relaying off.
    pub fn new(
        services: ServiceFlags,
        timestamp: i64,
        receiver: Address,
        sender: Address,
        nonce: u64,
        user_agent: String,
        start_height: i32,
    ) -> (r: VersionMessage)
        ensures
            r.version == constants::PROTOCOL_VERSION,
            r.services == services,
            r.timestamp == timestamp,
            r.receiver == receiver,
            r.sender == sender,
            r.nonce == nonce,
            r.user_agent == user_agent,
            r.start_height == start_height,
            r.relay == false,
    {
        VersionMessage {
            version: constants::PROTOCOL_VERSION,
            services,
            timestamp,
            receiver,
            sender,
            nonce,
            user_agent,
            start_height,
            relay: false,
        }
    }
}

/// The wire bytes of a version message: each field's own encoding,
/// concatenated in declared field order. This ordering is the wire format;
/// there is no field tagging.
pub open spec fn version_msg_enc(m: VersionMessageV) -> Seq<u8> {
    le_bytes(m.version as nat, 4) + le_bytes(m.services.0 as nat, 8) + le_bytes(
        (m.timestamp as u64) as nat,
        8,
    ) + address_enc(m.receiver) + address_enc(m.sender) + le_bytes(m.nonce as nat, 8) + bytes_enc(
        encode_utf8(m.user_agent),
    ) + le_bytes((m.start_height as u32) as nat, 4) + seq![
        if m.relay {
            1u8
        } else {
            0u8
        },
    ]
}

/// What decoding a version message yields: each field decoded in declared
/// order from the same source, short-circuiting on the first failure.
pub open spec fn version_msg_dec(data: Seq<u8>) -> Result<(VersionMessageV, int), Error> {
    match u32_dec(data) {
        Ok(p1) => match serviceflags_dec(data.skip(p1.1)) {
            Ok(p2) => match i64_dec(data.skip(p1.1 + p2.1)) {
                Ok(p3) => match address_dec(data.skip(p1.1 + p2.1 + p3.1)) {
                    Ok(p4) => match address_dec(data.skip(p1.1 + p2.1 + p3.1 + p4.1)) {
                        Ok(p5) => match u64_dec(data.skip(p1.1 + p2.1 + p3.1 + p4.1 + p5.1)) {
                            Ok(p6) => match string_dec(
                                data.skip(p1.1 + p2.1 + p3.1 + p4.1 + p5.1 + p6.1),
                            ) {
                                Ok(p7) => match i32_dec(
                                    data.skip(p1.1 + p2.1 + p3.1 + p4.1 + p5.1 + p6.1 + p7.1),
                                ) {
                                    Ok(p8) => match bool_dec(
                                        data.skip(
                                            p1.1 + p2.1 + p3.1 + p4.1 + p5.1 + p6.1 + p7.1 + p8.1,
                                        ),
                                    ) {
                                        Ok(p9) => Ok(
                                            (
                                                VersionMessageV {
                                                    version: p1.0,
                                                    services: p2.0,
                                                    timestamp: p3.0,
                                                    receiver: p4.0,
                                                    sender: p5.0,
                                                    nonce: p6.0,
                                                    user_agent: p7.0,
                                                    start_height: p8.0,
                                                    relay: p9.0,
                                                },
                                                p1.1 + p2.1 + p3.1 + p4.1 + p5.1 + p6.1 + p7.1
                                                    + p8.1 + p9.1,
                                            ),
                                        ),
                                        Err(e) => Err(e),
                                    },
                                    Err(e) => Err(e),
                                },
                                Err(e) => Err(e),
                            },
                            Err(e) => Err(e),
                        },
                        Err(e) => Err(e),
                    },
                    Err(e) => Err(e),
                },
                Err(e) => Err(e),
            },
            Err(e) => Err(e),
        },
        Err(e) => Err(e),
    }
}

impl Encodable for VersionMessage {
    open spec fn encoding(&self) -> Seq<u8> {
        version_msg_enc(self.deep_view())
    }

    open spec fn encodable(&self) -> bool {
        true
    }

    open spec fn enc_error(&self) -> Error {
        Error::NonMinimalVarInt
    }

    fn consensus_encode(&self, s: &mut Vec<u8>) -> (r: Result<usize, Error>) {
        let ghost s0 = s@;
        let ghost e1 = le_bytes(self.version as nat, 4);
        let ghost e2 = le_bytes(self.services.0 as nat, 8);
        let ghost e3 = le_bytes((self.timestamp as u64) as nat, 8);
        let ghost e4 = address_enc(self.receiver.deep_view());
        let ghost e5 = address_enc(self.sender.deep_view());
        let ghost e6 = le_bytes(self.nonce as nat, 8);
        let ghost e7 = bytes_enc(encode_utf8(self.user_agent@));
        let ghost e8 = le_bytes((self.start_height as u32) as nat, 4);
        let ghost e9 = self.relay.encoding();
        proof {
            lemma_le_bytes_len(self.version as nat, 4);
            lemma_le_bytes_len(self.services.0 as nat, 8);
            lemma_le_bytes_len((self.timestamp as u64) as nat, 8);
            lemma_le_bytes_len(self.nonce as nat, 8);
            lemma_le_bytes_len((self.start_height as u32) as nat, 4);
            assert(self.encoding() == e1 + e2 + e3 + e4 + e5 + e6 + e7 + e8 + e9);
        }
        let mut len = self.version.consensus_encode(s)?;
        proof {
            assert(s@ =~= s0 + e1);
        }
        let n = self.services.consensus_encode(s)?;
        len = len + n;
        proof {
            assert(s@ =~= s0 + (e1 + e2));
        }
        let n = self.timestamp.consensus_encode(s)?;
        len = len + n;
        proof {
            assert(s@ =~= s0 + (e1 + e2 + e3));
        }
        let n = self.receiver.consensus_encode(s)?;
        len = len + n;
        proof {
            assert(s@ =~= s0 + (e1 + e2 + e3 + e4));
        }
        let n = self.sender.consensus_encode(s)?;
        len = len + n;
        proof {
            assert(s@ =~= s0 + (e1 + e2 + e3 + e4 + e5));
        }
        let n = self.nonce.consensus_encode(s)?;
        len = len + n;
        proof {
            assert(s@ =~= s0 + (e1 + e2 + e3 + e4 + e5 + e6));
        }
        let n = self.user_agent.consensus_encode(s)?;
        len = len + n;
        proof {
            assert(s@ =~= s0 + (e1 + e2 + e3 + e4 + e5 + e6 + e7));
        }
        let n = self.start_height.consensus_encode(s)?;
        len = len + n;
        proof {
            assert(s@ =~= s0 + (e1 + e2 + e3 + e4 + e5 + e6 + e7 + e8));
        }
        let n = self.relay.consensus_encode(s)?;
        len = len + n;
        proof {
            assert(s@ =~= s0 + self.encoding());
        }
        Ok(len)
    }
}

impl Decodable for VersionMessage {
    open spec fn decode_spec(data: Seq<u8>) -> Result<(VersionMessageV, int), Error> {
        version_msg_dec(data)
    }

    proof fn lemma_decode_consumes(data: Seq<u8>) {
        match u32_dec(data) {
            Ok(p1) => {
                let d1 = data.skip(p1.1);
                match serviceflags_dec(d1) {
                    Ok(p2) => {
                        let d2 = d1.skip(p2.1);
                        assert(data.skip(p1.1 + p2.1) =~= d2);
                        match i64_dec(d2) {
                            Ok(p3) => {
                                let d3 = d2.skip(p3.1);
                                assert(data.skip(p1.1 + p2.1 + p3.1) =~= d3);
                                <Address as Decodable>::lemma_decode_consumes(d3);
                                match address_dec(d3) {
                                    Ok(p4) => {
                                        let d4 = d3.skip(p4.1);
                                        assert(data.skip(p1.1 + p2.1 + p3.1 + p4.1) =~= d4);
                                        <Address as Decodable>::lemma_decode_consumes(d4);
                                        match address_dec(d4) {
                                            Ok(p5) => {
                                                let d5 = d4.skip(p5.1);
                                                assert(data.skip(
                                                    p1.1 + p2.1 + p3.1 + p4.1 + p5.1,
                                                ) =~= d5);
                                                match u64_dec(d5) {
                                                    Ok(p6) => {
                                                        let d6 = d5.skip(p6.1);
                                                        assert(data.skip(
                                                            p1.1 + p2.1 + p3.1 + p4.1 + p5.1 + p6.1,
                                                        ) =~= d6);
                                                        <Vec<u8> as Decodable>::lemma_decode_consumes(
                                                            d6,
                                                        );
                                                        match string_dec(d6) {
                                                            Ok(p7) => {
                                                                let d7 = d6.skip(p7.1);
                                                                assert(data.skip(
                                                                    p1.1 + p2.1 + p3.1 + p4.1 + p5.1
                                                                        + p6.1 + p7.1,
                                                                ) =~= d7);
                                                                match i32_dec(d7) {
                                                                    Ok(p8) => {
                                                                        let d8 = d7.skip(p8.1);
                                                                        assert(data.skip(
                                                                            p1.1 + p2.1 + p3.1
                                                                                + p4.1 + p5.1 + p6.1
                                                                                + p7.1 + p8.1,
                                                                        ) =~= d8);
                                                                    },
                                                                    Err(e) => {
                                                                    },
                                                                }
                                                            },
                                                            Err(e) => {
                                                            },
                                                        }
                                                    },
                                                    Err(e) => {
                                                    },
                                                }
                                            },
                                            Err(e) => {
                                            },
                                        }
                                    },
                                    Err(e) => {
                                    },
                                }
                            },
                            Err(e) => {
                            },
                        }
                    },
                    Err(e) => {
                    },
                }
            },
            Err(e) => {
            },
        }
    }

    #[verifier::rlimit(100)]
    fn consensus_decode(d: &mut Cursor) -> (r: Result<VersionMessage, Error>) {
        let ghost rem0 = old(d).remaining();
        let version = u32::consensus_decode(d)?;
        let ghost rem1 = rem0.skip(4);
        proof {
            assert(d.remaining() =~= rem1);
        }
        let services = ServiceFlags::consensus_decode(d)?;
        let ghost rem2 = rem1.skip(8);
        proof {
            assert(d.remaining() =~= rem2);
            assert(rem2 =~= rem0.skip(4int + 8));
        }
        let timestamp = i64::consensus_decode(d)?;
        let ghost rem3 = rem2.skip(8);
        proof {
            assert(d.remaining() =~= rem3);
            assert(rem3 =~= rem0.skip(4int + 8 + 8));
        }
        let ghost pos3 = d.pos as int;
        let receiver = Address::consensus_decode(d)?;
        proof {
            <Address as Decodable>::lemma_decode_consumes(rem3);
        }
        let ghost c4 = d.pos - pos3;
        let ghost rem4 = rem3.skip(c4);
        proof {
            assert(d.remaining() =~= rem4);
            assert(rem4 =~= rem0.skip(4int + 8 + 8 + c4));
        }
        let ghost pos4 = d.pos as int;
        let sender = Address::consensus_decode(d)?;
        proof {
            <Address as Decodable>::lemma_decode_consumes(rem4);
        }
        let ghost c5 = d.pos - pos4;
        let ghost rem5 = rem4.skip(c5);
        proof {
            assert(d.remaining() =~= rem5);
            assert(rem5 =~= rem0.skip(4int + 8 + 8 + c4 + c5));
        }
        let nonce = u64::consensus_decode(d)?;
        let ghost rem6 = rem5.skip(8);
        proof {
            assert(d.remaining() =~= rem6);
            assert(rem6 =~= rem0.skip(4int + 8 + 8 + c4 + c5 + 8));
        }
        let ghost pos6 = d.pos as int;
        let user_agent = String::consensus_decode(d)?;
        proof {
            <Vec<u8> as Decodable>::lemma_decode_consumes(rem6);
        }
        let ghost c7 = d.pos - pos6;
        let ghost rem7 = rem6.skip(c7);
        proof {
            assert(d.remaining() =~= rem7);
            assert(rem7 =~= rem0.skip(4int + 8 + 8 + c4 + c5 + 8 + c7));
        }
        let start_height = i32::consensus_decode(d)?;
        let ghost rem8 = rem7.skip(4);
        proof {
            assert(d.remaining() =~= rem8);
            assert(rem8 =~= rem0.skip(4int + 8 + 8 + c4 + c5 + 8 + c7 + 4));
        }
        let relay = bool::consensus_decode(d)?;
        Ok(
            VersionMessage {
                version,
                services,
                timestamp,
                receiver,
                sender,
                nonce,
                user_agent,
                start_height,
                relay,
            },
        )
    }
}

/// Message rejection reason, as carried in a `reject` message.
#[derive(PartialEq, Eq, Clone, Copy, Debug, Structural)]
pub enum RejectReason {
    /// Malformed message.
    Malformed,
    /// Invalid message.
    Invalid,
    /// Obsolete message.
    Obsolete,
    /// Duplicate message.
    Duplicate,
    /// Nonstandard message.
    NonStandard,
    /// An output is below the dust limit.
    Dust,
    /// Insufficient fee.
    Fee,
    /// Rejected by a checkpoint.
    Checkpoint,
}

/// The wire code of each rejection reason.
pub open spec fn reject_code(r: RejectReason) -> u8 {
    match r {
        RejectReason::Malformed => 0x01u8,
        RejectReason::Invalid => 0x10u8,
        RejectReason::Obsolete => 0x11u8,
        RejectReason::Duplicate => 0x12u8,
        RejectReason::NonStandard => 0x40u8,
        RejectReason::Dust => 0x41u8,
        RejectReason::Fee => 0x42u8,
        RejectReason::Checkpoint => 0x43u8,
    }
}

/// What decoding a rejection reason yields: a code outside the known set is
/// a parse failure.
pub open spec fn reject_dec(data: Seq<u8>) -> Result<(RejectReason, int), Error> {
    if data.len() < 1 {
        Err(Error::Io(IoError::UnexpectedEof))
    } else if data[0] == 0x01 {
        Ok((RejectReason::Malformed, 1))
    } else if data[0] == 0x10 {
        Ok((RejectReason::Invalid, 1))
    } else if data[0] == 0x11 {
        Ok((RejectReason::Obsolete, 1))
    } else if data[0] == 0x12 {
        Ok((RejectReason::Duplicate, 1))
    } else if data[0] == 0x40 {
        Ok((RejectReason::NonStandard, 1))
    } else if data[0] == 0x41 {
        Ok((RejectReason::Dust, 1))
    } else if data[0] == 0x42 {
        Ok((RejectReason::Fee, 1))
    } else if data[0] == 0x43 {
        Ok((RejectReason::Checkpoint, 1))
    } else {
        Err(Error::ParseFailed("unknown reject code"))
    }
}

impl RejectReason {
    /// The code this reason is sent as.
    pub fn code(&self) -> (r: u8)
        ensures
            r == reject_code(*self),
    {
        match *self {
            RejectReason::Malformed => 0x01,
            RejectReason::Invalid => 0x10,
            RejectReason::Obsolete => 0x11,
            RejectReason::Duplicate => 0x12,
            RejectReason::NonStandard => 0x40,
            RejectReason::Dust => 0x41,
            RejectReason::Fee => 0x42,
            RejectReason::Checkpoint => 0x43,
        }
    }
}

impl DeepView for RejectReason {
    type V = RejectReason;

    open spec fn deep_view(&self) -> RejectReason {
        *self
    }
}

impl Encodable for RejectReason {
    open spec fn encoding(&self) -> Seq<u8> {
        seq![reject_code(*self)]
    }

    open spec fn encodable(&self) -> bool {
        true
    }

    open spec fn enc_error(&self) -> Error {
        Error::NonMinimalVarInt
    }

    fn consensus_encode(&self, s: &mut Vec<u8>) -> (r: Result<usize, Error>) {
        crate::consensus::encode::WriteExt::emit_u8(s, self.code())?;
        Ok(1)
    }
}

impl Decodable for RejectReason {
    open spec fn decode_spec(data: Seq<u8>) -> Result<(RejectReason, int), Error> {
        reject_dec(data)
    }

    proof fn lemma_decode_consumes(data: Seq<u8>) {
    }

    fn consensus_decode(d: &mut Cursor) -> (r: Result<RejectReason, Error>) {
        match crate::consensus::encode::ReadExt::read_u8(d) {
            Ok(b) => match b {
                0x01 => Ok(RejectReason::Malformed),
                0x10 => Ok(RejectReason::Invalid),
                0x11 => Ok(RejectReason::Obsolete),
                0x12 => Ok(RejectReason::Duplicate),
                0x40 => Ok(RejectReason::NonStandard),
                0x41 => Ok(RejectReason::Dust),
                0x42 => Ok(RejectReason::Fee),
                0x43 => Ok(RejectReason::Checkpoint),
                _ => Err(Error::ParseFailed("unknown reject code")),
            },
            Err(e) => Err(e),
        }
    }
}

/// A `reject` message, sent by peers rejecting one of our messages.
#[derive(PartialEq, Eq, Clone, Debug)]
pub struct Reject {}

/// Round trip for rejection reasons.
pub proof fn lemma_reject_reason_round_trip(v: RejectReason, rest: Seq<u8>)
    ensures
        reject_dec(v.encoding() + rest) == Ok::<(RejectReason, int), Error>((v, 1)),
{
    assert((v.encoding() + rest)[0] == reject_code(v));
}

/// Round trip for version messages: the composite decodes back field by
/// field to the message that was encoded, provided its user-agent string
/// fits under the allocation ceiling.
#[verifier::rlimit(100)]
pub proof fn lemma_version_message_round_trip(m: VersionMessage, rest: Seq<u8>)
    requires
        encode_utf8(m.user_agent@).len() <= crate::consensus::encode::MAX_VEC_SIZE,
    ensures
        version_msg_dec(m.encoding() + rest) == Ok::<(VersionMessageV, int), Error>((
            m.deep_view(),
            m.encoding().len() as int,
        )),
{
    let mv = m.deep_view();
    let e1 = le_bytes(mv.version as nat, 4);
    let e2 = le_bytes(mv.services.0 as nat, 8);
    let e3 = le_bytes((mv.timestamp as u64) as nat, 8);
    let e4 = address_enc(mv.receiver);
    let e5 = address_enc(mv.sender);
    let e6 = le_bytes(mv.nonce as nat, 8);
    let e7 = bytes_enc(encode_utf8(mv.user_agent));
    let e8 = le_bytes((mv.start_height as u32) as nat, 4);
    let e9 = seq![
        if mv.relay {
            1u8
        } else {
            0u8
        },
    ];
    let c4 = e4.len() as int;
    let c5 = e5.len() as int;
    let c7 = e7.len() as int;
    let data = m.encoding() + rest;
    lemma_le_bytes_len(mv.version as nat, 4);
    lemma_le_bytes_len(mv.services.0 as nat, 8);
    lemma_le_bytes_len((mv.timestamp as u64) as nat, 8);
    lemma_le_bytes_len(mv.nonce as nat, 8);
    lemma_le_bytes_len((mv.start_height as u32) as nat, 4);
    assert(u32_dec(data) == Ok::<(u32, int), Error>((mv.version, 4))) by {
        crate::util::endian::lemma_pow256_values();
        assert(data.take(4) =~= e1);
        crate::util::endian::lemma_le_value_of_le_bytes(mv.version as nat, 4);
    }
    assert(serviceflags_dec(data.skip(4int)) == Ok::<(ServiceFlags, int), Error>((
        mv.services,
        8,
    ))) by {
        crate::util::endian::lemma_pow256_values();
        assert(data.skip(4int).take(8) =~= e2);
        crate::util::endian::lemma_le_value_of_le_bytes(mv.services.0 as nat, 8);
    }
    assert(i64_dec(data.skip(12int)) == Ok::<(i64, int), Error>((mv.timestamp, 8))) by {
        crate::util::endian::lemma_pow256_values();
        assert(data.skip(12int).take(8) =~= e3);
        crate::util::endian::lemma_le_value_of_le_bytes((mv.timestamp as u64) as nat, 8);
        let ts = mv.timestamp;
        assert(ts as u64 as i64 == ts) by (bit_vector);
    }
    assert(address_dec(data.skip(20int)) == Ok::<(AddressV, int), Error>((mv.receiver, c4))) by {
        assert(data.skip(20int) =~= e4 + (e5 + e6 + e7 + e8 + e9 + rest));
        crate::network::address::lemma_address_round_trip(
            m.receiver,
            e5 + e6 + e7 + e8 + e9 + rest,
        );
    }
    assert(address_dec(data.skip(20 + c4)) == Ok::<(AddressV, int), Error>((mv.sender, c5))) by {
        assert(data.skip(20 + c4) =~= e5 + (e6 + e7 + e8 + e9 + rest));
        crate::network::address::lemma_address_round_trip(m.sender, e6 + e7 + e8 + e9 + rest);
    }
    assert(u64_dec(data.skip(20 + c4 + c5)) == Ok::<(u64, int), Error>((mv.nonce, 8))) by {
        crate::util::endian::lemma_pow256_values();
        assert(data.skip(20 + c4 + c5).take(8) =~= e6);
        crate::util::endian::lemma_le_value_of_le_bytes(mv.nonce as nat, 8);
    }
    assert(string_dec(data.skip(28 + c4 + c5)) == Ok::<(Seq<char>, int), Error>((
        mv.user_agent,
        c7,
    ))) by {
        assert(data.skip(28 + c4 + c5) =~= e7 + (e8 + e9 + rest));
        crate::consensus::laws::lemma_string_round_trip(m.user_agent, e8 + e9 + rest);
    }
    assert(i32_dec(data.skip(28 + c4 + c5 + c7)) == Ok::<(i32, int), Error>((
        mv.start_height,
        4,
    ))) by {
        crate::util::endian::lemma_pow256_values();
        assert(data.skip(28 + c4 + c5 + c7).take(4) =~= e8);
        crate::util::endian::lemma_le_value_of_le_bytes((mv.start_height as u32) as nat, 4);
        let sh = mv.start_height;
        assert(sh as u32 as i32 == sh) by (bit_vector);
    }
    assert(bool_dec(data.skip(32 + c4 + c5 + c7)) == Ok::<(bool, int), Error>((mv.relay, 1))) by {
        assert(data.skip(32 + c4 + c5 + c7)[0] == e9[0]);
    }
    assert(m.encoding().len() as int == 32 + c4 + c5 + c7 + 1);
}

} // verus!
