//! A peer's network address as carried inside protocol messages: its
//! service flags, IP address segments, and port.

use vstd::prelude::*;

use crate::consensus::collections::seq_dec;
use crate::consensus::collections::seq_enc;
use crate::consensus::collections::u16_dec_fn;
use crate::consensus::collections::u16_enc_fn;
use crate::consensus::encode::u16_dec;
use crate::consensus::encode::u64_dec;
use crate::consensus::encode::Cursor;
use crate::consensus::encode::Decodable;
use crate::consensus::encode::Encodable;
use crate::consensus::encode::Error;
use crate::network::constants::ServiceFlags;
use crate::util::endian::le_bytes;
use crate::util::endian::lemma_le_bytes_len;

verus! {

/// A network address: the services the peer advertises, its IP address as
/// eight 16-bit segments, and its port.
#[derive(PartialEq, Eq, Clone, Debug)]
pub struct Address {
    /// The services the peer at this address supports.
    pub services: ServiceFlags,
    /// The IP address: eight 16-bit segments.
    pub address: [u16; 8],
    /// The port.
    pub port: u16,
}

/// The mathematical value of an [`Address`].
pub ghost struct AddressV {
    /// The services the peer at this address supports.
    pub services: ServiceFlags,
    /// The IP address segments.
    pub address: Seq<u16>,
    /// The port.
    pub port: u16,
}

impl DeepView for Address {
    type V = AddressV;

    open spec fn deep_view(&self) -> AddressV {
        AddressV { services: self.services, address: self.address@, port: self.port }
    }
}

/// The wire bytes of an address: services, address segments and port, each
/// in little-endian order, in declared field order.
pub open spec fn address_enc(a: AddressV) -> Seq<u8> {
    le_bytes(a.services.0 as nat, 8) + seq_enc(a.address, u16_enc_fn()) + le_bytes(
        a.port as nat,
        2,
    )
}

/// What decoding an address yields on the given bytes: each field decoded
/// in declared order, short-circuiting on the first failure.
pub open spec fn address_dec(data: Seq<u8>) -> Result<(AddressV, int), Error> {
    match u64_dec(data) {
        Ok(p1) => match seq_dec(data.skip(p1.1), 8, u16_dec_fn()) {
            Ok(p2) => match u16_dec(data.skip(p1.1 + p2.1)) {
                Ok(p3) => Ok(
                    (
                        AddressV {
                            services: ServiceFlags(p1.0),
                            address: p2.0,
                            port: p3.0,
                        },
                        p1.1 + p2.1 + p3.1,
                    ),
                ),
                Err(e) => Err(e),
            },
            Err(e) => Err(e),
        },
        Err(e) => Err(e),
    }
}

impl Encodable for Address {
    open spec fn encoding(&self) -> Seq<u8> {
        address_enc(self.deep_view())
    }

    open spec fn encodable(&self) -> bool {
        true
    }

    open spec fn enc_error(&self) -> Error {
        Error::NonMinimalVarInt
    }

    fn consensus_encode(&self, s: &mut Vec<u8>) -> (r: Result<usize, Error>) {
        let ghost s0 = s@;
        proof {
            lemma_le_bytes_len(self.services.0 as nat, 8);
            crate::consensus::collections::lemma_seq_enc_u16_len(self.address@);
            lemma_le_bytes_len(self.port as nat, 2);
        }
        let mut len = self.services.consensus_encode(s)?;
        let n2 = self.address.consensus_encode(s)?;
        len = len + n2;
        let n3 = self.port.consensus_encode(s)?;
        len = len + n3;
        proof {
            assert(s@ =~= s0 + self.encoding());
        }
        Ok(len)
    }
}

impl Decodable for Address {
    open spec fn decode_spec(data: Seq<u8>) -> Result<(AddressV, int), Error> {
        address_dec(data)
    }

    proof fn lemma_decode_consumes(data: Seq<u8>) {
        match u64_dec(data) {
            Ok(p1) => {
                <[u16; 8] as Decodable>::lemma_decode_consumes(data.skip(p1.1));
            },
            Err(e) => {
            },
        }
    }

    fn consensus_decode(d: &mut Cursor) -> (r: Result<Address, Error>) {
        let ghost rem0 = old(d).remaining();
        let services = ServiceFlags::consensus_decode(d)?;
        proof {
            assert(d.remaining() =~= rem0.skip(8));
        }
        let ghost rem1 = d.remaining();
        let address = <[u16; 8] as Decodable>::consensus_decode(d)?;
        proof {
            assert(address.deep_view() =~= address@);
            <[u16; 8] as Decodable>::lemma_decode_consumes(rem1);
            match <[u16; 8] as Decodable>::decode_spec(rem1) {
                Ok(p2) => {
                    assert(d.remaining() =~= rem1.skip(p2.1));
                    assert(rem1.skip(p2.1) =~= rem0.skip(8 + p2.1));
                },
                Err(e) => {
                },
            }
        }
        let port = u16::consensus_decode(d)?;
        Ok(Address { services, address, port })
    }
}

/// Round trip for addresses: decoding the encoding of any address, with
/// anything after it, yields the address back field by field.
pub proof fn lemma_address_round_trip(a: Address, rest: Seq<u8>)
    ensures
        address_dec(a.encoding() + rest) == Ok::<(AddressV, int), Error>((
            a.deep_view(),
            a.encoding().len() as int,
        )),
{
    crate::util::endian::lemma_pow256_values();
    let av = a.deep_view();
    let seg = seq_enc(av.address, u16_enc_fn());
    let data = a.encoding() + rest;
    lemma_le_bytes_len(av.services.0 as nat, 8);
    lemma_le_bytes_len(av.port as nat, 2);
    crate::consensus::collections::lemma_seq_enc_u16_len(av.address);
    assert(data.take(8) =~= le_bytes(av.services.0 as nat, 8));
    crate::util::endian::lemma_le_value_of_le_bytes(av.services.0 as nat, 8);
    assert(data.skip(8) =~= seg + (le_bytes(av.port as nat, 2) + rest));
    assert forall|i: int, r: Seq<u8>|
        0 <= i < av.address.len() implies #[trigger] u16_dec_fn()(u16_enc_fn()(av.address[i]) + r)
        == Ok::<(u16, int), Error>((av.address[i], u16_enc_fn()(av.address[i]).len() as int)) by {
        lemma_le_bytes_len(av.address[i] as nat, 2);
        assert((le_bytes(av.address[i] as nat, 2) + r).take(2) =~= le_bytes(
            av.address[i] as nat,
            2,
        ));
        crate::util::endian::lemma_le_value_of_le_bytes(av.address[i] as nat, 2);
    }
    crate::consensus::laws::lemma_seq_round_trip(
        av.address,
        le_bytes(av.port as nat, 2) + rest,
        u16_enc_fn(),
        u16_dec_fn(),
        |x: u16| x,
    );
    assert(av.address.map_values(|x: u16| x) =~= av.address);
    assert(data.skip(8 + seg.len() as int) =~= le_bytes(av.port as nat, 2) + rest);
    assert((le_bytes(av.port as nat, 2) + rest).take(2) =~= le_bytes(av.port as nat, 2));
    crate::util::endian::lemma_le_value_of_le_bytes(av.port as nat, 2);
}

} // verus!
