//! Network constants: protocol version, the known networks with their magic
//! values, and the service-flags bitmask.

use vstd::prelude::*;

use crate::consensus::encode::Cursor;
use crate::consensus::encode::Decodable;
use crate::consensus::encode::Encodable;
use crate::consensus::encode::Error;
use crate::consensus::encode::ReadExt;
use crate::consensus::encode::WriteExt;
use crate::consensus::encode::u64_dec;
use crate::util::endian::le_bytes;
use crate::util::endian::lemma_le_bytes_len;
use crate::util::text::hex_chars;
use crate::util::text::push_hex_u64;
use crate::util::text::str_eq;

verus! {

/// Version of the protocol as appearing in network messages.
pub const PROTOCOL_VERSION: u32 = 70001;

/// The cryptocurrency network to act on.
#[derive(Copy, PartialEq, Eq, PartialOrd, Ord, Clone, Hash, Debug, Structural)]
pub enum Network {
    /// Classic Bitcoin.
    Bitcoin,
    /// Bitcoin's testnet.
    Testnet,
    /// Bitcoin's regtest.
    Regtest,
}

/// The 4-byte magic value that identifies each network's messages.
pub open spec fn magic_of(n: Network) -> u32 {
    match n {
        Network::Bitcoin => 0xD9B4BEF9u32,
        Network::Testnet => 0x0709110Bu32,
        Network::Regtest => 0xDAB5BFFAu32,
    }
}

/// The network a magic value belongs to, if any.
pub open spec fn network_of_magic(magic: u32) -> Option<Network> {
    if magic == 0xD9B4BEF9u32 {
        Some(Network::Bitcoin)
    } else if magic == 0x0709110Bu32 {
        Some(Network::Testnet)
    } else if magic == 0xDAB5BFFAu32 {
        Some(Network::Regtest)
    } else {
        None
    }
}

/// The lower-case name of each network.
pub open spec fn network_name(n: Network) -> Seq<char> {
    match n {
        Network::Bitcoin => "bitcoin"@,
        Network::Testnet => "testnet"@,
        Network::Regtest => "regtest"@,
    }
}

impl Network {
    /// Creates a `Network` from the magic bytes, or `None` when the magic
    /// value belongs to no known network.
    pub fn from_magic(magic: u32) -> (r: Option<Network>)
        ensures
            r == network_of_magic(magic),
    {
        match magic {
            0xD9B4BEF9 => Some(Network::Bitcoin),
            0x0709110B => Some(Network::Testnet),
            0xDAB5BFFA => Some(Network::Regtest),
            _ => None,
        }
    }

    /// Return the network magic bytes, which are encoded little-endian at
    /// the start of every message.
    pub fn magic(&self) -> (r: u32)
        ensures
            r == magic_of(*self),
    {
        match *self {
            Network::Bitcoin => 0xD9B4BEF9,
            Network::Testnet => 0x0709110B,
            Network::Regtest => 0xDAB5BFFA,
        }
    }

    /// The network's lower-case name.
    pub fn to_string(&self) -> (r: String)
        ensures
            r@ == network_name(*self),
    {
        let mut s = String::new();
        match *self {
            Network::Bitcoin => s.append("bitcoin"),
            Network::Testnet => s.append("testnet"),
            Network::Regtest => s.append("regtest"),
        }
        s
    }

    /// The network with the given lower-case name, or an error for an
    /// unknown name.
    pub fn from_name(s: &str) -> (r: Result<Network, Error>)
        ensures
            match r {
                Ok(n) => s@ == network_name(n),
                Err(e) => (forall|n: Network| s@ != network_name(n)) && e matches
                    Error::ParseFailed(_),
            },
    {
        if str_eq(s, "bitcoin") {
            Ok(Network::Bitcoin)
        } else if str_eq(s, "testnet") {
            Ok(Network::Testnet)
        } else if str_eq(s, "regtest") {
            Ok(Network::Regtest)
        } else {
            proof {
                assert forall|n: Network| s@ != network_name(n) by {
                    match n {
                        Network::Bitcoin => {
                        },
                        Network::Testnet => {
                        },
                        Network::Regtest => {
                        },
                    }
                }
            }
            Err(Error::ParseFailed("unknown network name"))
        }
    }
}

impl core::str::FromStr for Network {
    type Err = Error;

    fn from_str(s: &str) -> Result<Network, Error> {
        Network::from_name(s)
    }
}

/// Flags to indicate which network services a node supports.
#[derive(Debug, Clone, Copy, PartialEq, Eq, PartialOrd, Ord, Hash, Structural)]
pub struct ServiceFlags(pub u64);

/// The bits of all flags with an assigned name.
pub const NAMED_FLAGS_MASK: u64 = 0x44F;

/// The rendering of a service-flags value: the named flags present, in
/// declaration order, then any unnamed remainder in hexadecimal, joined by
/// bars; `NONE` when no flag is set.
pub open spec fn flags_string(v: u64) -> Seq<char> {
    if v == 0 {
        "ServiceFlags(NONE)"@
    } else {
        "ServiceFlags("@ + join_bar(flag_segments(v)) + ")"@
    }
}

/// The list of rendered segments for a service-flags value.
pub open spec fn flag_segments(v: u64) -> Seq<Seq<char>> {
    let s0 = Seq::<Seq<char>>::empty();
    let s1 = if (v | 0x1) == v {
        s0.push("NETWORK"@)
    } else {
        s0
    };
    let s2 = if (v | 0x2) == v {
        s1.push("GETUTXO"@)
    } else {
        s1
    };
    let s3 = if (v | 0x4) == v {
        s2.push("BLOOM"@)
    } else {
        s2
    };
    let s4 = if (v | 0x8) == v {
        s3.push("WITNESS"@)
    } else {
        s3
    };
    let s5 = if (v | 0x40) == v {
        s4.push("COMPACT_FILTERS"@)
    } else {
        s4
    };
    let s6 = if (v | 0x400) == v {
        s5.push("NETWORK_LIMITED"@)
    } else {
        s5
    };
    let left = v & !NAMED_FLAGS_MASK;
    if left != 0 {
        s6.push("0x"@ + hex_chars(left as nat))
    } else {
        s6
    }
}

/// Segments joined by a bar character.
pub open spec fn join_bar(s: Seq<Seq<char>>) -> Seq<char>
    decreases s.len(),
{
    if s.len() == 0 {
        Seq::empty()
    } else if s.len() == 1 {
        s[0]
    } else {
        s[0] + seq!['|'] + join_bar(s.skip(1))
    }
}

/// Appending a segment to a nonempty list appends a bar and the segment to
/// the joined rendering.
proof fn lemma_join_bar_snoc(s: Seq<Seq<char>>, x: Seq<char>)
    ensures
        join_bar(s.push(x)) == if s.len() == 0 {
            x
        } else {
            join_bar(s) + seq!['|'] + x
        },
    decreases s.len(),
{
    if s.len() == 0 {
        assert(s.push(x) =~= seq![x]);
        assert(join_bar(seq![x]) == x);
    } else {
        assert(s.push(x).skip(1) =~= s.skip(1).push(x));
        lemma_join_bar_snoc(s.skip(1), x);
        assert(s.push(x)[0] == s[0]);
        if s.len() == 1 {
            assert(join_bar(s.push(x)) =~= join_bar(s) + seq!['|'] + x);
        } else {
            assert(join_bar(s.push(x)) =~= join_bar(s) + seq!['|'] + x);
        }
    }
}

impl ServiceFlags {
    /// No services.
    pub fn none() -> (r: ServiceFlags)
        ensures
            r.0 == 0,
    {
        ServiceFlags(0)
    }

    /// The node is capable of serving the complete blockchain.
    pub fn network() -> (r: ServiceFlags)
        ensures
            r.0 == 0x1,
    {
        ServiceFlags(0x1)
    }

    /// The node is capable of responding to the getutxo protocol request.
    pub fn getutxo() -> (r: ServiceFlags)
        ensures
            r.0 == 0x2,
    {
        ServiceFlags(0x2)
    }

    /// The node is capable of supporting bloom-filtered connections.
    pub fn bloom() -> (r: ServiceFlags)
        ensures
            r.0 == 0x4,
    {
        ServiceFlags(0x4)
    }

    /// The node can be asked for blocks and transactions with witness data.
    pub fn witness() -> (r: ServiceFlags)
        ensures
            r.0 == 0x8,
    {
        ServiceFlags(0x8)
    }

    /// The node supports compact block filters.
    pub fn compact_filters() -> (r: ServiceFlags)
        ensures
            r.0 == 0x40,
    {
        ServiceFlags(0x40)
    }

    /// Like `network`, but only for the last two days' worth of blocks.
    pub fn network_limited() -> (r: ServiceFlags)
        ensures
            r.0 == 0x400,
    {
        ServiceFlags(0x400)
    }

    /// Add the given flags to this set, returning the result.
    pub fn add(&mut self, other: ServiceFlags) -> (r: ServiceFlags)
        ensures
            final(self).0 == old(self).0 | other.0,
            r == *final(self),
    {
        self.0 = self.0 | other.0;
        *self
    }

    /// Remove the given flags from this set, returning the result.
    pub fn remove(&mut self, other: ServiceFlags) -> (r: ServiceFlags)
        ensures
            final(self).0 == old(self).0 ^ other.0,
            r == *final(self),
    {
        self.0 = self.0 ^ other.0;
        *self
    }

    /// Check whether all the given flags are included in this set.
    pub fn has(&self, flags: ServiceFlags) -> (r: bool)
        ensures
            r == ((self.0 | flags.0) == self.0),
    {
        (self.0 | flags.0) == self.0
    }

    /// The integer representation of this flag set.
    pub fn as_u64(&self) -> (r: u64)
        ensures
            r == self.0,
    {
        self.0
    }

    /// Render the flag set: the named flags present, then any unnamed bits
    /// in hexadecimal.
    pub fn to_string(&self) -> (r: String)
        ensures
            r@ == flags_string(self.0),
    {
        let v = self.0;
        if v == 0 {
            let mut s = String::new();
            s.append("ServiceFlags(NONE)");
            return s;
        }
        let mut s = String::new();
        s.append("ServiceFlags(");
        let mut first: bool = true;
        let ghost mut segs = Seq::<Seq<char>>::empty();
        proof {
            assert(s@ =~= "ServiceFlags("@ + join_bar(segs));
        }
        if self.has(ServiceFlags::network()) {
            push_part(&mut s, first, "NETWORK", Ghost(segs));
            first = false;
            proof {
                segs = segs.push("NETWORK"@);
            }
        }
        if self.has(ServiceFlags::getutxo()) {
            push_part(&mut s, first, "GETUTXO", Ghost(segs));
            first = false;
            proof {
                segs = segs.push("GETUTXO"@);
            }
        }
        if self.has(ServiceFlags::bloom()) {
            push_part(&mut s, first, "BLOOM", Ghost(segs));
            first = false;
            proof {
                segs = segs.push("BLOOM"@);
            }
        }
        if self.has(ServiceFlags::witness()) {
            push_part(&mut s, first, "WITNESS", Ghost(segs));
            first = false;
            proof {
                segs = segs.push("WITNESS"@);
            }
        }
        if self.has(ServiceFlags::compact_filters()) {
            push_part(&mut s, first, "COMPACT_FILTERS", Ghost(segs));
            first = false;
            proof {
                segs = segs.push("COMPACT_FILTERS"@);
            }
        }
        if self.has(ServiceFlags::network_limited()) {
            push_part(&mut s, first, "NETWORK_LIMITED", Ghost(segs));
            first = false;
            proof {
                segs = segs.push("NETWORK_LIMITED"@);
            }
        }
        let left = v & !NAMED_FLAGS_MASK;
        if left != 0 {
            push_hex_part(&mut s, first, left, Ghost(segs));
            proof {
                segs = segs.push("0x"@ + hex_chars(left as nat));
            }
        }
        proof {
            assert(v & !NAMED_FLAGS_MASK == 0 ==> ((v | 0x1) == v || (v | 0x2) == v || (v | 0x4)
                == v || (v | 0x8) == v || (v | 0x40) == v || (v | 0x400) == v)) by (bit_vector)
                requires
                    v != 0,
            ;
            assert(segs =~= flag_segments(v));
        }
        s.append(")");
        proof {
            assert(s@ =~= flags_string(v));
        }
        s
    }
}

/// Append one rendered segment, with a bar before it unless it is the first.
fn push_part(s: &mut String, first: bool, part: &str, Ghost(segs): Ghost<Seq<Seq<char>>>)
    requires
        first == (segs.len() == 0),
        old(s)@ == "ServiceFlags("@ + join_bar(segs),
    ensures
        final(s)@ == "ServiceFlags("@ + join_bar(segs.push(part@)),
{
    proof {
        reveal_strlit("|");
        lemma_join_bar_snoc(segs, part@);
    }
    if !first {
        s.append("|");
    }
    s.append(part);
    proof {
        assert(s@ =~= "ServiceFlags("@ + join_bar(segs.push(part@)));
    }
}

/// Append the hexadecimal segment for the unnamed remainder, with a bar
/// before it unless it is the first segment.
fn push_hex_part(s: &mut String, first: bool, left: u64, Ghost(segs): Ghost<Seq<Seq<char>>>)
    requires
        first == (segs.len() == 0),
        old(s)@ == "ServiceFlags("@ + join_bar(segs),
    ensures
        final(s)@ == "ServiceFlags("@ + join_bar(segs.push("0x"@ + hex_chars(left as nat))),
{
    proof {
        reveal_strlit("|");
        lemma_join_bar_snoc(segs, "0x"@ + hex_chars(left as nat));
    }
    if !first {
        s.append("|");
    }
    s.append("0x");
    push_hex_u64(s, left);
    proof {
        assert(s@ =~= "ServiceFlags("@ + join_bar(segs.push("0x"@ + hex_chars(left as nat))));
    }
}

impl From<u64> for ServiceFlags {
    fn from(f: u64) -> (r: ServiceFlags) {
        ServiceFlags(f)
    }
}

impl vstd::std_specs::convert::FromSpecImpl<u64> for ServiceFlags {
    open spec fn obeys_from_spec() -> bool {
        true
    }

    open spec fn from_spec(f: u64) -> ServiceFlags {
        ServiceFlags(f)
    }
}

impl core::ops::BitOr for ServiceFlags {
    type Output = ServiceFlags;

    fn bitor(self, rhs: ServiceFlags) -> ServiceFlags {
        ServiceFlags(self.0 | rhs.0)
    }
}

impl vstd::std_specs::ops::BitOrSpecImpl for ServiceFlags {
    open spec fn obeys_bitor_spec() -> bool {
        true
    }

    open spec fn bitor_req(self, rhs: ServiceFlags) -> bool {
        true
    }

    open spec fn bitor_spec(self, rhs: ServiceFlags) -> ServiceFlags {
        ServiceFlags(self.0 | rhs.0)
    }
}

impl core::ops::BitXor for ServiceFlags {
    type Output = ServiceFlags;

    fn bitxor(self, rhs: ServiceFlags) -> ServiceFlags {
        ServiceFlags(self.0 ^ rhs.0)
    }
}

impl vstd::std_specs::ops::BitXorSpecImpl for ServiceFlags {
    open spec fn obeys_bitxor_spec() -> bool {
        true
    }

    open spec fn bitxor_req(self, rhs: ServiceFlags) -> bool {
        true
    }

    open spec fn bitxor_spec(self, rhs: ServiceFlags) -> ServiceFlags {
        ServiceFlags(self.0 ^ rhs.0)
    }
}

impl Encodable for ServiceFlags {
    /// A flag set goes on the wire as its 64-bit integer representation.
    open spec fn encoding(&self) -> Seq<u8> {
        le_bytes(self.0 as nat, 8)
    }

    open spec fn encodable(&self) -> bool {
        true
    }

    open spec fn enc_error(&self) -> Error {
        Error::NonMinimalVarInt
    }

    fn consensus_encode(&self, s: &mut Vec<u8>) -> (r: Result<usize, Error>) {
        proof {
            lemma_le_bytes_len(self.0 as nat, 8);
        }
        self.0.consensus_encode(s)
    }
}

/// What decoding a service-flags value yields on the given bytes.
pub open spec fn serviceflags_dec(data: Seq<u8>) -> Result<(ServiceFlags, int), Error> {
    match u64_dec(data) {
        Ok(p) => Ok((ServiceFlags(p.0), p.1)),
        Err(e) => Err(e),
    }
}

impl DeepView for ServiceFlags {
    type V = ServiceFlags;

    open spec fn deep_view(&self) -> ServiceFlags {
        *self
    }
}

impl Decodable for ServiceFlags {
    open spec fn decode_spec(data: Seq<u8>) -> Result<(ServiceFlags, int), Error> {
        serviceflags_dec(data)
    }

    proof fn lemma_decode_consumes(data: Seq<u8>) {
    }

    fn consensus_decode(d: &mut Cursor) -> (r: Result<ServiceFlags, Error>) {
        match u64::consensus_decode(d) {
            Ok(v) => Ok(ServiceFlags(v)),
            Err(e) => Err(e),
        }
    }
}

} // verus!
